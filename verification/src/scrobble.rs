//! Ordered Trakt playback reporting for one playback session: when to report, and how
//! each answer changes what is shown.
use vstd::prelude::*;
use crate::text::{chars_of, has_substring, contains_text, string_of};
use crate::transfers::{as_float, float_value, lemma_small_floats_exact};

verus! {

/// A playback report to Trakt.
#[derive(Clone, Copy, Debug, PartialEq, Eq, Structural)]
pub enum ScrobbleAction {
    Start,
    Pause,
    Stop,
}

/// What Trakt confirmed for a report.
#[derive(Clone, Copy, Debug, PartialEq, Eq, Structural)]
pub enum Outcome {
    Watching,
    Paused,
    Watched,
}

/// How a queued report ended.
#[derive(Debug)]
pub enum Reply {
    /// Trakt confirmed the report.
    Confirmed(Outcome),
    /// The profile is no longer connected to Trakt.
    Disconnected,
    /// Trakt refused or could not be reached; the message says why.
    Failed(String),
    /// The reporting queue stopped before answering.
    Dropped,
}

/// Whether the profile's Trakt connection could be checked when playback started.
#[derive(Clone, Copy, Debug, PartialEq, Eq)]
pub enum Connection {
    Connected,
    NotConnected,
    Unavailable,
}

/// The Trakt label under the player.
#[derive(Debug)]
pub enum Label {
    Hidden,
    Shown { text: String, tooltip: String, error: bool, success: bool },
}

/// The reporting state of one playback session.
#[derive(Clone, Copy, Debug)]
pub struct Scrobbler {
    /// The movie or episode has an id Trakt can match.
    pub has_media: bool,
    /// The connection check has finished.
    pub ready: bool,
    /// The profile is connected to Trakt.
    pub connected: bool,
    /// A report is waiting for its answer.
    pub pending: bool,
    /// Trakt confirmed the video as watched; nothing more is reported.
    pub watched: bool,
    /// Playback has ended; only the final report may follow.
    pub ended: bool,
    /// The last report failed or could not be queued.
    pub failed: bool,
    /// Number of the last queued report.
    pub sequence: u64,
    /// The last action queued.
    pub last: Option<ScrobbleAction>,
    /// When the last report was attempted, in milliseconds of a monotonic clock.
    pub attempted_ms: u64,
}

/// The percentage watched, computed in 64-bit floating point as position over duration times
/// one hundred, has reached 95. Both values convert to the nearest double; their quotient
/// rounds to at least the double nearest 0.95 exactly when the exact quotient of the converted
/// values is at least 17113678584007883 / 2^54 (a tie rounds up to that even significand), and
/// times one hundred that double, and no smaller one, rounds to at least 95.
pub open spec fn stop_reached(position: u64, duration: u64) -> bool {
    as_float(position as nat) * 18_014_398_509_481_984 >= 17_113_678_584_007_883 * as_float(duration as nat)
}

/// The report a playback position calls for, when the duration is known: a stop once 95 %
/// of the duration is reached, else a pause while paused or ending, else a start.
pub open spec fn report_for(position: u64, duration: u64, paused: bool, ending: bool) -> Option<ScrobbleAction> {
    if duration == 0 {
        None
    } else if stop_reached(position, duration) {
        Some(ScrobbleAction::Stop)
    } else if paused || ending {
        Some(ScrobbleAction::Pause)
    } else {
        Some(ScrobbleAction::Start)
    }
}

/// The report a playback position calls for, with the position held within the duration
/// (the reported percentage is that position over the duration). Nothing is reported while
/// the duration is unknown (zero).
pub fn report_action(position: u64, duration: u64, paused: bool, ending: bool) -> (r: Option<(ScrobbleAction, u64)>)
    ensures
        match r {
            Some((a, p)) => report_for(position, duration, paused, ending) == Some(a)
                && p == (if position <= duration { position } else { duration }),
            None => report_for(position, duration, paused, ending) is None,
        },
{
    if duration == 0 {
        return None;
    }
    let held = if position <= duration { position } else { duration };
    let p = float_value(position);
    let d = float_value(duration);
    let action = if p * 18_014_398_509_481_984 >= 17_113_678_584_007_883 * d {
        ScrobbleAction::Stop
    } else if paused || ending {
        ScrobbleAction::Pause
    } else {
        ScrobbleAction::Start
    };
    Some((action, held))
}

/// A status label is styled as a success when it reports something synced or watching.
pub open spec fn success_style(text: Seq<char>, error: bool) -> bool {
    !error && (has_substring(text, "synced"@) || (text.len() >= 8 && text.subrange(text.len() - 8, text.len() as int) == "Watching"@))
}

fn shown(text: &str, tooltip: &str, error: bool) -> (l: Label)
    ensures
        l matches Label::Shown { text: t, tooltip: tip, error: e, success: s } && t@ == text@ && tip@ == tooltip@
            && e == error && s == success_style(text@, error),
{
    let t = chars_of(text);
    let mut success = false;
    if !error {
        if contains_text(t.as_slice(), "synced") {
            success = true;
        } else if t.len() >= 8 {
            let mut tail: Vec<char> = Vec::new();
            let mut i: usize = t.len() - 8;
            while i < t.len()
                invariant
                    t@ == text@,
                    t@.len() >= 8,
                    t@.len() - 8 <= i <= t@.len(),
                    tail@ == t@.subrange(t@.len() - 8, i as int),
                decreases t@.len() - i,
            {
                tail.push(t[i]);
                i = i + 1;
            }
            success = crate::text::same_chars(tail.as_slice(), "Watching");
        }
    }
    Label::Shown {
        text: string_of(t.as_slice()),
        tooltip: string_of(chars_of(tooltip).as_slice()),
        error,
        success,
    }
}

/// The label a status produces.
pub open spec fn label_is(l: Label, text: Seq<char>, tooltip: Seq<char>, error: bool) -> bool {
    l matches Label::Shown { text: t, tooltip: tip, error: e, success: s } && t@ == text && tip@ == tooltip
        && e == error && s == success_style(text, error)
}

/// A report may be sent now: the connection is known and open, playback goes on, no answer
/// is awaited, the video is not yet watched, and the same action was not already reported
/// (unless that failed, and then only 30 seconds after the failed attempt).
pub open spec fn should_report(s: Scrobbler, loaded: bool, at_start: bool, proposed: Option<ScrobbleAction>, now: u64) -> bool {
    &&& loaded
    &&& s.ready
    &&& s.connected
    &&& !s.ended
    &&& !s.pending
    &&& !s.watched
    &&& !(at_start && s.last is None)
    &&& proposed is Some
    &&& !(s.last == proposed && !s.failed)
    &&& !(s.failed && now - s.attempted_ms < 30_000)
}

impl Scrobbler {
    /// A session whose Trakt connection is still being checked.
    pub fn new(has_media: bool, now: u64) -> (s: Scrobbler)
        ensures
            s == (Scrobbler { has_media, ready: false, connected: false, pending: false, watched: false,
                ended: false, failed: false, sequence: 0, last: None, attempted_ms: now }),
    {
        Scrobbler { has_media, ready: false, connected: false, pending: false, watched: false, ended: false,
            failed: false, sequence: 0, last: None, attempted_ms: now }
    }

    /// The connection check finished.
    pub fn connection(&mut self, result: Connection) -> (l: Label)
        ensures
            final(self).ready,
            final(self).connected == (old(self).connected || result == Connection::Connected),
            *final(self) == (Scrobbler { ready: true, connected: final(self).connected, ..*old(self) }),
            match result {
                Connection::Connected => if old(self).has_media {
                    label_is(l, "Trakt · Ready"@,
                        "Playback can only sync when the movie or episode has a supported ID."@, false)
                } else {
                    label_is(l, "Trakt · Unmatched"@,
                        "Playback can only sync when the movie or episode has a supported ID."@, false)
                },
                Connection::NotConnected => l is Hidden,
                Connection::Unavailable => label_is(l, "Trakt · Unavailable"@,
                    "Could not check this profile’s Trakt connection."@, true),
            },
    {
        self.ready = true;
        match result {
            Connection::Connected => {
                self.connected = true;
                shown(
                    if self.has_media { "Trakt · Ready" } else { "Trakt · Unmatched" },
                    "Playback can only sync when the movie or episode has a supported ID.",
                    false,
                )
            },
            Connection::NotConnected => Label::Hidden,
            Connection::Unavailable => shown(
                "Trakt · Unavailable",
                "Could not check this profile’s Trakt connection.",
                true,
            ),
        }
    }

    /// Whether the progress just observed should be reported, and with which action.
    /// `at_start` is a known position of zero; `proposed` is the action the position and
    /// duration call for, when both are known.
    pub fn observe(&self, loaded: bool, at_start: bool, proposed: Option<ScrobbleAction>, now: u64)
        -> (r: Option<ScrobbleAction>)
        ensures
            r == if should_report(*self, loaded, at_start, proposed, now) { proposed } else { None },
    {
        if !loaded || !self.ready || !self.connected || self.ended || self.pending || self.watched {
            return None;
        }
        if at_start && self.last.is_none() {
            return None;
        }
        let action = match proposed {
            Some(a) => a,
            None => return None,
        };
        let repeated = match self.last {
            Some(previous) => previous == action,
            None => false,
        };
        if repeated && !self.failed {
            return None;
        }
        if self.failed && now.saturating_sub(self.attempted_ms) < 30_000 {
            return None;
        }
        Some(action)
    }

    /// Playback ends. Returns the final report to send, if any: nothing once watched, for
    /// media that never loaded, without a connection, or when an identical stop is in flight.
    pub fn finish(&mut self, loaded: bool, proposed: Option<ScrobbleAction>) -> (r: Option<ScrobbleAction>)
        ensures
            *final(self) == (Scrobbler { ended: true, ..*old(self) }),
            r == if old(self).ended || old(self).watched || !loaded || !old(self).connected {
                None
            } else {
                match proposed {
                    Some(a) => if a == ScrobbleAction::Stop && old(self).last == Some(ScrobbleAction::Stop)
                        && old(self).pending {
                        None
                    } else {
                        Some(a)
                    },
                    None => None,
                }
            },
    {
        let was_ended = self.ended;
        self.ended = true;
        if was_ended || self.watched || !loaded {
            return None;
        }
        if !self.connected {
            return None;
        }
        match proposed {
            Some(a) => {
                let stop_pending = match self.last {
                    Some(ScrobbleAction::Stop) => self.pending,
                    _ => false,
                };
                if a == ScrobbleAction::Stop && stop_pending {
                    None
                } else {
                    Some(a)
                }
            },
            None => None,
        }
    }

    /// A report could be sent only with a matched video and a playback grant.
    pub fn can_send(&self, has_grant: bool) -> (b: bool)
        ensures
            b == (self.has_media && has_grant),
    {
        self.has_media && has_grant
    }

    /// The reporting queue was full: the report is counted as failed and retried later.
    pub fn queue_full(&mut self, now: u64) -> (l: Label)
        ensures
            *final(self) == (Scrobbler { failed: true, attempted_ms: now, ..*old(self) }),
            label_is(l, "Trakt · Not synced"@,
                "The Trakt queue is busy. Playback continues; reporting will retry."@, true),
    {
        self.failed = true;
        self.attempted_ms = now;
        shown("Trakt · Not synced", "The Trakt queue is busy. Playback continues; reporting will retry.", true)
    }

    /// A report was queued; its answer will carry the returned sequence number.
    pub fn queued(&mut self, action: ScrobbleAction, now: u64) -> (r: (u64, Label))
        ensures
            r.0 == (if old(self).sequence == u64::MAX { 0 } else { (old(self).sequence + 1) as u64 }),
            *final(self) == (Scrobbler { last: Some(action), pending: true, attempted_ms: now, sequence: r.0,
                ..*old(self) }),
            label_is(r.1, "Trakt · Syncing…"@, "Sending this playback update to Trakt."@, false),
    {
        self.last = Some(action);
        self.pending = true;
        self.attempted_ms = now;
        let next = if self.sequence == u64::MAX { 0 } else { self.sequence + 1 };
        self.sequence = next;
        (next, shown("Trakt · Syncing…", "Sending this playback update to Trakt.", false))
    }
}

/// What an answer changes on screen.
#[derive(Debug)]
pub struct Answer {
    pub label: Label,
    /// Tell the user that the last update of an ended playback was lost.
    pub toast: bool,
}

impl Scrobbler {
    /// The answer to report number `sequence` arrived. Answers to superseded reports are
    /// ignored; otherwise the report is no longer pending and the answer is shown.
    pub fn answered(&mut self, sequence: u64, reply: Reply) -> (r: Option<Answer>)
        ensures
            sequence != old(self).sequence ==> r is None && *final(self) == *old(self),
            sequence == old(self).sequence ==> r is Some && final(self).pending == false
                && final(self).sequence == old(self).sequence && final(self).last == old(self).last
                && final(self).ended == old(self).ended && final(self).ready == old(self).ready
                && final(self).has_media == old(self).has_media
                && final(self).attempted_ms == old(self).attempted_ms
                && match reply {
                    Reply::Confirmed(o) => !final(self).failed && final(self).connected == old(self).connected
                        && final(self).watched == (old(self).watched || o == Outcome::Watched)
                        && !r->0.toast
                        && match o {
                            Outcome::Watching => label_is(r->0.label, "Trakt · Watching"@,
                                "Trakt confirmed that you’re watching this video."@, false),
                            Outcome::Paused => label_is(r->0.label, "Trakt · Paused synced"@,
                                "Trakt saved your playback progress."@, false),
                            Outcome::Watched => label_is(r->0.label, "Trakt · Watched synced"@,
                                "Trakt confirmed this video in your watched history."@, false),
                        },
                    Reply::Disconnected => !final(self).connected && final(self).failed == old(self).failed
                        && final(self).watched == old(self).watched && r->0.label is Hidden && !r->0.toast,
                    Reply::Failed(message) => final(self).failed && final(self).connected == old(self).connected
                        && final(self).watched == old(self).watched
                        && label_is(r->0.label, "Trakt · Not synced"@, message@, true)
                        && r->0.toast == old(self).ended,
                    Reply::Dropped => final(self).failed && final(self).connected == old(self).connected
                        && final(self).watched == old(self).watched
                        && label_is(r->0.label, "Trakt · Not synced"@,
                            "Trakt reporting stopped before confirming the update."@, true)
                        && !r->0.toast,
                },
    {
        if sequence != self.sequence {
            return None;
        }
        self.pending = false;
        match reply {
            Reply::Confirmed(outcome) => {
                self.failed = false;
                let label = match outcome {
                    Outcome::Watching => shown("Trakt · Watching", "Trakt confirmed that you’re watching this video.", false),
                    Outcome::Paused => shown("Trakt · Paused synced", "Trakt saved your playback progress.", false),
                    Outcome::Watched => {
                        self.watched = true;
                        shown("Trakt · Watched synced", "Trakt confirmed this video in your watched history.", false)
                    },
                };
                Some(Answer { label, toast: false })
            },
            Reply::Disconnected => {
                self.connected = false;
                Some(Answer { label: Label::Hidden, toast: false })
            },
            Reply::Failed(message) => {
                self.failed = true;
                let label = shown("Trakt · Not synced", message.as_str(), true);
                Some(Answer { label, toast: self.ended })
            },
            Reply::Dropped => {
                self.failed = true;
                Some(Answer {
                    label: shown("Trakt · Not synced", "Trakt reporting stopped before confirming the update.", true),
                    toast: false,
                })
            },
        }
    }
}

/// Once Trakt confirmed the video as watched, or playback ended, no progress report is sent.
pub proof fn lemma_nothing_after_watched_or_ended(
    s: Scrobbler,
    loaded: bool,
    at_start: bool,
    proposed: Option<ScrobbleAction>,
    now: u64,
)
    requires
        s.watched || s.ended,
    ensures
        !should_report(s, loaded, at_start, proposed, now),
{
}

/// The same action is reported again only after the last report failed, and then not within
/// thirty seconds of it; nothing is reported while an answer is awaited.
pub proof fn lemma_no_repeated_reports(
    s: Scrobbler,
    loaded: bool,
    at_start: bool,
    proposed: Option<ScrobbleAction>,
    now: u64,
)
    requires
        should_report(s, loaded, at_start, proposed, now),
    ensures
        !s.pending,
        s.last == proposed ==> s.failed && now - s.attempted_ms >= 30_000,
        proposed is Some,
{
}

/// The report a position calls for is a stop from 95 % of a known duration on, whatever the
/// pause state, and below it never is: exactly so for durations under 10^14 ms (some three
/// thousand years), where rounding to floating point moves nothing across the line.
pub proof fn lemma_stop_from_95_percent(position: u64, duration: u64, paused: bool, ending: bool)
    requires
        0 < duration < 100_000_000_000_000,
    ensures
        (report_for(position, duration, paused, ending) == Some(ScrobbleAction::Stop))
            <==> position * 100 >= duration * 95,
        report_for(position, duration, paused, ending) is Some,
{
    lemma_small_floats_exact(duration as nat);
    let p = position as int;
    let d = duration as int;
    if position >= duration {
        assert(position * 100 >= duration * 95);
        if position < 9_007_199_254_740_992 {
            lemma_small_floats_exact(position as nat);
        } else {
            crate::transfers::lemma_float_close(position as nat);
        }
        assert(as_float(position as nat) >= d);
        assert(as_float(position as nat) * 18_014_398_509_481_984 >= 17_113_678_584_007_883 * d) by (nonlinear_arith)
            requires as_float(position as nat) >= d, d > 0;
    } else {
        lemma_small_floats_exact(position as nat);
        assert(p * 100 >= d * 95 <==> p * 18_014_398_509_481_984 >= 17_113_678_584_007_883 * d) by (nonlinear_arith)
            requires 0 <= p, 0 < d < 100_000_000_000_000;
    }
}

} // verus!
