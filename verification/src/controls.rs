//! Decisions of the player chrome: time display, keyboard shortcuts, video fit modes and
//! the playback flags reported by the player.
use vstd::prelude::*;
use crate::text::{chars_of, decimal, decimal_chars, extend_chars, same_chars, signed_decimal, signed_decimal_chars, string_of};
use crate::tracks::Track;
use crate::up_next::Chapter;

verus! {

/// `n` written with at least two digits, as `{:02}` formats it.
pub open spec fn two_digits(n: nat) -> Seq<char> {
    if n < 10 {
        seq!['0'] + decimal(n)
    } else {
        decimal(n)
    }
}

/// A position in whole seconds as `h:mm:ss` from an hour on, `m:ss` below.
pub open spec fn timestamp_of(seconds: nat) -> Seq<char> {
    if seconds >= 3600 {
        decimal(seconds / 3600) + ":"@ + two_digits((seconds / 60) % 60) + ":"@ + two_digits(seconds % 60)
    } else {
        decimal(seconds / 60) + ":"@ + two_digits(seconds % 60)
    }
}

fn two_digit_chars(n: u64) -> (r: Vec<char>)
    ensures
        r@ == two_digits(n as nat),
{
    if n < 10 {
        let mut r: Vec<char> = Vec::new();
        r.push('0');
        let d = decimal_chars(n);
        extend_chars(&mut r, d.as_slice());
        assert(r@ =~= seq!['0'] + decimal(n as nat));
        r
    } else {
        decimal_chars(n)
    }
}

/// Format whole seconds for the player's time label.
pub fn timestamp_text(seconds: u64) -> (r: String)
    ensures
        r@ == timestamp_of(seconds as nat),
{
    let mut out: Vec<char>;
    if seconds >= 3600 {
        out = decimal_chars(seconds / 3600);
        extend_chars(&mut out, chars_of(":").as_slice());
        extend_chars(&mut out, two_digit_chars(seconds / 60 % 60).as_slice());
    } else {
        out = decimal_chars(seconds / 60);
    }
    extend_chars(&mut out, chars_of(":").as_slice());
    extend_chars(&mut out, two_digit_chars(seconds % 60).as_slice());
    string_of(out.as_slice())
}

/// A player action bound to a key. Steps are whole units: seconds for seeking, volume
/// percent, and quarters of normal speed.
#[derive(Clone, Copy, Debug, PartialEq, Eq)]
pub enum Shortcut {
    Pause,
    Mute,
    Fullscreen,
    Escape,
    Mini,
    Pip,
    Seek(i32),
    Volume(i32),
    SpeedQuarters(i32),
    Subtitles,
    Audio,
    Fit,
    Help,
    FrameStep,
    FrameBackStep,
}

/// The action for a key name as GTK reports it, with Shift choosing one-minute seeks.
pub open spec fn shortcut_for(key: Seq<char>, shift: bool) -> Option<Shortcut> {
    if key == "space"@ || key == "k"@ || key == "K"@ {
        Some(Shortcut::Pause)
    } else if key == "m"@ || key == "M"@ {
        Some(Shortcut::Mute)
    } else if key == "f"@ || key == "F"@ {
        Some(Shortcut::Fullscreen)
    } else if key == "Escape"@ {
        Some(Shortcut::Escape)
    } else if key == "i"@ || key == "I"@ {
        Some(Shortcut::Mini)
    } else if key == "p"@ || key == "P"@ {
        Some(Shortcut::Pip)
    } else if key == "Left"@ || key == "j"@ || key == "J"@ {
        Some(Shortcut::Seek(if shift { -60i32 } else { -10i32 }))
    } else if key == "Right"@ || key == "l"@ || key == "L"@ {
        Some(Shortcut::Seek(if shift { 60i32 } else { 10i32 }))
    } else if key == "Up"@ {
        Some(Shortcut::Volume(5i32))
    } else if key == "Down"@ {
        Some(Shortcut::Volume(-5i32))
    } else if key == "bracketleft"@ {
        Some(Shortcut::SpeedQuarters(-1i32))
    } else if key == "bracketright"@ {
        Some(Shortcut::SpeedQuarters(1i32))
    } else if key == "c"@ || key == "C"@ {
        Some(Shortcut::Subtitles)
    } else if key == "a"@ || key == "A"@ {
        Some(Shortcut::Audio)
    } else if key == "b"@ || key == "B"@ {
        Some(Shortcut::Fit)
    } else if key == "question"@ {
        Some(Shortcut::Help)
    } else if key == "period"@ {
        Some(Shortcut::FrameStep)
    } else if key == "comma"@ {
        Some(Shortcut::FrameBackStep)
    } else {
        None
    }
}

/// The player action bound to a key, if any.
pub fn shortcut(key: &str, shift: bool) -> (r: Option<Shortcut>)
    ensures
        r == shortcut_for(key@, shift),
{
    let k = chars_of(key);
    let k = k.as_slice();
    if same_chars(k, "space") || same_chars(k, "k") || same_chars(k, "K") {
        Some(Shortcut::Pause)
    } else if same_chars(k, "m") || same_chars(k, "M") {
        Some(Shortcut::Mute)
    } else if same_chars(k, "f") || same_chars(k, "F") {
        Some(Shortcut::Fullscreen)
    } else if same_chars(k, "Escape") {
        Some(Shortcut::Escape)
    } else if same_chars(k, "i") || same_chars(k, "I") {
        Some(Shortcut::Mini)
    } else if same_chars(k, "p") || same_chars(k, "P") {
        Some(Shortcut::Pip)
    } else if same_chars(k, "Left") || same_chars(k, "j") || same_chars(k, "J") {
        Some(Shortcut::Seek(if shift { -60 } else { -10 }))
    } else if same_chars(k, "Right") || same_chars(k, "l") || same_chars(k, "L") {
        Some(Shortcut::Seek(if shift { 60 } else { 10 }))
    } else if same_chars(k, "Up") {
        Some(Shortcut::Volume(5))
    } else if same_chars(k, "Down") {
        Some(Shortcut::Volume(-5))
    } else if same_chars(k, "bracketleft") {
        Some(Shortcut::SpeedQuarters(-1))
    } else if same_chars(k, "bracketright") {
        Some(Shortcut::SpeedQuarters(1))
    } else if same_chars(k, "c") || same_chars(k, "C") {
        Some(Shortcut::Subtitles)
    } else if same_chars(k, "a") || same_chars(k, "A") {
        Some(Shortcut::Audio)
    } else if same_chars(k, "b") || same_chars(k, "B") {
        Some(Shortcut::Fit)
    } else if same_chars(k, "question") {
        Some(Shortcut::Help)
    } else if same_chars(k, "period") {
        Some(Shortcut::FrameStep)
    } else if same_chars(k, "comma") {
        Some(Shortcut::FrameBackStep)
    } else {
        None
    }
}

/// The player's video size modes, in the order the Fit key cycles through them.
pub open spec fn fit_mode(i: int) -> Seq<char> {
    if i == 0 {
        "fit"@
    } else if i == 1 {
        "fill"@
    } else if i == 2 {
        "stretch"@
    } else {
        "original"@
    }
}

/// The description shown for each video size mode.
pub open spec fn fit_title(i: int) -> Seq<char> {
    if i == 0 {
        "Fit to window"@
    } else if i == 1 {
        "Fill / crop"@
    } else if i == 2 {
        "Stretch"@
    } else {
        "Original size"@
    }
}

/// The shortcut a key press triggers: none unless the player has the keyboard focus and no
/// menu of it is open, none while Ctrl, Alt or Super is held; otherwise the key's shortcut.
pub open spec fn key_shortcut_of(key: Seq<char>, shift: bool, modified: bool, focused: bool, menu_open: bool) -> Option<Shortcut> {
    if !focused || menu_open || modified {
        None
    } else {
        shortcut_for(key, shift)
    }
}

/// The shortcut for a key press, given whether Shift is held, whether Ctrl, Alt or Super is,
/// whether the player has the focus and whether one of its menus is open.
pub fn key_shortcut(key: &str, shift: bool, modified: bool, focused: bool, menu_open: bool) -> (r: Option<Shortcut>)
    ensures
        r == key_shortcut_of(key@, shift, modified, focused, menu_open),
{
    if !focused || menu_open || modified {
        None
    } else {
        shortcut(key, shift)
    }
}

/// What a shortcut sends to the player, as a command and the message shown with it, for the
/// shortcuts that only run a player command: play or pause, mute, cycling audio or
/// subtitles, stepping a frame, and seeking, which says by how many seconds, or that the
/// stream cannot seek. The other shortcuts act on the window, the volume or the speed.
pub open spec fn shortcut_command_of(s: Shortcut, seekable: bool) -> Option<(Seq<Seq<char>>, Option<Seq<char>>)> {
    match s {
        Shortcut::Pause => Some((seq!["cycle"@, "pause"@], None)),
        Shortcut::Mute => Some((seq!["cycle"@, "mute"@], None)),
        Shortcut::Audio => Some((seq!["cycle"@, "aid"@], None)),
        Shortcut::Subtitles => Some((seq!["cycle"@, "sid"@], None)),
        Shortcut::FrameStep => Some((seq!["frame-step"@], None)),
        Shortcut::FrameBackStep => Some((seq!["frame-back-step"@], None)),
        Shortcut::Seek(d) => if seekable {
            Some((seq!["seek"@, signed_decimal(d as int), "relative"@],
                Some((if d < 0 { "-"@ } else { "+"@ }) + decimal((if d < 0 { -(d as int) } else { d as int }) as nat) + " seconds"@)))
        } else {
            Some((Seq::empty(), Some("Seeking is unavailable for this stream"@)))
        },
        _ => None,
    }
}

fn words(first: &str, second: Option<&str>) -> (r: Vec<String>)
    ensures
        r@.map_values(|w: String| w@) == match second {
            Some(b) => seq![first@, b@],
            None => seq![first@],
        },
{
    let mut r: Vec<String> = Vec::new();
    r.push(string_of(chars_of(first).as_slice()));
    match second {
        Some(b) => {
            r.push(string_of(chars_of(b).as_slice()));
            assert(r@.map_values(|w: String| w@) =~= seq![first@, b@]);
        },
        None => {
            assert(r@.map_values(|w: String| w@) =~= seq![first@]);
        },
    }
    r
}

/// The player command a shortcut runs and the message shown with it, as `shortcut_command_of`
/// says.
pub fn shortcut_command(s: Shortcut, seekable: bool) -> (r: Option<(Vec<String>, Option<String>)>)
    ensures
        match r {
            Some((args, message)) => shortcut_command_of(s, seekable) == Some((args@.map_values(|w: String| w@),
                match message { Some(m) => Some(m@), None => None::<Seq<char>> })),
            None => shortcut_command_of(s, seekable) is None,
        },
{
    match s {
        Shortcut::Pause => Some((words("cycle", Some("pause")), None)),
        Shortcut::Mute => Some((words("cycle", Some("mute")), None)),
        Shortcut::Audio => Some((words("cycle", Some("aid")), None)),
        Shortcut::Subtitles => Some((words("cycle", Some("sid")), None)),
        Shortcut::FrameStep => Some((words("frame-step", None), None)),
        Shortcut::FrameBackStep => Some((words("frame-back-step", None), None)),
        Shortcut::Seek(d) => {
            if seekable {
                let mut args = words("seek", None);
                assert(args@.map_values(|w: String| w@) == seq!["seek"@]);
                assert(args@.map_values(|w: String| w@).len() == 1);
                assert(args@.len() == 1);
                assert(args@.map_values(|w: String| w@)[0] == "seek"@);
                assert(args@[0]@ == "seek"@);
                args.push(string_of(signed_decimal_chars(d as i64).as_slice()));
                args.push(string_of(chars_of("relative").as_slice()));
                assert(args@.map_values(|w: String| w@) =~= seq!["seek"@, signed_decimal(d as int), "relative"@]);
                let magnitude: u64 = if d < 0 { (0 - (d as i64)) as u64 } else { d as u64 };
                let mut message = chars_of(if d < 0 { "-" } else { "+" });
                extend_chars(&mut message, decimal_chars(magnitude).as_slice());
                extend_chars(&mut message, chars_of(" seconds").as_slice());
                Some((args, Some(string_of(message.as_slice()))))
            } else {
                let none: Vec<String> = Vec::new();
                assert(none@.map_values(|w: String| w@) =~= Seq::<Seq<char>>::empty());
                Some((none, Some(string_of(chars_of("Seeking is unavailable for this stream").as_slice()))))
            }
        },
        _ => None,
    }
}

/// The mode after mode `current` when the Fit key is pressed: the next one, wrapping around.
pub fn next_fit(current: usize) -> (r: (usize, &'static str))
    requires
        current < 4,
    ensures
        r.0 == (current + 1) % 4,
        r.1@ == fit_mode(r.0 as int),
{
    let next = (current + 1) % 4;
    let name = if next == 0 {
        "fit"
    } else if next == 1 {
        "fill"
    } else if next == 2 {
        "stretch"
    } else {
        "original"
    };
    (next, name)
}

/// The position of a video size mode among the four, with its description.
pub fn fit_index(value: &str) -> (r: Option<(usize, &'static str)>)
    ensures
        match r {
            Some((i, title)) => i < 4 && fit_mode(i as int) == value@ && title@ == fit_title(i as int),
            None => forall|i: int| 0 <= i < 4 ==> fit_mode(i) != value@,
        },
{
    let v = chars_of(value);
    if same_chars(v.as_slice(), "fit") {
        Some((0, "Fit to window"))
    } else if same_chars(v.as_slice(), "fill") {
        Some((1, "Fill / crop"))
    } else if same_chars(v.as_slice(), "stretch") {
        Some((2, "Stretch"))
    } else if same_chars(v.as_slice(), "original") {
        Some((3, "Original size"))
    } else {
        None
    }
}

/// The on/off state the player reports for the current video, as the chrome tracks it.
#[derive(Clone, Copy, Debug, PartialEq, Eq)]
pub struct PlaybackFlags {
    pub opening: bool,
    pub paused: bool,
    pub buffering: bool,
    pub seeking: bool,
    pub seekable: bool,
    pub muted: bool,
}

impl PlaybackFlags {
    /// The flags after the player reports property `name` as `value`: `pause`,
    /// `paused-for-cache`, `seeking`, `seekable` and `mute` are tracked, others ignored.
    pub open spec fn with_flag(self, name: Seq<char>, value: bool) -> PlaybackFlags {
        if name == "pause"@ {
            PlaybackFlags { paused: value, ..self }
        } else if name == "paused-for-cache"@ {
            PlaybackFlags { buffering: value, ..self }
        } else if name == "seeking"@ {
            PlaybackFlags { seeking: value, ..self }
        } else if name == "seekable"@ {
            PlaybackFlags { seekable: value, ..self }
        } else if name == "mute"@ {
            PlaybackFlags { muted: value, ..self }
        } else {
            self
        }
    }

    /// A video that is still opening.
    pub fn opening() -> (f: PlaybackFlags)
        ensures
            f.opening && !f.paused && !f.buffering && !f.seeking && !f.seekable && !f.muted,
    {
        PlaybackFlags { opening: true, paused: false, buffering: false, seeking: false, seekable: false, muted: false }
    }

    /// Record a flag reported by the player under its property name; other names are ignored.
    pub fn flag(&mut self, name: &str, value: bool)
        ensures
            *final(self) == old(self).with_flag(name@, value),
    {
        let n = chars_of(name);
        if same_chars(n.as_slice(), "pause") {
            self.paused = value;
        } else if same_chars(n.as_slice(), "paused-for-cache") {
            self.buffering = value;
        } else if same_chars(n.as_slice(), "seeking") {
            self.seeking = value;
        } else if same_chars(n.as_slice(), "seekable") {
            self.seekable = value;
        } else if same_chars(n.as_slice(), "mute") {
            self.muted = value;
        }
    }

    /// The video has loaded: it is no longer opening, nor waiting for data.
    pub fn loaded(&mut self)
        ensures
            *final(self) == (PlaybackFlags { opening: false, buffering: false, ..*old(self) }),
    {
        self.opening = false;
        self.buffering = false;
    }

    /// The loading indicator is shown while opening, buffering or seeking.
    pub fn loading_shown(&self) -> (b: bool)
        ensures
            b == (self.opening || self.buffering || self.seeking),
    {
        self.opening || self.buffering || self.seeking
    }

    /// Progress reports treat playback as paused while paused or buffering.
    pub fn reporting_paused(&self) -> (b: bool)
        ensures
            b == (self.paused || self.buffering),
    {
        self.paused || self.buffering
    }

    /// The status line of the statistics page.
    pub fn status(&self) -> (s: &'static str)
        ensures
            s@ == if self.buffering { "Buffering"@ } else if self.paused { "Paused"@ } else { "Playing"@ },
    {
        if self.buffering {
            "Buffering"
        } else if self.paused {
            "Paused"
        } else {
            "Playing"
        }
    }
}

/// How the statistics page describes the delivery of the current video.
pub fn stats_delivery(torrent: bool, internal: bool) -> (s: &'static str)
    ensures
        s@ == if !torrent {
            "Direct playback · torrent stats not applicable"@
        } else if internal {
            "Built-in torrent · waiting for statistics…"@
        } else {
            "External server · torrent stats unavailable"@
        },
{
    if !torrent {
        "Direct playback · torrent stats not applicable"
    } else if internal {
        "Built-in torrent · waiting for statistics…"
    } else {
        "External server · torrent stats unavailable"
    }
}

/// Pressing the Fit key four times returns to the mode it started from, passing every other
/// mode once; each mode is found again by its name.
pub proof fn lemma_fit_key_cycles(current: int)
    requires
        0 <= current < 4,
    ensures
        (((current + 1) % 4 + 1) % 4 + 1) % 4 != current,
        ((((current + 1) % 4 + 1) % 4 + 1) % 4 + 1) % 4 == current,
        forall|i: int, j: int| 0 <= i < 4 && 0 <= j < 4 && i != j ==> fit_mode(i) != fit_mode(j),
{
    reveal_strlit("fit");
    reveal_strlit("fill");
    reveal_strlit("stretch");
    reveal_strlit("original");
    assert forall|i: int, j: int| 0 <= i < 4 && 0 <= j < 4 && i != j implies fit_mode(i) != fit_mode(j) by {
        if fit_mode(i) == fit_mode(j) {
            assert(fit_mode(i).len() == fit_mode(j).len());
        }
    }
}

/// One entry of a track menu: its label, and the property and value choosing it sets.
#[derive(Debug)]
pub struct MenuItem {
    pub label: String,
    pub property: String,
    pub value: String,
}

/// A track menu: the summary shown on its button, and its entries in order.
#[derive(Debug)]
pub struct TrackMenu {
    pub summary: String,
    pub items: Vec<MenuItem>,
    /// The kind has no tracks; the menu says so.
    pub empty: bool,
}

/// The title of the first selected track of `kind`, or "Off".
pub open spec fn track_summary(tracks: Seq<Track>, kind: Seq<char>) -> Seq<char>
    decreases tracks.len(),
{
    if tracks.len() == 0 {
        "Off"@
    } else if tracks[0].kind@ == kind && tracks[0].selected {
        tracks[0].title@
    } else {
        track_summary(tracks.drop_first(), kind)
    }
}

/// The menu entries for the tracks of `kind`, in order: the title, marked with a check when
/// selected, setting `property` to the track's id.
pub open spec fn track_items(tracks: Seq<Track>, kind: Seq<char>, property: Seq<char>) -> Seq<(Seq<char>, Seq<char>, Seq<char>)>
    decreases tracks.len(),
{
    if tracks.len() == 0 {
        Seq::empty()
    } else {
        let rest = track_items(tracks.drop_first(), kind, property);
        let t = tracks[0];
        if t.kind@ == kind {
            seq![((if t.selected { "✓ "@ } else { Seq::<char>::empty() }) + t.title@, property, signed_decimal(t.id as int))] + rest
        } else {
            rest
        }
    }
}

/// Some track of `kind` is selected.
pub open spec fn any_selected(tracks: Seq<Track>, kind: Seq<char>) -> bool {
    exists|i: int| 0 <= i < tracks.len() && (#[trigger] tracks[i]).kind@ == kind && tracks[i].selected
}

/// The entries of a menu as character sequences.
pub open spec fn items_view(items: Seq<MenuItem>) -> Seq<(Seq<char>, Seq<char>, Seq<char>)> {
    items.map_values(|m: MenuItem| (m.label@, m.property@, m.value@))
}

/// The audio (`kind` "audio", property `aid`) or subtitle (`kind` "sub", property `sid`)
/// menu: subtitles start with an "Off" entry, checked when no subtitle is selected.
pub fn track_menu(tracks: &[Track], subtitles: bool) -> (r: TrackMenu)
    ensures
        ({
            let kind = if subtitles { "sub"@ } else { "audio"@ };
            let property = if subtitles { "sid"@ } else { "aid"@ };
            let off = if any_selected(tracks@, kind) { "Off"@ } else { "✓ Off"@ };
            &&& r.summary@ == track_summary(tracks@, kind)
            &&& items_view(r.items@) == if subtitles {
                seq![(off, property, "no"@)] + track_items(tracks@, kind, property)
            } else {
                track_items(tracks@, kind, property)
            }
            &&& r.empty == (track_items(tracks@, kind, property).len() == 0)
        }),
{
    let kind = if subtitles { "sub" } else { "audio" };
    let property = if subtitles { "sid" } else { "aid" };
    let ghost k = kind@;
    let ghost p = property@;
    let mut summary: Option<String> = None;
    let mut active = false;
    let mut items: Vec<MenuItem> = Vec::new();
    let mut listed: Vec<MenuItem> = Vec::new();
    let mut i: usize = 0;
    assert(tracks@.skip(0) =~= tracks@);
    while i < tracks.len()
        invariant
            k == kind@,
            p == property@,
            i <= tracks@.len(),
            match summary {
                Some(t) => track_summary(tracks@, k) == t@,
                None => track_summary(tracks@, k) == track_summary(tracks@.skip(i as int), k),
            },
            active == exists|j: int| 0 <= j < i && (#[trigger] tracks@[j]).kind@ == k && tracks@[j].selected,
            track_items(tracks@, k, p) == items_view(listed@) + track_items(tracks@.skip(i as int), k, p),
        decreases tracks@.len() - i,
    {
        let t = &tracks[i];
        assert(tracks@.skip(i as int)[0] == tracks@[i as int]);
        assert(tracks@.skip(i as int).drop_first() =~= tracks@.skip(i + 1));
        let same = same_chars(chars_of(t.kind.as_str()).as_slice(), kind);
        if same {
            if t.selected {
                active = true;
                if summary.is_none() {
                    summary = Some(string_of(chars_of(t.title.as_str()).as_slice()));
                }
            }
            let mut label = if t.selected { chars_of("✓ ") } else { Vec::new() };
            extend_chars(&mut label, chars_of(t.title.as_str()).as_slice());
            let item = MenuItem {
                label: string_of(label.as_slice()),
                property: string_of(chars_of(property).as_slice()),
                value: string_of(signed_decimal_chars(t.id).as_slice()),
            };
            let ghost before = items_view(listed@);
            let ghost iv = (item.label@, item.property@, item.value@);
            listed.push(item);
            assert(items_view(listed@) =~= before.push(iv));
            assert(before.push(iv) + track_items(tracks@.skip(i + 1), k, p)
                =~= before + (seq![iv] + track_items(tracks@.skip(i + 1), k, p)));
        }
        i = i + 1;
    }
    assert(tracks@.skip(i as int) =~= Seq::<Track>::empty());
    assert(items_view(listed@) + Seq::<(Seq<char>, Seq<char>, Seq<char>)>::empty() =~= items_view(listed@));
    assert(active == any_selected(tracks@, k));
    let empty = listed.len() == 0;
    if subtitles {
        let item = MenuItem {
            label: string_of(chars_of(if !active { "✓ Off" } else { "Off" }).as_slice()),
            property: string_of(chars_of(property).as_slice()),
            value: string_of(chars_of("no").as_slice()),
        };
        let ghost iv = (item.label@, item.property@, item.value@);
        items.push(item);
        let ghost head = items_view(items@);
        assert(head =~= seq![iv]);
        let mut j: usize = 0;
        let ghost all = listed@;
        let n = listed.len();
        let mut rest = listed;
        while rest.len() > 0
            invariant
                j + rest@.len() == n,
                n == all.len(),
                rest@ == all.subrange(j as int, n as int),
                items_view(items@) == head + items_view(all.subrange(0, j as int)),
            decreases rest@.len(),
        {
            let m = rest.remove(0);
            let ghost before = items_view(items@);
            let ghost mv = (m.label@, m.property@, m.value@);
            items.push(m);
            assert(items_view(items@) =~= before.push(mv));
            assert(items_view(all.subrange(0, j + 1)) =~= items_view(all.subrange(0, j as int)).push(mv));
            j = j + 1;
            assert(rest@ =~= all.subrange(j as int, n as int));
        }
        assert(all.subrange(0, n as int) =~= all);
    } else {
        items = listed;
    }
    let summary = match summary {
        Some(t) => t,
        None => {
            assert(track_summary(tracks@.skip(i as int), k) == "Off"@);
            string_of(chars_of("Off").as_slice())
        },
    };
    TrackMenu { summary, items, empty }
}

/// The chapter menu: each chapter's title, choosing its index.
pub fn chapter_menu(chapters: &[Chapter]) -> (r: Vec<MenuItem>)
    ensures
        items_view(r@) == chapters@.map_values(|c: Chapter| (c.title@, "chapter"@, signed_decimal(c.index as int))),
{
    let mut r: Vec<MenuItem> = Vec::new();
    let mut i: usize = 0;
    while i < chapters.len()
        invariant
            i <= chapters@.len(),
            items_view(r@) == chapters@.subrange(0, i as int).map_values(|c: Chapter| (c.title@, "chapter"@, signed_decimal(c.index as int))),
        decreases chapters@.len() - i,
    {
        let c = &chapters[i];
        let item = MenuItem {
            label: string_of(chars_of(c.title.as_str()).as_slice()),
            property: string_of(chars_of("chapter").as_slice()),
            value: string_of(signed_decimal_chars(c.index).as_slice()),
        };
        let ghost before = items_view(r@);
        let ghost iv = (item.label@, item.property@, item.value@);
        r.push(item);
        assert(items_view(r@) =~= before.push(iv));
        assert(chapters@.subrange(0, i + 1).map_values(|c: Chapter| (c.title@, "chapter"@, signed_decimal(c.index as int)))
            =~= chapters@.subrange(0, i as int).map_values(|c: Chapter| (c.title@, "chapter"@, signed_decimal(c.index as int))).push(iv));
        i = i + 1;
    }
    assert(chapters@.subrange(0, chapters@.len() as int) =~= chapters@);
    r
}

/// How long the controls stay without input before they hide, in milliseconds.
pub const IDLE_HIDE_MS: u64 = 3_000;

/// The controls and the cursor hide after three seconds without input, except while
/// buffering, dragging the seek bar, or using the volume slider or a menu.
pub fn controls_hide(buffering: bool, dragging: bool, volume_open: bool, menu_open: bool, idle_ms: u64) -> (b: bool)
    ensures
        b == (!buffering && !dragging && !volume_open && !menu_open && idle_ms > IDLE_HIDE_MS),
{
    !buffering && !dragging && !volume_open && !menu_open && idle_ms > IDLE_HIDE_MS
}

/// How the player bar is laid out at a width.
#[derive(Clone, Copy, Debug, PartialEq, Eq)]
pub struct BarLayout {
    pub narrow: bool,
    pub spacing: i32,
    pub show_time: bool,
    pub volume_width: i32,
    pub show_pip: bool,
}

/// The player bar below 600 pixels is narrow: tighter, without the time, with a smaller
/// volume control (smaller still beside the chapters button) and, outside the mini player,
/// without the picture-in-picture button.
pub fn bar_layout(width: i32, chapters_shown: bool, compact: bool) -> (r: BarLayout)
    ensures
        r.narrow == (width < 600),
        r.spacing == if width < 600 { 2i32 } else { 8i32 },
        r.show_time == !(width < 600),
        r.volume_width == if width < 600 { if chapters_shown { 28i32 } else { 56i32 } } else { 80i32 },
        r.show_pip == (compact || !(width < 600)),
{
    let narrow = width < 600;
    BarLayout {
        narrow,
        spacing: if narrow { 2 } else { 8 },
        show_time: !narrow,
        volume_width: if narrow {
            if chapters_shown { 28 } else { 56 }
        } else {
            80
        },
        show_pip: compact || !narrow,
    }
}

} // verus!
