//! Conservative, local hints for skipping an intro and offering the next episode.
use vstd::prelude::*;
use crate::text::{chars_of, contains_word, has_word, same_chars, string_of, to_lowercase, trim, trimmed, unicode_lowercase};

verus! {

/// A chapter marker reported by the player; `start_ms` is unknown for some media.
#[derive(Clone, Debug, PartialEq)]
pub struct Chapter {
    pub index: i64,
    pub title: String,
    pub start_ms: Option<u64>,
}

/// Where a chapter starts on the displayed timeline, `offset` milliseconds later than the
/// media's own clock; unknown when the chapter has no start or the sum leaves `u64`.
pub open spec fn shifted_start(c: Chapter, offset: u64) -> Option<u64> {
    match c.start_ms {
        Some(s) => if s + offset <= u64::MAX {
            Some((s + offset) as u64)
        } else {
            None
        },
        None => None,
    }
}

/// Chapter `k` is the one playing at `position`: among the chapters already started, it
/// starts last, and it is the last of those that start at that moment.
pub open spec fn playing_chapter(chapters: Seq<Chapter>, k: int, position: u64, offset: u64) -> bool {
    &&& 0 <= k < chapters.len()
    &&& shifted_start(chapters[k], offset) is Some
    &&& shifted_start(chapters[k], offset)->0 <= position
    &&& forall|j: int| 0 <= j < chapters.len() && #[trigger] shifted_start(chapters[j], offset) is Some
        && shifted_start(chapters[j], offset)->0 <= position ==> {
        ||| shifted_start(chapters[j], offset)->0 < shifted_start(chapters[k], offset)->0
        ||| (shifted_start(chapters[j], offset)->0 == shifted_start(chapters[k], offset)->0 && j <= k)
    }
}

/// `e` is the first chapter start after `start`.
pub open spec fn next_start(chapters: Seq<Chapter>, start: u64, e: u64, offset: u64) -> bool {
    &&& exists|j: int| 0 <= j < chapters.len() && #[trigger] shifted_start(chapters[j], offset) == Some(e)
    &&& start < e
    &&& forall|j: int| 0 <= j < chapters.len() && #[trigger] shifted_start(chapters[j], offset) is Some
        && shifted_start(chapters[j], offset)->0 > start ==> e <= shifted_start(chapters[j], offset)->0
}

/// The title marks an opening sequence explicitly.
pub open spec fn intro_title(title: Seq<char>) -> bool {
    let t = unicode_lowercase(trimmed(title));
    ||| t == "intro"@
    ||| t == "intro credits"@
    ||| t == "intro sequence"@
    ||| t == "opening"@
    ||| t == "opening credits"@
    ||| t == "opening theme"@
    ||| t == "op"@
}

/// Where a skip-intro action jumps to: the start of the chapter after the playing one, when
/// the playing chapter is an explicitly titled intro that starts in the first ten minutes,
/// lasts at most five minutes, and has not ended yet.
pub open spec fn intro_skip_target(position: u64, chapters: Seq<Chapter>, offset: u64) -> Option<u64> {
    if exists|k: int| playing_chapter(chapters, k, position, offset) {
        let k = choose|k: int| playing_chapter(chapters, k, position, offset);
        let s = shifted_start(chapters[k], offset)->0;
        if intro_title(chapters[k].title@) && exists|e: u64| next_start(chapters, s, e, offset) {
            let e = choose|e: u64| next_start(chapters, s, e, offset);
            if s < 600_000 && e - s <= 300_000 && position < e {
                Some(e)
            } else {
                None
            }
        } else {
            None
        }
    } else {
        None
    }
}

/// The title names closing credits: the word `credits`, and none of `opening`, `intro`,
/// `post` or `after`, among the words of its lower-case form.
pub open spec fn credits_title(title: Seq<char>) -> bool {
    let t = unicode_lowercase(title);
    &&& has_word(t, "credits"@)
    &&& !has_word(t, "opening"@)
    &&& !has_word(t, "intro"@)
    &&& !has_word(t, "post"@)
    &&& !has_word(t, "after"@)
}

/// Chapter `j` holds closing credits that start in the last quarter of the video, before its end.
pub open spec fn credits_chapter(chapters: Seq<Chapter>, j: int, duration: u64, offset: u64) -> bool {
    &&& 0 <= j < chapters.len()
    &&& credits_title(chapters[j].title@)
    &&& shifted_start(chapters[j], offset) is Some
    &&& shifted_start(chapters[j], offset)->0 * 100 >= duration * 75
    &&& shifted_start(chapters[j], offset)->0 < duration
}

/// The next episode is worth offering: playback is inside a known duration and has reached
/// 95 %, or closing credits in the last quarter have begun.
pub open spec fn next_episode_due(position: u64, duration: u64, chapters: Seq<Chapter>, offset: u64) -> bool {
    if duration == 0 || position >= duration {
        false
    } else if position * 100 >= duration * 95 {
        true
    } else {
        exists|j: int| credits_chapter(chapters, j, duration, offset)
            && shifted_start(chapters[j], offset)->0 <= position
    }
}

fn shift(c: &Chapter, offset: u64) -> (r: Option<u64>)
    ensures
        r == shifted_start(*c, offset),
{
    match c.start_ms {
        Some(s) => s.checked_add(offset),
        None => None,
    }
}

proof fn playing_chapter_unique(chapters: Seq<Chapter>, a: int, b: int, position: u64, offset: u64)
    requires
        playing_chapter(chapters, a, position, offset),
        playing_chapter(chapters, b, position, offset),
    ensures
        a == b,
{
    let _ = shifted_start(chapters[a], offset);
    let _ = shifted_start(chapters[b], offset);
}

proof fn next_start_unique(chapters: Seq<Chapter>, s: u64, a: u64, b: u64, offset: u64)
    requires
        next_start(chapters, s, a, offset),
        next_start(chapters, s, b, offset),
    ensures
        a == b,
{
    let ja = choose|j: int| 0 <= j < chapters.len() && #[trigger] shifted_start(chapters[j], offset) == Some(a);
    let jb = choose|j: int| 0 <= j < chapters.len() && #[trigger] shifted_start(chapters[j], offset) == Some(b);
}

fn is_intro_title(title: &String) -> (b: bool)
    ensures
        b == intro_title(title@),
{
    let chars = chars_of(title.as_str());
    let trimmed_chars = trim(chars.as_slice());
    let trimmed_text = string_of(trimmed_chars.as_slice());
    let lower = to_lowercase(trimmed_text.as_str());
    let t = chars_of(lower.as_str());
    same_chars(&t, "intro") || same_chars(&t, "intro credits") || same_chars(&t, "intro sequence")
        || same_chars(&t, "opening") || same_chars(&t, "opening credits")
        || same_chars(&t, "opening theme") || same_chars(&t, "op")
}

fn is_credits_title(title: &String) -> (b: bool)
    ensures
        b == credits_title(title@),
{
    let lower = to_lowercase(title.as_str());
    let t = chars_of(lower.as_str());
    contains_word(&t, "credits") && !contains_word(&t, "opening") && !contains_word(&t, "intro")
        && !contains_word(&t, "post") && !contains_word(&t, "after")
}

/// Only skip explicitly marked opening sequences with a known following chapter.
pub fn intro_end(position: u64, chapters: &[Chapter], offset: u64) -> (r: Option<u64>)
    ensures
        r == intro_skip_target(position, chapters@, offset),
{
    let n = chapters.len();
    let mut found: Option<(usize, u64)> = None;
    let mut i: usize = 0;
    while i < n
        invariant
            n == chapters@.len(),
            i <= n,
            match found {
                None => forall|j: int| 0 <= j < i ==> #[trigger] shifted_start(chapters@[j], offset) is None
                    || shifted_start(chapters@[j], offset)->0 > position,
                Some((k, s)) => k < i && shifted_start(chapters@[k as int], offset) == Some(s) && s <= position
                    && forall|j: int| 0 <= j < i && #[trigger] shifted_start(chapters@[j], offset) is Some
                        && shifted_start(chapters@[j], offset)->0 <= position ==> {
                        ||| shifted_start(chapters@[j], offset)->0 < s
                        ||| (shifted_start(chapters@[j], offset)->0 == s && j <= k)
                    },
            },
        decreases n - i,
    {
        if let Some(start) = shift(&chapters[i], offset) {
            if start <= position {
                match found {
                    Some((_, best)) => {
                        if start >= best {
                            found = Some((i, start));
                        }
                    },
                    None => {
                        found = Some((i, start));
                    },
                }
            }
        }
        i = i + 1;
    }
    let (k, start) = match found {
        None => {
            assert(!exists|k: int| playing_chapter(chapters@, k, position, offset));
            return None;
        },
        Some(pair) => pair,
    };
    assert(playing_chapter(chapters@, k as int, position, offset));
    proof {
        let c = choose|c: int| playing_chapter(chapters@, c, position, offset);
        playing_chapter_unique(chapters@, c, k as int, position, offset);
    }
    if !is_intro_title(&chapters[k].title) {
        return None;
    }
    let mut end: Option<u64> = None;
    let mut i: usize = 0;
    while i < n
        invariant
            n == chapters@.len(),
            i <= n,
            match end {
                None => forall|j: int| 0 <= j < i ==> #[trigger] shifted_start(chapters@[j], offset) is None
                    || shifted_start(chapters@[j], offset)->0 <= start,
                Some(e) => start < e && (exists|j: int| 0 <= j < i && #[trigger] shifted_start(chapters@[j], offset) == Some(e))
                    && forall|j: int| 0 <= j < i && #[trigger] shifted_start(chapters@[j], offset) is Some
                        && shifted_start(chapters@[j], offset)->0 > start ==> e <= shifted_start(chapters@[j], offset)->0,
            },
        decreases n - i,
    {
        if let Some(t) = shift(&chapters[i], offset) {
            if t > start {
                match end {
                    Some(e) => {
                        if t < e {
                            end = Some(t);
                        }
                    },
                    None => {
                        end = Some(t);
                    },
                }
            }
        }
        i = i + 1;
    }
    let e = match end {
        None => {
            assert(!exists|e: u64| next_start(chapters@, start, e, offset)) by {
                if exists|e: u64| next_start(chapters@, start, e, offset) {
                    let e = choose|e: u64| next_start(chapters@, start, e, offset);
                    let j = choose|j: int| 0 <= j < chapters@.len() && #[trigger] shifted_start(chapters@[j], offset) == Some(e);
                }
            }
            return None;
        },
        Some(e) => e,
    };
    assert(next_start(chapters@, start, e, offset));
    proof {
        let c = choose|c: u64| next_start(chapters@, start, c, offset);
        next_start_unique(chapters@, start, c, e, offset);
    }
    if start < 600_000 && e - start <= 300_000 && position < e {
        Some(e)
    } else {
        None
    }
}

/// Whether to offer the next episode at `position` of a video lasting `duration` milliseconds.
pub fn suggest(position: u64, duration: u64, chapters: &[Chapter], offset: u64) -> (b: bool)
    ensures
        b == next_episode_due(position, duration, chapters@, offset),
{
    if duration == 0 || position >= duration {
        return false;
    }
    if (position as u128) * 100 >= (duration as u128) * 95 {
        return true;
    }
    let n = chapters.len();
    let mut i: usize = 0;
    while i < n
        invariant
            n == chapters@.len(),
            i <= n,
            0 < duration,
            position < duration,
            position * 100 < duration * 95,
            forall|j: int| 0 <= j < i ==> !(#[trigger] credits_chapter(chapters@, j, duration, offset)
                && shifted_start(chapters@[j], offset)->0 <= position),
        decreases n - i,
    {
        if is_credits_title(&chapters[i].title) {
            if let Some(start) = shift(&chapters[i], offset) {
                if (start as u128) * 100 >= (duration as u128) * 75 && start < duration && position >= start {
                    assert(credits_chapter(chapters@, i as int, duration, offset)
                        && shifted_start(chapters@[i as int], offset)->0 <= position);
                    assert(!(position * 100 >= duration * 95));
                    return true;
                }
            }
        }
        i = i + 1;
    }
    false
}

/// Once the next episode is due, it stays due as playback moves on, until the video ends.
pub proof fn lemma_next_episode_stays_due(position: u64, later: u64, duration: u64, chapters: Seq<Chapter>, offset: u64)
    requires
        next_episode_due(position, duration, chapters, offset),
        position <= later < duration,
    ensures
        next_episode_due(later, duration, chapters, offset),
{
    if !(position * 100 >= duration * 95) && !(later * 100 >= duration * 95) {
        let j = choose|j: int| credits_chapter(chapters, j, duration, offset)
            && shifted_start(chapters[j], offset)->0 <= position;
        assert(credits_chapter(chapters, j, duration, offset) && shifted_start(chapters[j], offset)->0 <= later);
    }
}

/// Skipping an intro always jumps forward, to a chapter start at most five minutes after
/// the intro began, within the first fifteen minutes.
pub proof fn lemma_intro_skip_jumps_forward(position: u64, chapters: Seq<Chapter>, offset: u64)
    ensures
        intro_skip_target(position, chapters, offset) matches Some(e) ==> (position < e && e <= 900_000
            && exists|j: int| 0 <= j < chapters.len() && #[trigger] shifted_start(chapters[j], offset) == Some(e)),
{
}

/// Each explicit intro marker offers the skip: when the playing chapter is titled, after
/// trimming and in lower case, "intro", "intro credits", "intro sequence", "opening",
/// "opening credits", "opening theme" or "op", starts in the first ten minutes, and the next
/// chapter starts at most five minutes after it and after the position, skipping jumps to that
/// next chapter.
pub proof fn lemma_marked_intro_is_skipped(position: u64, chapters: Seq<Chapter>, offset: u64, k: int, e: u64)
    requires
        playing_chapter(chapters, k, position, offset),
        ({
            let t = unicode_lowercase(trimmed(chapters[k].title@));
            ||| t == "intro"@
            ||| t == "intro credits"@
            ||| t == "intro sequence"@
            ||| t == "opening"@
            ||| t == "opening credits"@
            ||| t == "opening theme"@
            ||| t == "op"@
        }),
        shifted_start(chapters[k], offset)->0 < 600_000,
        next_start(chapters, shifted_start(chapters[k], offset)->0, e, offset),
        e - shifted_start(chapters[k], offset)->0 <= 300_000,
        position < e,
    ensures
        intro_skip_target(position, chapters, offset) == Some(e),
{
    let c = choose|c: int| playing_chapter(chapters, c, position, offset);
    playing_chapter_unique(chapters, c, k, position, offset);
    let s = shifted_start(chapters[k], offset)->0;
    let f = choose|f: u64| next_start(chapters, s, f, offset);
    next_start_unique(chapters, s, f, e, offset);
}

/// Only explicit intro markers offer the skip: whenever skipping is offered, the playing
/// chapter's title, trimmed and in lower case, is one of "intro", "intro credits", "intro
/// sequence", "opening", "opening credits", "opening theme" and "op".
pub proof fn lemma_only_marked_intros_are_skipped(position: u64, chapters: Seq<Chapter>, offset: u64)
    ensures
        intro_skip_target(position, chapters, offset) is Some ==> exists|k: int| #[trigger] playing_chapter(chapters, k, position, offset) && {
            let t = unicode_lowercase(trimmed(chapters[k].title@));
            ||| t == "intro"@
            ||| t == "intro credits"@
            ||| t == "intro sequence"@
            ||| t == "opening"@
            ||| t == "opening credits"@
            ||| t == "opening theme"@
            ||| t == "op"@
        },
{
    if intro_skip_target(position, chapters, offset) is Some {
        let k = choose|k: int| playing_chapter(chapters, k, position, offset);
        assert(intro_title(chapters[k].title@));
    }
}

} // verus!
