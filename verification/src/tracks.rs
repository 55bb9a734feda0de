//! How audio and subtitle tracks reported by the player are labelled and classified.
use vstd::prelude::*;
use crate::languages::{language_display, name};
use crate::text::{
    ascii_lower, chars_of, contains_text, contains_word, eq_ignore_ascii_case, equal_ignoring_ascii_case,
    extend_chars, has_substring, has_word, join_chars, joined, lower_ascii, same_chars, signed_decimal,
    signed_decimal_chars, string_of, trim, trimmed, views,
};

verus! {

/// An audio or subtitle track as the player chrome lists it.
#[derive(Clone, Debug, PartialEq)]
pub struct Track {
    pub id: i64,
    pub kind: String,
    pub title: String,
    pub language: String,
    pub hearing_impaired: bool,
    pub forced: bool,
    pub visual_impaired: bool,
    pub commentary: bool,
    pub selected: bool,
}

/// The text holds something besides white space.
pub open spec fn non_blank(s: Seq<char>) -> bool {
    trimmed(s).len() > 0
}

/// The non-blank pieces, in order.
pub open spec fn keep_non_blank(xs: Seq<Seq<char>>) -> Seq<Seq<char>>
    decreases xs.len(),
{
    if xs.len() == 0 {
        Seq::<Seq<char>>::empty()
    } else if non_blank(xs.last()) {
        keep_non_blank(xs.drop_last()).push(xs.last())
    } else {
        keep_non_blank(xs.drop_last())
    }
}

/// A title that only repeats the language code or the language's name adds nothing.
pub open spec fn shown_title(title: Seq<char>, lang: Seq<char>) -> Seq<char> {
    if (equal_ignoring_ascii_case(title, lang) || equal_ignoring_ascii_case(title, language_display(lang)))
        && lang.len() > 0 {
        Seq::<char>::empty()
    } else {
        title
    }
}

/// The label of a track: its title, language name and codec, joined with ` · `, leaving out
/// blank pieces; a numbered `Subtitle` or `Audio` when nothing is left.
pub open spec fn track_label_text(
    kind: Seq<char>,
    id: int,
    title: Seq<char>,
    lang: Seq<char>,
    codec: Seq<char>,
) -> Seq<char> {
    let parts = keep_non_blank(seq![shown_title(title, lang), language_display(lang), codec]);
    if parts.len() == 0 {
        (if kind == "sub"@ { "Subtitle"@ } else { "Audio"@ }) + " "@ + signed_decimal(id)
    } else {
        joined(parts, " · "@)
    }
}

fn is_non_blank(s: &[char]) -> (b: bool)
    ensures
        b == non_blank(s@),
{
    let t = trim(s);
    t.len() > 0
}

/// Label a track by title, language and codec, falling back to its number.
pub fn track_label(kind: &str, id: i64, title: &str, lang: &str, codec: &str) -> (r: String)
    ensures
        r@ == track_label_text(kind@, id as int, title@, lang@, codec@),
{
    let language = name(lang);
    let title_chars = chars_of(title);
    let lang_chars = chars_of(lang);
    let language_chars = chars_of(language.as_str());
    let shown = if (eq_ignore_ascii_case(title_chars.as_slice(), lang_chars.as_slice())
        || eq_ignore_ascii_case(title_chars.as_slice(), language_chars.as_slice())) && lang_chars.len() > 0 {
        Vec::new()
    } else {
        title_chars
    };
    let codec_chars = chars_of(codec);
    let ghost all = seq![shown@, language_chars@, codec_chars@];
    let mut parts: Vec<Vec<char>> = Vec::new();
    assert(all.subrange(0, 0) =~= Seq::<Seq<char>>::empty());
    assert(keep_non_blank(all.subrange(0, 0)) =~= Seq::<Seq<char>>::empty());
    assert(all.subrange(0, 1).last() == all[0]);
    if is_non_blank(shown.as_slice()) {
        parts.push(shown);
    }
    assert(all.subrange(0, 1).drop_last() =~= all.subrange(0, 0));
    assert(views(parts@) =~= keep_non_blank(all.subrange(0, 1)));
    if is_non_blank(language_chars.as_slice()) {
        parts.push(language_chars);
    }
    assert(all.subrange(0, 2).drop_last() =~= all.subrange(0, 1));
    assert(all.subrange(0, 2).last() == all[1]);
    assert(views(parts@) =~= keep_non_blank(all.subrange(0, 2)));
    if is_non_blank(codec_chars.as_slice()) {
        parts.push(codec_chars);
    }
    assert(all.subrange(0, 3).drop_last() =~= all.subrange(0, 2));
    assert(all.subrange(0, 3).last() == all[2]);
    assert(all.subrange(0, 3) =~= all);
    assert(views(parts@) =~= keep_non_blank(all));
    if parts.len() == 0 {
        let kind_chars = chars_of(kind);
        let mut out = if same_chars(kind_chars.as_slice(), "sub") {
            chars_of("Subtitle")
        } else {
            chars_of("Audio")
        };
        let space = chars_of(" ");
        extend_chars(&mut out, space.as_slice());
        let number = signed_decimal_chars(id);
        extend_chars(&mut out, number.as_slice());
        string_of(out.as_slice())
    } else {
        let out = join_chars(&parts, " · ");
        string_of(out.as_slice())
    }
}

/// The track is for people who are deaf or hard of hearing: flagged so, or its title names
/// `SDH` or `CC` as a word, in any ASCII case.
pub open spec fn hearing_impaired_track(flag: bool, title: Seq<char>) -> bool {
    let t = title.map_values(|c: char| ascii_lower(c));
    flag || has_word(t, "sdh"@) || has_word(t, "cc"@)
}

/// The track is forced: flagged so, or its title names `forced` as a word.
pub open spec fn forced_track(flag: bool, title: Seq<char>) -> bool {
    flag || has_word(title.map_values(|c: char| ascii_lower(c)), "forced"@)
}

/// The track describes the picture: flagged so, or its title mentions audio description.
pub open spec fn visual_impaired_track(flag: bool, title: Seq<char>) -> bool {
    let t = title.map_values(|c: char| ascii_lower(c));
    flag || has_substring(t, "audio description"@) || has_substring(t, "descriptive audio"@)
}

/// The track is a commentary: its title names `commentary` as a word.
pub open spec fn commentary_track(title: Seq<char>) -> bool {
    has_word(title.map_values(|c: char| ascii_lower(c)), "commentary"@)
}

/// ` · badge` when the badge applies, nothing otherwise.
pub open spec fn badge(on: bool, text: Seq<char>) -> Seq<char> {
    if on { " · "@ + text } else { Seq::<char>::empty() }
}

/// The label shown for a track: its plain label followed by its accessibility and role badges.
pub open spec fn track_display(
    kind: Seq<char>,
    id: int,
    title: Seq<char>,
    lang: Seq<char>,
    codec: Seq<char>,
    hearing: bool,
    forced: bool,
    visual: bool,
) -> Seq<char> {
    track_label_text(kind, id, title, lang, codec)
        + badge(hearing_impaired_track(hearing, title), "SDH"@)
        + badge(forced_track(forced, title), "Forced"@)
        + badge(visual_impaired_track(visual, title), "Audio description"@)
        + badge(commentary_track(title), "Commentary"@)
}

fn add_badge(out: &mut Vec<char>, on: bool, text: &str)
    ensures
        final(out)@ == old(out)@ + badge(on, text@),
{
    if on {
        let sep = chars_of(" · ");
        let t = chars_of(text);
        extend_chars(out, sep.as_slice());
        extend_chars(out, t.as_slice());
        assert(final(out)@ =~= old(out)@ + (" · "@ + text@));
    } else {
        assert(old(out)@ + badge(on, text@) =~= old(out)@);
    }
}

/// Describe one entry of the player's track list; only audio and subtitle tracks are listed.
/// The three flags are the player's own hearing-impaired, forced and visual-impaired marks.
pub fn describe_track(
    kind: &str,
    id: i64,
    title: &str,
    lang: &str,
    codec: &str,
    selected: bool,
    hearing_flag: bool,
    forced_flag: bool,
    visual_flag: bool,
) -> (r: Option<Track>)
    ensures
        r is Some <==> (kind@ == "audio"@ || kind@ == "sub"@),
        r matches Some(t) ==> {
            &&& t.id == id
            &&& t.kind@ == kind@
            &&& t.title@ == track_display(kind@, id as int, title@, lang@, codec@, hearing_flag, forced_flag, visual_flag)
            &&& t.language@ == lang@
            &&& t.hearing_impaired == hearing_impaired_track(hearing_flag, title@)
            &&& t.forced == forced_track(forced_flag, title@)
            &&& t.visual_impaired == visual_impaired_track(visual_flag, title@)
            &&& t.commentary == commentary_track(title@)
            &&& t.selected == selected
        },
{
    let kind_chars = chars_of(kind);
    if !same_chars(kind_chars.as_slice(), "audio") && !same_chars(kind_chars.as_slice(), "sub") {
        return None;
    }
    let title_chars = chars_of(title);
    let normalized = lower_ascii(title_chars.as_slice());
    let hearing = hearing_flag || contains_word(normalized.as_slice(), "sdh")
        || contains_word(normalized.as_slice(), "cc");
    let forced = forced_flag || contains_word(normalized.as_slice(), "forced");
    let visual = visual_flag || contains_text(normalized.as_slice(), "audio description")
        || contains_text(normalized.as_slice(), "descriptive audio");
    let commentary = contains_word(normalized.as_slice(), "commentary");
    let label = track_label(kind, id, title, lang, codec);
    let mut display = chars_of(label.as_str());
    add_badge(&mut display, hearing, "SDH");
    add_badge(&mut display, forced, "Forced");
    add_badge(&mut display, visual, "Audio description");
    add_badge(&mut display, commentary, "Commentary");
    Some(Track {
        id,
        kind: string_of(kind_chars.as_slice()),
        title: string_of(display.as_slice()),
        language: string_of(chars_of(lang).as_slice()),
        hearing_impaired: hearing,
        forced,
        visual_impaired: visual,
        commentary,
        selected,
    })
}

} // verus!
