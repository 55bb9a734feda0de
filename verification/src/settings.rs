//! Playback preference editing: ordered language lists and track preferences.
use vstd::prelude::*;
use crate::browse::CatalogInfo;
use crate::languages::{language_display, name};
use crate::text::{chars_of, extend_chars, string_of, views};

verus! {

/// The most languages a preference list holds.
pub const MAX_LANGUAGES: usize = 20;

/// The character sequences of a list of strings.
pub open spec fn texts(v: Seq<String>) -> Seq<Seq<char>> {
    v.map_values(|s: String| s@)
}

/// The list after the button at `index` was pressed: `change` -1 moves the language one
/// place earlier, 1 one place later, 0 removes it. Presses that point outside the list, or
/// would move a language past either end, leave it as it is.
pub open spec fn reordered(values: Seq<Seq<char>>, index: int, change: int) -> Seq<Seq<char>> {
    if index >= values.len() {
        values
    } else if change == 0 {
        values.remove(index)
    } else if 0 <= index + change < values.len() {
        values.update(index, values[index + change]).update(index + change, values[index])
    } else {
        values
    }
}

/// Press one of a language row's buttons.
pub fn reorder_language(values: &mut Vec<String>, index: usize, change: i32)
    requires
        -1 <= change <= 1,
        index < i32::MAX,
    ensures
        texts(final(values)@) == reordered(texts(old(values)@), index as int, change as int),
{
    if index >= values.len() {
        return;
    }
    if change == 0 {
        values.remove(index);
        assert(texts(values@) =~= texts(old(values)@).remove(index as int));
        return;
    }
    let other = (index as i32) + change;
    if other >= 0 && (other as usize) < values.len() {
        let o = other as usize;
        let moved = values.remove(index);
        values.insert(o, moved);
        assert(texts(values@) =~= texts(old(values)@).update(index as int, texts(old(values)@)[o as int]).update(
            o as int, texts(old(values)@)[index as int]));
    }
}

/// The list after choosing `code` from the language menu: appended, unless the list is
/// full or already holds it.
pub open spec fn with_language(values: Seq<Seq<char>>, code: Seq<char>) -> Seq<Seq<char>> {
    if values.len() >= MAX_LANGUAGES || values.contains(code) {
        values
    } else {
        values.push(code)
    }
}

fn holds(values: &Vec<String>, code: &String) -> (b: bool)
    ensures
        b == texts(values@).contains(code@),
{
    let mut i: usize = 0;
    while i < values.len()
        invariant
            i <= values@.len(),
            forall|j: int| 0 <= j < i ==> #[trigger] values@[j]@ != code@,
        decreases values@.len() - i,
    {
        if values[i] == *code {
            assert(texts(values@)[i as int] == code@);
            return true;
        }
        i = i + 1;
    }
    false
}

/// Choose a language from the menu.
pub fn add_language(values: &mut Vec<String>, code: &String)
    ensures
        texts(final(values)@) == with_language(texts(old(values)@), code@),
{
    if values.len() >= MAX_LANGUAGES || holds(values, code) {
        return;
    }
    values.push(code.clone());
    assert(texts(values@) =~= texts(old(values)@).push(code@));
}

/// The languages the menu offers, in menu order.
pub open spec fn menu_languages() -> Seq<Seq<char>> {
    seq!["en"@, "hi"@, "ta"@, "te"@, "ml"@, "kn"@, "mr"@, "bn"@, "gu"@, "pa"@, "ur"@, "fr"@, "de"@, "es"@,
        "pt"@, "it"@, "ja"@, "ko"@, "zh"@, "ar"@, "ru"@, "uk"@, "nl"@, "pl"@, "tr"@, "sv"@, "da"@, "fi"@,
        "no"@, "th"@, "vi"@, "id"@, "he"@]
}

fn menu_codes() -> (r: Vec<&'static str>)
    ensures
        r@.map_values(|s: &'static str| s@) == menu_languages(),
{
    let r = vec!["en", "hi", "ta", "te", "ml", "kn", "mr", "bn", "gu", "pa", "ur", "fr", "de", "es", "pt",
        "it", "ja", "ko", "zh", "ar", "ru", "uk", "nl", "pl", "tr", "sv", "da", "fi", "no", "th", "vi", "id",
        "he"];
    assert(r@.map_values(|s: &'static str| s@) =~= menu_languages());
    r
}

/// One entry of the language menu.
#[derive(Debug)]
pub struct LanguageChoice {
    pub code: String,
    pub label: String,
    pub enabled: bool,
}

/// The language menu for the current list: each offered language by name, marked ✓ and
/// disabled when already chosen, and disabled for all once the list is full.
pub fn language_menu(values: &Vec<String>) -> (r: Vec<LanguageChoice>)
    ensures
        r@.len() == menu_languages().len(),
        forall|i: int| 0 <= i < r@.len() ==> {
            let code = menu_languages()[i];
            let chosen = texts(values@).contains(code);
            &&& (#[trigger] r@[i]).code@ == code
            &&& r@[i].label@ == if chosen {
                language_display(code) + " ✓"@
            } else {
                language_display(code)
            }
            &&& r@[i].enabled == (!chosen && values@.len() < MAX_LANGUAGES)
        },
{
    let codes = menu_codes();
    let mut r: Vec<LanguageChoice> = Vec::new();
    let mut i: usize = 0;
    while i < codes.len()
        invariant
            codes@.map_values(|s: &'static str| s@) == menu_languages(),
            i <= codes@.len(),
            r@.len() == i,
            forall|k: int| 0 <= k < i ==> {
                let code = menu_languages()[k];
                let chosen = texts(values@).contains(code);
                &&& (#[trigger] r@[k]).code@ == code
                &&& r@[k].label@ == if chosen {
                    language_display(code) + " ✓"@
                } else {
                    language_display(code)
                }
                &&& r@[k].enabled == (!chosen && values@.len() < MAX_LANGUAGES)
            },
        decreases codes@.len() - i,
    {
        let code = codes[i];
        assert(code@ == menu_languages()[i as int]);
        let code_text = string_of(chars_of(code).as_slice());
        let chosen = holds(values, &code_text);
        let mut label = chars_of(name(code).as_str());
        if chosen {
            extend_chars(&mut label, chars_of(" ✓").as_slice());
        }
        r.push(LanguageChoice {
            code: code_text,
            label: string_of(label.as_slice()),
            enabled: !chosen && values.len() < MAX_LANGUAGES,
        });
        i = i + 1;
    }
    r
}

/// The buttons of the row at `index` in a list of `len`: earlier, later, remove.
pub fn row_buttons(index: usize, len: usize) -> (r: (bool, bool, bool))
    ensures
        r == (index > 0, index + 1 < len, true),
{
    (index > 0, index < len && index + 1 < len, true)
}

/// How a stream track with some property is treated when choosing tracks.
#[derive(Clone, Copy, Debug, PartialEq, Eq, Structural)]
pub enum TrackPreference {
    Any,
    Prefer,
    Avoid,
}

/// The row that shows a preference: no preference, prefer, or avoid when alternatives exist.
pub open spec fn row_of(value: TrackPreference) -> u32 {
    match value {
        TrackPreference::Any => 0,
        TrackPreference::Prefer => 1,
        TrackPreference::Avoid => 2,
    }
}

/// The preference a chosen row stands for; any row but the second and third means no preference.
pub open spec fn preference_at(row: u32) -> TrackPreference {
    if row == 1 {
        TrackPreference::Prefer
    } else if row == 2 {
        TrackPreference::Avoid
    } else {
        TrackPreference::Any
    }
}

/// The row of the preference's choice.
pub fn preference_row(value: TrackPreference) -> (r: u32)
    ensures
        r == row_of(value),
{
    match value {
        TrackPreference::Any => 0,
        TrackPreference::Prefer => 1,
        TrackPreference::Avoid => 2,
    }
}

/// The preference of a chosen row.
pub fn preference_of_row(row: u32) -> (r: TrackPreference)
    ensures
        r == preference_at(row),
{
    if row == 1 {
        TrackPreference::Prefer
    } else if row == 2 {
        TrackPreference::Avoid
    } else {
        TrackPreference::Any
    }
}

/// Choosing the row a preference is shown in gives that preference back.
pub proof fn lemma_preference_rows_round_trip(value: TrackPreference)
    ensures
        preference_at(row_of(value)) == value,
        row_of(value) <= 2,
{
}

/// Moving a language one place earlier and then one place later restores the list, and
/// the other way round.
pub proof fn lemma_moves_undo_each_other(values: Seq<Seq<char>>, index: int)
    requires
        0 < index < values.len(),
    ensures
        reordered(reordered(values, index, -1), index - 1, 1) == values,
        reordered(reordered(values, index - 1, 1), index, -1) == values,
{
    assert(reordered(reordered(values, index, -1), index - 1, 1) =~= values);
    assert(reordered(reordered(values, index - 1, 1), index, -1) =~= values);
}

/// Moving keeps the list's languages and length; only removing shortens it, by one.
pub proof fn lemma_reorder_keeps_languages(values: Seq<Seq<char>>, index: int, change: int)
    requires
        0 <= index,
        -1 <= change <= 1,
    ensures
        change != 0 ==> reordered(values, index, change).to_multiset() == values.to_multiset(),
        change == 0 && index < values.len() ==> reordered(values, index, change).len() == values.len() - 1,
{
    if change != 0 && index < values.len() && 0 <= index + change < values.len() {
        let j = index + change;
        let swapped = values.update(index, values[j]).update(j, values[index]);
        assert(swapped.to_multiset() =~= values.to_multiset()) by {
            broadcast use vstd::multiset::group_multiset_axioms, vstd::seq_lib::group_to_multiset_ensures;
            let once = values.update(index, values[j]);
            assert(once.to_multiset() =~= values.to_multiset().remove(values[index]).insert(values[j]));
            assert(swapped.to_multiset() =~= once.to_multiset().remove(once[j]).insert(values[index]));
        }
    }
}

/// Choosing a language that the list already holds, or choosing the same language twice,
/// changes nothing more; the list never grows past its limit nor holds a language twice.
pub proof fn lemma_adding_twice_changes_nothing(values: Seq<Seq<char>>, code: Seq<char>)
    ensures
        with_language(with_language(values, code), code) == with_language(values, code),
        values.len() <= MAX_LANGUAGES ==> with_language(values, code).len() <= MAX_LANGUAGES,
        values.no_duplicates() ==> with_language(values, code).no_duplicates(),
{
    if !(values.len() >= MAX_LANGUAGES || values.contains(code)) {
        assert(values.push(code)[values.len() as int] == code);
    }
}

/// Every catalog of the addon can only be searched.
pub open spec fn all_search_only(catalogs: Seq<CatalogInfo>) -> bool {
    catalogs.len() > 0 && forall|i: int| 0 <= i < catalogs.len() ==> (#[trigger] catalogs[i]).search_only
}

/// Some catalog of the addon can be searched.
pub open spec fn any_searchable(catalogs: Seq<CatalogInfo>) -> bool {
    exists|i: int| 0 <= i < catalogs.len() && (#[trigger] catalogs[i]).searchable
}

/// What an installed addon offers, as its settings row says.
pub open spec fn capability_of(catalogs: Seq<CatalogInfo>) -> Seq<char> {
    if all_search_only(catalogs) {
        "Search only"@
    } else if any_searchable(catalogs) {
        "Browse and search"@
    } else if catalogs.len() > 0 {
        "Browse"@
    } else {
        "Metadata / playback resources"@
    }
}

/// The subtitle of an addon's settings row: its version and what it offers.
pub fn addon_subtitle(version: &str, catalogs: &Vec<CatalogInfo>) -> (r: String)
    ensures
        r@ == version@ + " · "@ + capability_of(catalogs@),
{
    let mut only_search = catalogs.len() > 0;
    let mut searchable = false;
    let mut i: usize = 0;
    while i < catalogs.len()
        invariant
            i <= catalogs@.len(),
            only_search == (catalogs@.len() > 0 && forall|j: int| 0 <= j < i ==> (#[trigger] catalogs@[j]).search_only),
            searchable == exists|j: int| 0 <= j < i && (#[trigger] catalogs@[j]).searchable,
        decreases catalogs@.len() - i,
    {
        if !catalogs[i].search_only {
            only_search = false;
        }
        if catalogs[i].searchable {
            searchable = true;
        }
        i = i + 1;
    }
    let capability = if only_search {
        "Search only"
    } else if searchable {
        "Browse and search"
    } else if catalogs.len() > 0 {
        "Browse"
    } else {
        "Metadata / playback resources"
    };
    let mut out = chars_of(version);
    extend_chars(&mut out, chars_of(" · ").as_slice());
    extend_chars(&mut out, chars_of(capability).as_slice());
    string_of(out.as_slice())
}

/// The addon order after moving the addon at `index` one place up.
pub open spec fn moved_up(ids: Seq<Seq<char>>, index: int) -> Seq<Seq<char>> {
    ids.update(index, ids[index - 1]).update(index - 1, ids[index])
}

/// The new addon order when the addon at `index` moves up; the first addon, or a position
/// outside the list, has no such action.
pub fn move_up_order(ids: &Vec<String>, index: usize) -> (r: Option<Vec<String>>)
    ensures
        match r {
            Some(order) => 0 < index < ids@.len() && texts(order@) == moved_up(texts(ids@), index as int),
            None => !(0 < index < ids@.len()),
        },
{
    if index == 0 || index >= ids.len() {
        return None;
    }
    let mut order: Vec<String> = Vec::new();
    let mut i: usize = 0;
    while i < ids.len()
        invariant
            0 < index < ids@.len(),
            i <= ids@.len(),
            texts(order@) == moved_up(texts(ids@), index as int).subrange(0, i as int),
        decreases ids@.len() - i,
    {
        let source = if i == index {
            index - 1
        } else if i + 1 == index {
            index
        } else {
            i
        };
        let ghost before = texts(order@);
        order.push(string_of(chars_of(ids[source].as_str()).as_slice()));
        assert(texts(order@) =~= before.push(ids@[source as int]@));
        assert(moved_up(texts(ids@), index as int).subrange(0, i + 1)
            =~= moved_up(texts(ids@), index as int).subrange(0, i as int).push(ids@[source as int]@));
        i = i + 1;
    }
    assert(moved_up(texts(ids@), index as int).subrange(0, ids@.len() as int) =~= moved_up(texts(ids@), index as int));
    Some(order)
}

/// Moving an addon up keeps every installation exactly once: the new order holds the same
/// ids, as often as before, and a list without repeats stays without repeats.
pub proof fn lemma_move_up_keeps_every_addon(ids: Seq<Seq<char>>, index: int)
    requires
        0 < index < ids.len(),
    ensures
        moved_up(ids, index).to_multiset() == ids.to_multiset(),
        moved_up(ids, index).len() == ids.len(),
        ids.no_duplicates() ==> moved_up(ids, index).no_duplicates(),
{
    lemma_reorder_keeps_languages(ids, index, -1);
    assert(reordered(ids, index, -1) =~= moved_up(ids, index));
    let m = moved_up(ids, index);
    if ids.no_duplicates() {
        assert forall|a: int, b: int| 0 <= a < m.len() && 0 <= b < m.len() && a != b implies m[a] != m[b] by {
            let sa = if a == index { index - 1 } else if a == index - 1 { index } else { a };
            let sb = if b == index { index - 1 } else if b == index - 1 { index } else { b };
            assert(m[a] == ids[sa] && m[b] == ids[sb]);
        }
    }
}

} // verus!
