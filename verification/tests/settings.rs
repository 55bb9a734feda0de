use madari::settings::{
    add_language, language_menu, preference_of_row, preference_row, reorder_language, row_buttons,
    TrackPreference, MAX_LANGUAGES,
};

fn list(xs: &[&str]) -> Vec<String> {
    xs.iter().map(|s| s.to_string()).collect()
}

#[test]
fn language_rows_move_and_remove() {
    let mut v = list(&["en", "fr", "de"]);
    reorder_language(&mut v, 1, -1);
    assert_eq!(v, list(&["fr", "en", "de"]));
    reorder_language(&mut v, 1, 1);
    assert_eq!(v, list(&["fr", "de", "en"]));
    reorder_language(&mut v, 0, -1);
    assert_eq!(v, list(&["fr", "de", "en"]));
    reorder_language(&mut v, 2, 1);
    assert_eq!(v, list(&["fr", "de", "en"]));
    reorder_language(&mut v, 5, 0);
    assert_eq!(v, list(&["fr", "de", "en"]));
    reorder_language(&mut v, 1, 0);
    assert_eq!(v, list(&["fr", "en"]));
}

#[test]
fn languages_are_added_once_up_to_the_limit() {
    let mut v = list(&["en"]);
    add_language(&mut v, &"fr".to_string());
    add_language(&mut v, &"en".to_string());
    assert_eq!(v, list(&["en", "fr"]));
    let mut full: Vec<String> = (0..MAX_LANGUAGES).map(|i| format!("x{i}")).collect();
    add_language(&mut full, &"de".to_string());
    assert_eq!(full.len(), MAX_LANGUAGES);
    assert!(!full.contains(&"de".to_string()));
}

#[test]
fn language_menu_marks_chosen_languages() {
    let menu = language_menu(&list(&["hi"]));
    assert_eq!(menu.len(), 33);
    assert_eq!(menu[0].code, "en");
    assert_eq!(menu[0].label, "English");
    assert!(menu[0].enabled);
    assert_eq!(menu[1].code, "hi");
    assert_eq!(menu[1].label, "Hindi ✓");
    assert!(!menu[1].enabled);
    assert_eq!(menu[32].code, "he");
    let full: Vec<String> = (0..MAX_LANGUAGES).map(|i| format!("x{i}")).collect();
    assert!(language_menu(&full).iter().all(|c| !c.enabled));
}

#[test]
fn row_buttons_depend_on_position() {
    assert_eq!(row_buttons(0, 3), (false, true, true));
    assert_eq!(row_buttons(1, 3), (true, true, true));
    assert_eq!(row_buttons(2, 3), (true, false, true));
    assert_eq!(row_buttons(0, 1), (false, false, true));
}

#[test]
fn track_preferences_round_trip_through_rows() {
    for p in [TrackPreference::Any, TrackPreference::Prefer, TrackPreference::Avoid] {
        assert_eq!(preference_of_row(preference_row(p)), p);
    }
    assert_eq!(preference_row(TrackPreference::Avoid), 2);
    assert_eq!(preference_of_row(7), TrackPreference::Any);
    assert_eq!(preference_of_row(u32::MAX), TrackPreference::Any);
}

use madari::browse::CatalogInfo;
use madari::settings::{addon_subtitle, move_up_order};

fn catalog(search_only: bool, searchable: bool) -> CatalogInfo {
    CatalogInfo {
        content_type: "movie".into(),
        id: "c".into(),
        name: None,
        extras: vec![],
        search_only,
        searchable,
    }
}

#[test]
fn addon_rows_say_what_the_addon_offers() {
    assert_eq!(addon_subtitle("1.0.0", &vec![]), "1.0.0 · Metadata / playback resources");
    assert_eq!(addon_subtitle("2", &vec![catalog(true, true)]), "2 · Search only");
    assert_eq!(addon_subtitle("2", &vec![catalog(true, true), catalog(false, false)]), "2 · Browse and search");
    assert_eq!(addon_subtitle("2", &vec![catalog(false, false)]), "2 · Browse");
}

#[test]
fn moving_an_addon_up_swaps_it_with_the_one_before() {
    let ids = list(&["a", "b", "c"]);
    assert_eq!(move_up_order(&ids, 2), Some(list(&["a", "c", "b"])));
    assert_eq!(move_up_order(&ids, 1), Some(list(&["b", "a", "c"])));
    assert_eq!(move_up_order(&ids, 0), None);
    assert_eq!(move_up_order(&ids, 3), None);
}
