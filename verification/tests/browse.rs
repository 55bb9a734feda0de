use madari::browse::{
    add_featured, catalog_heading, empty_home_text, field_label, filter_fields, form_values, home_catalogs,
    needs_filters, search_catalogs, search_prompt, section_for, skip_value, AddonInfo, CatalogExtra, CatalogInfo,
    GridLoad, GridPoll,
};
use madari::catalogs::CatalogItem;

fn extra(name: &str, required: bool, options: Option<Vec<&str>>) -> CatalogExtra {
    CatalogExtra {
        name: name.into(),
        required,
        options: options.map(|o| o.into_iter().map(String::from).collect()),
    }
}

fn catalog(kind: &str, id: &str, extras: Vec<CatalogExtra>, search_only: bool, searchable: bool) -> CatalogInfo {
    CatalogInfo { content_type: kind.into(), id: id.into(), name: None, extras, search_only, searchable }
}

fn addons() -> Vec<AddonInfo> {
    vec![
        AddonInfo {
            installation_id: "one".into(),
            name: "One".into(),
            enabled: true,
            catalogs: vec![
                catalog("movie", "top", vec![], false, true),
                catalog("series", "updates", vec![extra("lastVideosIds", false, None)], false, false),
                catalog("series", "search", vec![extra("search", true, None)], true, true),
                catalog("series", "popular", vec![], false, false),
            ],
        },
        AddonInfo {
            installation_id: "two".into(),
            name: "Two".into(),
            enabled: false,
            catalogs: vec![catalog("movie", "hidden", vec![], false, true)],
        },
        AddonInfo {
            installation_id: "three".into(),
            name: "Three".into(),
            enabled: true,
            catalogs: vec![catalog("movie", "new", vec![], false, true)],
        },
    ]
}

#[test]
fn home_and_search_choose_catalogs_addon_by_addon() {
    let a = addons();
    assert_eq!(home_catalogs(&a, None), vec![(0, 0), (0, 3), (2, 0)]);
    assert_eq!(home_catalogs(&a, Some("movie")), vec![(0, 0), (2, 0)]);
    assert_eq!(home_catalogs(&a, Some("series")), vec![(0, 3)]);
    assert_eq!(search_catalogs(&a), vec![(0, 0), (0, 2), (2, 0)]);
    assert!(home_catalogs(&vec![], None).is_empty());
}

#[test]
fn catalogs_with_required_filters_ask_first() {
    let genre = catalog("movie", "g", vec![extra("genre", true, None), extra("skip", true, None)], false, false);
    assert!(needs_filters(&genre, false));
    let search = catalog("movie", "s", vec![extra("search", true, None), extra("skip", true, None)], false, true);
    assert!(needs_filters(&search, false));
    assert!(!needs_filters(&search, true));
    let mut named = catalog("movie", "id", vec![], false, true);
    assert_eq!(catalog_heading(&named, None), "id");
    named.name = Some("Popular".into());
    assert_eq!(catalog_heading(&named, Some("Cinemeta")), "Popular · Cinemeta");
}

#[test]
fn filter_forms_validate_values() {
    let c = catalog(
        "movie",
        "g",
        vec![
            extra("skip", false, None),
            extra("genre", true, Some(vec!["Drama", "Comedy"])),
            extra("search", false, None),
        ],
        false,
        true,
    );
    let fields = filter_fields(&c);
    assert_eq!(fields, vec![1, 2]);
    assert_eq!(field_label(&c.extras[1]), "genre (required)");
    assert_eq!(field_label(&c.extras[2]), "search");
    let refs: Vec<&CatalogExtra> = fields.iter().map(|&i| &c.extras[i]).collect();
    assert_eq!(
        form_values(&refs, &vec![" Drama ".into(), "  ".into()]),
        Ok(vec![("genre".to_string(), "Drama".to_string())])
    );
    assert_eq!(
        form_values(&refs, &vec!["Drama".into(), "bunny".into()]),
        Ok(vec![("genre".to_string(), "Drama".to_string()), ("search".to_string(), "bunny".to_string())])
    );
    assert_eq!(form_values(&refs, &vec!["".into(), "x".into()]), Err("Enter a valid value for genre.".to_string()));
    assert_eq!(form_values(&refs, &vec!["Horror".into(), "x".into()]), Err("Enter a valid value for genre.".to_string()));
}

#[test]
fn grids_page_with_skip_and_report_their_state() {
    assert_eq!(skip_value(true, 200).as_deref(), Some("200"));
    assert_eq!(skip_value(true, 0).as_deref(), Some("0"));
    assert_eq!(skip_value(false, 200), None);
    let mut g = GridLoad::new();
    assert_eq!(g.poll(true, true), GridPoll::Load);
    assert!(g.begin());
    assert!(!g.begin());
    assert_eq!(g.poll(true, true), GridPoll::Wait);
    assert_eq!(g.fail(), "Couldn’t load titles. Check your connection and retry.");
    assert_eq!(g.poll(true, true), GridPoll::Wait);
    assert!(g.begin());
    g.arrived(false);
    assert_eq!(g.shown(true), "Scroll for more");
    assert_eq!(g.poll(false, true), GridPoll::Wait);
    assert_eq!(g.poll(true, true), GridPoll::Load);
    assert!(g.begin());
    g.arrived(true);
    assert_eq!(g.shown(true), "All titles loaded.");
    assert_eq!(g.poll(true, true), GridPoll::Stop);
    let mut empty = GridLoad::new();
    empty.begin();
    empty.arrived(true);
    assert_eq!(empty.shown(false), "No titles found.");
}

fn item(kind: &str, id: &str) -> CatalogItem {
    CatalogItem { content_type: kind.into(), id: id.into(), name: id.into() }
}

#[test]
fn featured_titles_come_once_from_each_catalogs_first_page() {
    let mut pool: Vec<(String, String)> = Vec::new();
    let added = add_featured(&mut pool, &vec![item("movie", "a"), item("movie", "b"), item("movie", "a")]);
    assert_eq!(added, vec![0, 1]);
    let added = add_featured(&mut pool, &vec![item("series", "a"), item("movie", "b")]);
    assert_eq!(added, vec![0]);
    assert_eq!(pool.len(), 3);
    let many: Vec<CatalogItem> = (0..30).map(|i| item("movie", &format!("m{i}"))).collect();
    let added = add_featured(&mut pool, &many);
    assert_eq!(added.len(), 24);
    assert_eq!(pool.len(), 27);
}

#[test]
fn navigation_and_prompts() {
    assert_eq!(section_for(Some("movie")), "Movies");
    assert_eq!(section_for(Some("series")), "Series");
    assert_eq!(section_for(Some("tv")), "Home");
    assert_eq!(section_for(None), "Home");
    assert!(empty_home_text(true).starts_with("An adult"));
    assert!(empty_home_text(false).starts_with("Add your favorite addons"));
    assert_eq!(search_prompt("   "), Some("Enter a movie or show title."));
    assert_eq!(search_prompt(" bunny "), None);
}
