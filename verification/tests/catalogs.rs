use madari::catalogs::{CatalogItem, Pages};

fn meta(id: &str) -> CatalogItem {
    CatalogItem {
        content_type: "movie".into(),
        id: id.into(),
        name: id.into(),
    }
}

#[test]
fn paging_uses_standard_offsets_and_stops_repeated_pages() {
    let mut pages = Pages::default();
    let batch = || (0..100).map(|i| meta(&format!("id{i}"))).collect();
    assert!(!pages.append(batch(), true).1);
    assert_eq!(pages.offset, 100);
    assert!(pages.append(batch(), true).1);
    assert_eq!(pages.offset, 200);
}

#[test]
fn short_pages_and_unpaginated_catalogs_stop() {
    assert!(Pages::default().append(vec![meta("a")], true).1);
    assert!(Pages::default().append(vec![], true).1);
    assert!(Pages::default().append(vec![meta("a")], false).1);
}

#[test]
fn repeated_titles_inside_a_page_are_shown_once() {
    let mut pages = Pages::default();
    let mut items = vec![meta("a"), meta("b"), meta("a")];
    items.push(CatalogItem {
        content_type: "series".into(),
        id: "a".into(),
        name: "a".into(),
    });
    let (fresh, exhausted) = pages.append(items, true);
    let ids: Vec<_> = fresh.iter().map(|m| (m.content_type.as_str(), m.id.as_str())).collect();
    assert_eq!(ids, vec![("movie", "a"), ("movie", "b"), ("series", "a")]);
    assert!(exhausted);
    let (fresh, _) = pages.append(vec![meta("b"), meta("c")], true);
    assert_eq!(fresh.len(), 1);
    assert_eq!(fresh[0].id, "c");
}

#[test]
fn offset_saturates() {
    let mut pages = Pages::default();
    pages.offset = usize::MAX - 50;
    pages.append(vec![], true);
    assert_eq!(pages.offset, usize::MAX);
}
