use madari::details::{field, hero_facts, trailers, web_link, Json, TitleMeta};

fn text(s: &str) -> Json {
    Json::Text(s.to_string())
}

fn object(fields: Vec<(&str, Json)>) -> Json {
    Json::Object(fields.into_iter().map(|(k, v)| (k.to_string(), v)).collect())
}

fn meta(extra: Vec<(&str, Json)>) -> TitleMeta {
    TitleMeta {
        id: "tt1".to_string(),
        content_type: "series".to_string(),
        name: "Show".to_string(),
        extra: extra.into_iter().map(|(k, v)| (k.to_string(), v)).collect(),
    }
}

fn rich() -> TitleMeta {
    meta(vec![
        ("genre", Json::Array(vec![text("Drama")])),
        ("year", text("2026")),
        ("imdbRating", Json::Number("8.2".to_string())),
        ("director", object(vec![("name", text("A Director"))])),
        ("cast", Json::Array(vec![text("A"), object(vec![("name", text("B"))])])),
        (
            "trailers",
            Json::Array(vec![
                object(vec![("source", text("abcdefghijk")), ("type", text("Trailer"))]),
                object(vec![("url", text("file:///secret"))]),
            ]),
        ),
        ("trailerStreams", Json::Array(vec![object(vec![("ytId", text("abcdefghijk"))])])),
    ])
}

#[test]
fn rich_metadata_handles_aliases_objects_and_numeric_ratings() {
    let meta = rich();
    assert!(hero_facts(&meta).contains(&"IMDb 8.2/10".to_string()));
    assert!(hero_facts(&meta).contains(&"Drama".to_string()));
    assert_eq!(field(&meta, &["cast"]), vec!["A", "B"]);
    assert_eq!(field(&meta, &["director"]), vec!["A Director"]);
    assert_eq!(trailers(&meta).len(), 1);
    assert!(web_link("javascript:alert(1)").is_none());
}

#[test]
fn hero_facts_keep_order_join_aliases_and_cap_genres() {
    assert_eq!(hero_facts(&rich()), vec!["2026", "IMDb 8.2/10", "Drama"]);
    let meta = meta(vec![
        ("year", text("1999")),
        ("releaseInfo", Json::Array(vec![text(" 2001 "), text("2003"), Json::Null])),
        ("runtime", text("   ")),
        ("ageRating", text("PG")),
        ("genres", Json::Array(vec![text("A"), text("B"), text("C"), text("D")])),
        ("genre", text("Ignored")),
    ]);
    assert_eq!(hero_facts(&meta), vec!["2001, 2003", "PG", "A", "B", "C"]);
    assert!(hero_facts(&meta_empty()).is_empty());
}

fn meta_empty() -> TitleMeta {
    meta(vec![("runtime", Json::Bool(true)), ("genres", Json::Array(vec![]))])
}

#[test]
fn fields_fall_back_to_later_aliases_and_skip_empty_values() {
    let meta = meta(vec![
        ("a", Json::Array(vec![Json::Null, text("  ")])),
        ("b", object(vec![("title", text("x"))])),
        ("c", Json::Number("3".to_string())),
    ]);
    assert_eq!(field(&meta, &["missing", "a", "b", "c"]), vec!["3"]);
    assert!(field(&meta, &["a", "b"]).is_empty());
    assert!(field(&meta, &[]).is_empty());
}

#[test]
fn trailers_prefer_web_links_then_video_ids_each_url_once() {
    let meta = meta(vec![
        (
            "trailers",
            Json::Array(vec![
                object(vec![("url", text("https://example.org/t")), ("title", text("Teaser"))]),
                object(vec![("ytId", text("short")), ("source", text("abcdefghijk"))]),
                object(vec![("source", text("abc-efg_ijk"))]),
                object(vec![("url", text("https://example.org/t")), ("title", text("Again"))]),
                text("not an object"),
            ]),
        ),
        ("trailerStreams", Json::Array(vec![object(vec![("ytId", text("abcdefghij!"))])])),
    ]);
    assert_eq!(
        trailers(&meta),
        vec![
            ("Teaser".to_string(), "https://example.org/t".to_string()),
            ("Trailer".to_string(), "https://www.youtube.com/watch?v=abc-efg_ijk".to_string()),
        ]
    );
}

#[test]
fn web_links_are_normalized_and_refuse_credentials() {
    assert_eq!(web_link("HTTPS://Example.org").as_deref(), Some("https://example.org/"));
    assert_eq!(web_link("http://example.org/a b").as_deref(), Some("http://example.org/a%20b"));
    assert!(web_link("https://user:pw@example.org/").is_none());
    assert!(web_link("https://user@example.org/").is_none());
    assert!(web_link("file:///secret").is_none());
    assert!(web_link("not a url").is_none());
}

use madari::details::{detail_rows, extra_links};

#[test]
fn details_table_lists_filled_rows_in_order() {
    let meta = meta(vec![
        ("directors", Json::Array(vec![text("A"), text("B")])),
        ("released", text("2020-01-01")),
        ("languages", Json::Array(vec![text("en"), text("pt-BR"), text("xx")])),
        ("imdbRating", Json::Number("7.5".to_string())),
        ("status", text("  ")),
        ("awards", object(vec![("name", text("Oscar"))])),
    ]);
    let rows = detail_rows(&meta);
    let shown: Vec<String> = rows.iter().map(|(t, v)| format!("{t}: {v}")).collect();
    assert_eq!(
        shown,
        vec![
            "Director: A, B",
            "Release: 2020-01-01",
            "IMDb: 7.5",
            "Language: English, Portuguese (Brazil), xx",
            "Awards: Oscar",
        ]
    );
    assert!(detail_rows(&self::meta(vec![])).is_empty());
}

#[test]
fn explore_links_keep_named_web_links_from_the_first_twelve() {
    let mut items = vec![
        object(vec![("name", text("Site")), ("url", text("https://example.org"))]),
        object(vec![("name", text("Local")), ("url", text("file:///x"))]),
        object(vec![("url", text("https://nameless.org"))]),
    ];
    for i in 0..12 {
        items.push(object(vec![("name", text(&format!("L{i}"))), ("url", text(&format!("https://l{i}.org")))]));
    }
    let links = extra_links(&meta(vec![("links", Json::Array(items))]));
    assert_eq!(links.len(), 10);
    assert_eq!(links[0], ("Site".to_string(), "https://example.org/".to_string()));
    assert_eq!(links[1], ("L0".to_string(), "https://l0.org/".to_string()));
    assert_eq!(links[9].0, "L8");
    assert!(extra_links(&meta(vec![("links", text("no"))])).is_empty());
}
