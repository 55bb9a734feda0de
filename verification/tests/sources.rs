use madari::sources::{addon_choices, source_card};

fn group(id: &str, name: &str, count: usize) -> (String, String, usize) {
    (id.into(), name.into(), count)
}

#[test]
fn addon_tabs_merge_installations_and_number_duplicate_names() {
    let groups = vec![
        group("a", "Torrentio", 2),
        group("b", "Torrentio", 1),
        group("a", "Ignored name", 3),
        group("c", "Other", 4),
        group("d", "Torrentio", 0),
    ];
    let choices = addon_choices(&groups);
    assert_eq!(
        choices,
        vec![
            (None, "All addons".to_string(), 10),
            (Some("a".to_string()), "Torrentio".to_string(), 5),
            (Some("b".to_string()), "Torrentio (2)".to_string(), 1),
            (Some("c".to_string()), "Other".to_string(), 4),
            (Some("d".to_string()), "Torrentio (3)".to_string(), 0),
        ]
    );
    assert_eq!(addon_choices(&vec![]), vec![(None, "All addons".to_string(), 0)]);
}

#[test]
fn source_cards_split_names_and_titles_into_lines() {
    let card = source_card(
        Some("Torrentio\n\n1080p\r\nHDR"),
        Some("Show.S01E01.mkv\n  \n👤 12 💾 1.2 GB\nEnglish"),
        true,
        None,
        "show.mkv",
        false,
    );
    assert_eq!(card.heading, "Torrentio");
    assert_eq!(card.quality, "1080p · HDR");
    assert_eq!(card.title.as_deref(), Some("Show.S01E01.mkv"));
    assert_eq!(card.details, "👤 12 💾 1.2 GB · English");
    assert_eq!(card.kind, "Torrent");
    assert_eq!(
        card.tooltip,
        "Torrentio\n\n1080p\r\nHDR\nShow.S01E01.mkv\n  \n👤 12 💾 1.2 GB\nEnglish\nshow.mkv"
    );
}

#[test]
fn source_card_fallbacks_and_kinds() {
    let card = source_card(None, None, false, Some("magnet:?xt=urn"), "", false);
    assert_eq!(card.heading, "Video source");
    assert_eq!(card.quality, "");
    assert_eq!(card.title, None);
    assert_eq!(card.kind, "Torrent");
    assert_eq!(card.tooltip, "Video source");
    assert_eq!(source_card(Some("  "), None, false, Some("https://x/y"), "", false).kind, "Direct stream");
    assert_eq!(source_card(Some("  "), None, false, Some("https://x/y"), "", false).heading, "Video source");
    assert_eq!(source_card(None, None, false, None, "", false).kind, "External source");
    assert_eq!(source_card(None, None, true, None, "", true).kind, "Now playing");
}

use madari::player::fingerprint;
use madari::sources::{matching_source, Continuation};

fn provider(id: &str, group: &str, wanted: &str) -> Continuation {
    Continuation {
        provider: id.to_string(),
        same_group: !wanted.is_empty() && group == wanted,
        source_json: format!(
            "{{\"url\":\"https://example.com/{id}\",\"behaviorHints\":{{\"bingeGroup\":\"{group}\"}}}}"
        ),
    }
}

#[test]
fn continuation_prefers_saved_provider_and_skips_failed_sources() {
    let results = vec![provider("other", "exact", "exact"), provider("saved", "exact", "exact")];
    let preferred = "saved".to_string();
    let mut attempted: Vec<String> = Vec::new();
    let chosen = matching_source(&results, &preferred, &attempted).unwrap();
    assert_eq!(results[chosen].provider, "saved");
    attempted.push(fingerprint(&results[chosen].provider, &results[chosen].source_json));
    let chosen = matching_source(&results, &preferred, &attempted).unwrap();
    assert_eq!(results[chosen].provider, "other");
    attempted.push(fingerprint(&results[chosen].provider, &results[chosen].source_json));
    assert!(matching_source(&results, &preferred, &attempted).is_none());
}

#[test]
fn unmatched_or_missing_group_leaves_streams_for_picker() {
    let attempted: Vec<String> = Vec::new();
    let preferred = "saved".to_string();
    for group in ["", "Quality", "missing"] {
        let results = vec![provider("saved", "quality-higher", group), provider("other", "quality", group)];
        assert!(matching_source(&results, &preferred, &attempted).is_none());
    }
    let results = vec![provider("saved", "quality-higher", "quality"), provider("other", "quality", "quality")];
    let chosen = matching_source(&results, &preferred, &attempted).unwrap();
    assert_eq!(results[chosen].provider, "other");
    assert_eq!(results.len(), 2);
}

#[test]
fn fingerprint_is_the_hex_digest_of_provider_and_source() {
    assert_eq!(
        fingerprint("saved", "{}"),
        "00c4f2d60448aa469e4476294f0f37270569112c600959c561ea01953bcc3142"
    );
    assert_eq!(
        fingerprint("prov", "ü"),
        "fec3185930405d075abe46f945051b06be79734b70a6eac238411912335f9a49"
    );
    assert_ne!(fingerprint("a", "b"), fingerprint("b", "a"));
}

use madari::sources::source_labels;

#[test]
fn source_labels_name_addons_and_mark_the_playing_source() {
    let choices = vec![("a".to_string(), "{}".to_string()), ("gone".to_string(), "{}".to_string())];
    let addons = vec![("a".to_string(), "Torrentio".to_string())];
    let current = fingerprint("a", "{}");
    let labels = source_labels(&choices, &current, &addons);
    assert_eq!(labels, vec![("Torrentio".to_string(), true), ("Addon".to_string(), false)]);
}

use madari::episodes::Episode;
use madari::sources::{
    continue_step, failure_line, launch_plan, offers_transcode, playing_title, transcode_enabled, ContinueStep,
    DeliveryKind, LaunchPlan,
};

#[test]
fn continuation_gives_up_without_a_group_or_after_three_tries() {
    assert_eq!(continue_step(false, 0, true), ContinueStep::ChooseSource);
    assert_eq!(continue_step(true, 3, false), ContinueStep::ChooseSource);
    assert_eq!(continue_step(true, 3, true), ContinueStep::MatchGroup);
    assert_eq!(continue_step(true, 2, false), ContinueStep::MatchGroup);
}

#[test]
fn prepared_sources_launch_with_the_right_offsets() {
    assert_eq!(
        launch_plan(DeliveryKind::Direct, true, false, false, 5_000, 0),
        Ok(LaunchPlan { transcode_path: false, with_headers: true, resume_ms: 5_000, offset_ms: 0 })
    );
    assert_eq!(
        launch_plan(DeliveryKind::Torrent, true, true, false, 5_000, 4_000),
        Ok(LaunchPlan { transcode_path: true, with_headers: false, resume_ms: 0, offset_ms: 4_000 })
    );
    assert_eq!(
        launch_plan(DeliveryKind::Torrent, true, true, true, 5_000, 4_000),
        Ok(LaunchPlan { transcode_path: false, with_headers: false, resume_ms: 5_000, offset_ms: 0 })
    );
    assert!(launch_plan(DeliveryKind::Other, false, false, false, 0, 0).unwrap_err().starts_with("This source needs a companion"));
    assert!(launch_plan(DeliveryKind::Other, false, true, false, 0, 0).unwrap_err().starts_with("This source type is not supported"));
    assert!(transcode_enabled(true, true));
    assert!(!transcode_enabled(true, false));
}

#[test]
fn playing_titles_and_source_rows() {
    let e = Episode { id: "s:1:2".into(), title: Some("Two".into()), season: Some(1), episode: Some(2) };
    assert_eq!(playing_title(Some("Show"), Some(&e)), "Show · S1 · E2 · Two");
    assert_eq!(playing_title(None, None), "Now playing");
    assert!(offers_transcode(true, true, None));
    assert!(offers_transcode(true, false, Some("magnet:?xt=urn:btih:abc")));
    assert!(!offers_transcode(true, false, Some("https://x")));
    assert!(!offers_transcode(false, true, None));
    assert_eq!(failure_line("Torrentio", false, "timed out").as_deref(), Some("Torrentio: timed out"));
    assert_eq!(failure_line("Torrentio", true, "unsupported"), None);
}

use madari::sources::visible_streams;

#[test]
fn addon_tabs_show_their_streams() {
    let ids = vec!["a".to_string(), "b".to_string(), "a".to_string()];
    assert_eq!(visible_streams(&ids, None), vec![true, true, true]);
    assert_eq!(visible_streams(&ids, Some("a")), vec![true, false, true]);
    assert_eq!(visible_streams(&ids, Some("c")), vec![false, false, false]);
}
