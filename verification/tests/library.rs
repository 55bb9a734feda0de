use madari::episodes::Episode;
use madari::library::{
    continue_card, continue_keys, latest_record, rail_keys, resume_context, resume_step, CardMeta, ItemKey, ResumeStep,
    WatchRecord,
};

fn key(kind: &str, id: &str) -> ItemKey {
    ItemKey { installation_id: "addon".into(), content_type: kind.into(), item_id: id.into() }
}

fn record(kind: &str, id: &str, video: &str, position_ms: u64, completed: bool) -> WatchRecord {
    WatchRecord {
        key: key(kind, id),
        video_id: video.into(),
        position_ms,
        duration_ms: Some(100_000),
        completed,
        resume_ms: if completed { 0 } else { position_ms },
        binge_group: Some(format!("{video}-group")),
        source_provider: Some(format!("{video}-provider")),
    }
}

fn ids(keys: &[ItemKey]) -> Vec<String> {
    keys.iter().map(|k| format!("{}:{}", k.content_type, k.item_id)).collect()
}

#[test]
fn continue_watching_lists_unfinished_titles_newest_first() {
    let records = vec![
        record("movie", "a", "a", 5_000, false),
        record("movie", "b", "b", 0, false),
        record("movie", "c", "c", 90_000, true),
        record("series", "s", "s:1:1", 90_000, true),
        record("movie", "h", "h", 5_000, false),
        record("movie", "a", "a", 7_000, false),
    ];
    let hidden = vec![key("movie", "h")];
    let keys = continue_keys(&records, &hidden);
    assert_eq!(ids(&keys), vec!["movie:a", "series:s", "movie:a"]);
    assert_eq!(ids(&rail_keys(&keys)), vec!["movie:a", "series:s"]);
}

#[test]
fn rails_show_at_most_thirty_titles_once_each() {
    let mut keys: Vec<ItemKey> = (0..40).map(|i| key("movie", &format!("m{i}"))).collect();
    keys.insert(1, key("movie", "m0"));
    let rail = rail_keys(&keys);
    assert_eq!(rail.len(), 30);
    assert_eq!(rail[0].item_id, "m0");
    assert_eq!(rail[1].item_id, "m1");
    assert_eq!(rail[29].item_id, "m29");
    assert!(rail_keys(&vec![]).is_empty());
}

#[test]
fn resuming_uses_the_newest_matching_record() {
    let records = vec![
        record("series", "s", "s:1:1", 10_000, false),
        record("series", "s", "s:1:2", 20_000, false),
        record("series", "s", "s:1:1", 30_000, false),
    ];
    let s = key("series", "s");
    assert_eq!(latest_record(&records, &s, Some("s:1:1")), Some(2));
    assert_eq!(latest_record(&records, &s, Some("s:1:2")), Some(1));
    assert_eq!(latest_record(&records, &s, None), Some(2));
    assert_eq!(latest_record(&records, &key("series", "x"), None), None);
    let (group, provider) = resume_context(&records, &s, "s:1:2");
    assert_eq!(group.as_deref(), Some("s:1:2-group"));
    assert_eq!(provider, "s:1:2-provider");
    let (group, provider) = resume_context(&records, &s, "s:1:9");
    assert_eq!(group.as_deref(), Some("s:1:1-group"));
    assert_eq!(provider, "s:1:1-provider");
    let (group, provider) = resume_context(&records, &key("movie", "m"), "m");
    assert_eq!(group, None);
    assert_eq!(provider, "");
}

fn meta(kind: &str, listed: bool) -> CardMeta {
    CardMeta {
        id: "tt9".into(),
        content_type: kind.into(),
        name: "Title".into(),
        episodes_listed: listed,
        background: Some("bg.jpg".into()),
        poster: Some("poster.jpg".into()),
    }
}

#[test]
fn continue_cards_describe_what_playing_resumes() {
    let records = vec![record("movie", "tt9", "tt9", 65_000, false)];
    let card = continue_card(&key("movie", "tt9"), &meta("movie", false), &None, &None, &records).unwrap();
    assert_eq!(card.video, "tt9");
    assert_eq!(card.status, "Resume at 1:05");
    assert_eq!(card.caption, "Continue movie");
    assert_eq!(card.kind, "Movie");
    assert_eq!(card.label, "Resume at 1:05 · Title · Continue movie");
    assert_eq!(card.saved, Some(0));
    assert_eq!(card.image.as_deref(), Some("bg.jpg"));
    assert!(!card.episode_shown && !card.needs_episodes);

    let next = Episode { id: "tt9:1:3".into(), title: Some("Third".into()), season: Some(1), episode: Some(3) };
    let series_records = vec![record("series", "tt9", "tt9:1:2", 90_000, true)];
    let card = continue_card(
        &key("series", "tt9"),
        &meta("series", true),
        &Some(next),
        &Some("thumb.jpg".into()),
        &series_records,
    )
    .unwrap();
    assert_eq!(card.video, "tt9:1:3");
    assert_eq!(card.caption, "S1 · E3 · Third");
    assert_eq!(card.status, "Play next episode");
    assert_eq!(card.saved, None);
    assert_eq!(card.image.as_deref(), Some("thumb.jpg"));
    assert!(card.episode_shown);
    assert!(continue_card(&key("series", "tt9"), &meta("series", true), &None, &None, &series_records).is_none());

    let card = continue_card(&key("series", "tt9"), &meta("anime", false), &None, &None, &series_records).unwrap();
    assert_eq!(card.video, "tt9:1:2");
    assert_eq!(card.status, "Play next episode");
    assert_eq!(card.kind, "anime");
    assert!(card.needs_episodes);
    let card = continue_card(&key("movie", "tt9"), &meta("movie", false), &None, &None, &vec![]).unwrap();
    assert_eq!(card.status, "Play movie");
    assert_eq!(card.video, "tt9");
}

#[test]
fn resuming_a_title_starts_with_its_default_video() {
    assert_eq!(resume_step("tt1", "movie", &Some("tt1:video".into()), true), ResumeStep::Play("tt1:video".into()));
    assert_eq!(resume_step("tt1", "movie", &Some(String::new()), false), ResumeStep::Play("tt1".into()));
    assert_eq!(resume_step("tt1", "movie", &None, true), ResumeStep::FindEpisode);
    assert_eq!(resume_step("tt1", "series", &Some("x".into()), false), ResumeStep::FindEpisode);
}

use madari::library::{episode_line, needs_artwork, trakt_batch, trakt_list_choices};

#[test]
fn trakt_lists_and_batches() {
    let lists = vec![("Favourites".to_string(), 3usize)];
    assert_eq!(
        trakt_list_choices(10, 0, &lists),
        vec!["Watchlist (10)", "Watched history (0)", "Favourites (3)"]
    );
    assert_eq!(trakt_batch(0, 70), (0, 30, true));
    assert_eq!(trakt_batch(60, 70), (60, 70, false));
    assert_eq!(trakt_batch(0, 30), (0, 30, false));
    assert_eq!(trakt_batch(0, 0), (0, 0, false));
    assert!(needs_artwork(None));
    assert!(needs_artwork(Some("")));
    assert!(!needs_artwork(Some("https://img")));
    assert_eq!(episode_line(Some(2), Some(5)).as_deref(), Some("S2 · E5"));
    assert_eq!(episode_line(Some(2), None), None);
}

use madari::library::{hero_eyebrow, hero_play_label};

#[test]
fn hero_buttons_offer_to_resume_or_watch_again() {
    assert_eq!(hero_eyebrow("series", false), "SERIES");
    assert_eq!(hero_eyebrow("movie", true), "MOVIE");
    assert_eq!(hero_eyebrow("movie", false), "FEATURED FILM");
    let s = key("series", "s");
    let next = Episode { id: "s:2:3".into(), title: None, season: Some(2), episode: Some(3) };
    let records = vec![record("series", "s", "s:2:3", 10_000, false)];
    assert_eq!(hero_play_label(Some(&next), true, Some(&records), &s), "Resume S2 · E3");
    assert_eq!(hero_play_label(Some(&next), true, None, &s), "Play S2 · E3");
    let unnumbered = Episode { id: "x".into(), title: None, season: None, episode: None };
    assert_eq!(hero_play_label(Some(&unnumbered), true, Some(&records), &s), "Play S1 · E1");
    let done = vec![record("series", "s", "s:1:1", 90_000, true)];
    assert_eq!(hero_play_label(None, true, Some(&done), &s), "Watch again");
    assert_eq!(hero_play_label(None, false, Some(&done), &s), "▶  Play");
    assert_eq!(hero_play_label(None, true, None, &s), "▶  Play");
}
