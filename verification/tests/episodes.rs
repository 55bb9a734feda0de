use madari::episodes::{episode_title, progress_text, release_timestamp, Episode, SavedProgress};

#[test]
fn episode_titles_number_and_fall_back_to_ids() {
    let e = Episode { id: "tt1:1:2".into(), title: Some("Pilot".into()), season: Some(1), episode: Some(2) };
    assert_eq!(episode_title(&e), "S1 · E2 · Pilot");
    let e = Episode { id: "tt1:1:2".into(), title: None, season: Some(1), episode: None };
    assert_eq!(episode_title(&e), "Episode · tt1:1:2");
}

#[test]
fn progress_lines_describe_saved_progress() {
    assert_eq!(progress_text(None), "Not watched");
    let p = |completed, position_ms, resume_ms| Some(SavedProgress { completed, position_ms, resume_ms });
    assert_eq!(progress_text(p(true, 0, 0)), "Watched");
    assert_eq!(progress_text(p(false, 0, 0)), "Not watched");
    assert_eq!(progress_text(p(false, 5_000, 0)), "Play from beginning");
    assert_eq!(progress_text(p(false, 65_000, 65_000)), "Resume at 1:05");
    assert_eq!(progress_text(p(false, 3_725_999, 1)), "Resume at 62:05");
}

#[test]
fn bare_release_dates_become_midnight_utc() {
    assert_eq!(release_timestamp("2024-02-29"), "2024-02-29T00:00:00Z");
    assert_eq!(release_timestamp("2026-01-01T00:30:00+02:00"), "2026-01-01T00:30:00+02:00");
    assert_eq!(release_timestamp("invalid"), "invalid");
}

use madari::episodes::{episode_icon, episode_status, initial_season, season_episodes, season_name, seasons};

fn ep(id: &str, season: Option<u64>, episode: Option<u64>) -> Episode {
    Episode { id: id.into(), title: None, season, episode }
}

#[test]
fn seasons_are_sorted_once_each_with_unnumbered_first() {
    let videos = vec![
        ep("a", Some(2), Some(1)),
        ep("b", Some(1), Some(2)),
        ep("c", None, None),
        ep("d", Some(0), Some(1)),
        ep("e", Some(1), Some(1)),
        ep("f", Some(2), None),
    ];
    let list = seasons(&videos);
    assert_eq!(list, vec![None, Some(0), Some(1), Some(2)]);
    let names: Vec<String> = list.iter().map(|s| season_name(*s)).collect();
    assert_eq!(names, vec!["Episodes", "Specials", "Season 1", "Season 2"]);
    assert_eq!(initial_season(&videos, &list, Some("a")), 3);
    assert_eq!(initial_season(&videos, &list, Some("missing")), 0);
    assert_eq!(initial_season(&videos, &list, None), 0);
    let no_unnumbered = vec![ep("x", Some(3), Some(1)), ep("y", Some(1), Some(1))];
    let list = seasons(&no_unnumbered);
    assert_eq!(list, vec![Some(1), Some(3)]);
    assert_eq!(initial_season(&no_unnumbered, &list, None), 0);
    assert_eq!(initial_season(&no_unnumbered, &list, Some("x")), 1);
    assert!(seasons(&vec![]).is_empty());
}

#[test]
fn season_episodes_follow_episode_numbers_stably() {
    let videos = vec![
        ep("a", Some(1), Some(3)),
        ep("b", Some(1), Some(1)),
        ep("c", Some(2), Some(1)),
        ep("d", Some(1), None),
        ep("e", Some(1), Some(1)),
    ];
    assert_eq!(season_episodes(&videos, Some(1)), vec![3, 1, 4, 0]);
    assert_eq!(season_episodes(&videos, Some(2)), vec![2]);
    assert!(season_episodes(&videos, None).is_empty());
}

#[test]
fn episode_rows_show_release_and_progress_state() {
    assert_eq!(episode_status(false, None), "Not yet released");
    assert_eq!(
        episode_status(true, Some(SavedProgress { completed: true, position_ms: 1, resume_ms: 0 })),
        "Watched"
    );
    assert_eq!(episode_status(true, None), "Not watched");
    assert_eq!(episode_icon(true, true), "media-playback-start-symbolic");
    assert_eq!(episode_icon(false, true), "object-select-symbolic");
    assert_eq!(episode_icon(false, false), "go-next-symbolic");
}
