use madari::player::{
    automatic_track, change_warning, chapter_title, countdown_label, fit_settings, header_fields, intro_hint,
    is_http_url, next_hint, progress_position, start_properties, subtitle_command, HintContext, WorkerFlags,
};
use madari::tracks::Track;
use madari::up_next::Chapter;

fn chapter(title: &str, start: u64) -> Chapter {
    Chapter { index: 0, title: title.into(), start_ms: Some(start) }
}

fn full_player() -> HintContext {
    HintContext { series: true, seekable: true, awaiting_next: false, mini: false, pip: false, dismissed: false }
}

fn track(id: i64, kind: &str, selected: bool) -> Track {
    Track {
        id,
        kind: kind.into(),
        title: String::new(),
        language: String::new(),
        hearing_impaired: false,
        forced: false,
        visual_impaired: false,
        commentary: false,
        selected,
    }
}

#[test]
fn only_web_addresses_count_as_http() {
    assert!(is_http_url("https://example.org/a.srt"));
    assert!(is_http_url("HTTP://example.org"));
    assert!(!is_http_url("file:///etc/passwd"));
    assert!(!is_http_url("example.org/a.srt"));
}

#[test]
fn saved_positions_stay_within_the_duration() {
    assert_eq!(progress_position(5_000, Some(10_000), false), 5_000);
    assert_eq!(progress_position(15_000, Some(10_000), false), 10_000);
    assert_eq!(progress_position(5_000, Some(10_000), true), 10_000);
    assert_eq!(progress_position(5_000, None, true), 5_000);
    assert_eq!(progress_position(5_000, None, false), 5_000);
}

#[test]
fn fit_modes_set_player_properties() {
    let fill = fit_settings("fill");
    assert_eq!((fill.keepaspect, fill.video_unscaled, fill.panscan, fill.message), ("yes", "no", "1", "Fill / crop"));
    let stretch = fit_settings("stretch");
    assert_eq!((stretch.keepaspect, stretch.message), ("no", "Stretch"));
    let original = fit_settings("original");
    assert_eq!((original.video_unscaled, original.message), ("yes", "Original size"));
    let fit = fit_settings("anything");
    assert_eq!((fit.keepaspect, fit.video_unscaled, fit.panscan, fit.video_zoom, fit.message), ("yes", "no", "0", "0", "Fit to window"));
}

#[test]
fn hints_show_only_in_the_full_player_of_a_series() {
    let chapters = [chapter("Cold open", 0), chapter("Opening credits", 60_000), chapter("Episode", 150_000)];
    assert_eq!(intro_hint(full_player(), Some(70_000), &chapters, 0), Some(150_000));
    assert_eq!(intro_hint(full_player(), None, &chapters, 0), None);
    let mini = HintContext { mini: true, ..full_player() };
    assert_eq!(intro_hint(mini, Some(70_000), &chapters, 0), None);
    let not_seekable = HintContext { seekable: false, ..full_player() };
    assert_eq!(intro_hint(not_seekable, Some(70_000), &chapters, 0), None);
    assert!(next_hint(full_player(), Some(960_000), Some(1_000_000), &[], 0));
    assert!(!next_hint(full_player(), Some(900_000), Some(1_000_000), &[], 0));
    assert!(!next_hint(full_player(), Some(960_000), None, &[], 0));
    let dismissed = HintContext { dismissed: true, ..full_player() };
    assert!(!next_hint(dismissed, Some(960_000), Some(1_000_000), &[], 0));
    let movie = HintContext { series: false, ..full_player() };
    assert!(!next_hint(movie, Some(960_000), Some(1_000_000), &[], 0));
}

#[test]
fn countdown_and_warnings_read_naturally() {
    assert_eq!(countdown_label(5), "Next episode · 5s");
    assert_eq!(countdown_label(0), "Next episode · 0s");
    assert_eq!(change_warning("sub-scale"), "Could not change sub scale.");
    assert_eq!(change_warning(""), "Could not change .");
}

#[test]
fn manual_track_choices_end_automatic_selection() {
    let mut flags = WorkerFlags { auto_audio: false, auto_subtitles: false, tracks_due: false };
    flags.start();
    assert_eq!(flags, WorkerFlags { auto_audio: true, auto_subtitles: true, tracks_due: false });
    flags.set("volume");
    assert_eq!(flags, WorkerFlags { auto_audio: true, auto_subtitles: true, tracks_due: true });
    flags.set("aid");
    assert!(!flags.auto_audio && flags.auto_subtitles);
    flags.start();
    flags.run(&vec!["cycle".to_string(), "sid".to_string()]);
    assert!(flags.auto_audio && !flags.auto_subtitles);
    flags.start();
    flags.run(&vec!["sub-add".to_string(), "https://x/s.srt".to_string()]);
    assert!(flags.auto_audio && !flags.auto_subtitles);
    flags.start();
    flags.run(&vec!["seek".to_string(), "10".to_string()]);
    assert!(flags.auto_audio && flags.auto_subtitles && flags.tracks_due);
}

#[test]
fn automatic_tracks_switch_only_when_needed() {
    let tracks = [track(1, "audio", true), track(2, "audio", false), track(1, "sub", false)];
    assert_eq!(automatic_track(true, Some(2), "audio", &tracks), Some(2));
    assert_eq!(automatic_track(true, Some(1), "audio", &tracks), None);
    assert_eq!(automatic_track(true, Some(1), "sub", &tracks), Some(1));
    assert_eq!(automatic_track(false, Some(2), "audio", &tracks), None);
    assert_eq!(automatic_track(true, None, "audio", &tracks), None);
}

#[test]
fn request_headers_carry_their_byte_lengths() {
    let headers = vec![
        ("Referer".to_string(), "https://a.b/".to_string()),
        ("X-Name".to_string(), "é".to_string()),
    ];
    assert_eq!(header_fields(&headers), "%21%Referer: https://a.b/,%10%X-Name: é");
    assert_eq!(header_fields(&vec![]), "");
}

#[test]
fn chapters_without_titles_are_numbered() {
    assert_eq!(chapter_title(0, None), "Chapter 1");
    assert_eq!(chapter_title(4, Some(String::new())), "Chapter 5");
    assert_eq!(chapter_title(4, Some("Intro".to_string())), "Intro");
}

#[test]
fn subtitles_are_added_only_from_web_addresses() {
    assert_eq!(
        subtitle_command("https://example.org/en.srt", "eng"),
        Some(vec![
            "sub-add".to_string(),
            "https://example.org/en.srt".to_string(),
            "auto".to_string(),
            "English".to_string(),
            "eng".to_string(),
        ])
    );
    assert!(subtitle_command("file:///tmp/en.srt", "eng").is_none());
}

#[test]
fn start_properties_follow_language_preferences() {
    let pairs = |v: Vec<(String, String)>| v.into_iter().map(|(a, b)| format!("{a}={b}")).collect::<Vec<_>>();
    assert_eq!(
        pairs(start_properties(&vec!["fr".into(), "de".into()], &vec!["en".into()], true)),
        vec!["alang=fr,de", "slang=en", "aid=auto", "subs-with-matching-audio=yes", "sid=auto"]
    );
    assert_eq!(
        pairs(start_properties(&vec![], &vec![], false)),
        vec!["alang=", "slang=", "aid=auto", "sid=no"]
    );
}

use madari::player::{ended_completed, start_timed_out};

#[test]
fn playback_that_reaches_the_end_completes_near_the_duration() {
    assert!(ended_completed(true, true, Some(19_000), Some(20_000)));
    assert!(!ended_completed(true, true, Some(18_999), Some(20_000)));
    assert!(ended_completed(true, true, Some(98_500), Some(100_000)));
    assert!(!ended_completed(true, true, Some(98_499), Some(100_000)));
    assert!(ended_completed(true, true, Some(3_598_500), Some(3_600_000)));
    assert!(!ended_completed(true, true, Some(3_598_499), Some(3_600_000)));
    assert!(!ended_completed(false, true, Some(100_000), Some(100_000)));
    assert!(!ended_completed(true, false, Some(100_000), Some(100_000)));
    assert!(!ended_completed(true, true, None, Some(100_000)));
    assert!(!ended_completed(true, true, Some(0), Some(0)));
    assert!(start_timed_out(false, 60_001));
    assert!(!start_timed_out(false, 60_000));
    assert!(!start_timed_out(true, 90_000));
}

use madari::player::finish_completed;

#[test]
fn ending_twice_records_once() {
    assert_eq!(finish_completed(false, false, true), Some(true));
    assert_eq!(finish_completed(false, true, false), Some(true));
    assert_eq!(finish_completed(false, false, false), Some(false));
    assert_eq!(finish_completed(true, true, true), None);
}

use madari::player::{action_gate, ActionGate};

#[test]
fn manual_choices_hold_until_the_next_video() {
    let mut flags = WorkerFlags { auto_audio: true, auto_subtitles: true, tracks_due: false };
    flags.set("aid");
    flags.run(&vec!["cycle".to_string(), "pause".to_string()]);
    flags.set("volume");
    assert_eq!(flags.automatic(true), (false, true));
    flags.run(&vec!["sub-add".to_string(), "file.srt".to_string()]);
    assert_eq!(flags.automatic(true), (false, false));
    flags.start();
    assert_eq!(flags.automatic(true), (true, true));
    assert_eq!(flags.automatic(false), (true, false));
}

#[test]
fn actions_wait_on_the_next_episode_prompt() {
    assert_eq!(action_gate(true, false, true, false, true), ActionGate::FinishWaiting);
    assert_eq!(action_gate(true, false, false, false, true), ActionGate::Ignore);
    assert_eq!(action_gate(false, true, true, false, true), ActionGate::Ignore);
    assert_eq!(action_gate(false, false, false, true, false), ActionGate::Ignore);
    assert_eq!(action_gate(false, false, false, true, true), ActionGate::Perform);
    assert_eq!(action_gate(false, false, true, false, false), ActionGate::Perform);
}
