use madari::controls::{fit_index, next_fit, shortcut, stats_delivery, timestamp_text, PlaybackFlags, Shortcut};

#[test]
fn time_and_shortcuts_handle_long_videos_and_seek_steps() {
    assert_eq!(timestamp_text(3665), "1:01:05");
    assert_eq!(timestamp_text(0), "0:00");
    assert_eq!(shortcut("Left", true), Some(Shortcut::Seek(-60)));
    assert_eq!(shortcut("bracketright", false), Some(Shortcut::SpeedQuarters(1)));
    assert_eq!(shortcut("q", false), None);
}

#[test]
fn timestamps_below_an_hour_and_keys() {
    assert_eq!(timestamp_text(59), "0:59");
    assert_eq!(timestamp_text(600), "10:00");
    assert_eq!(timestamp_text(3599), "59:59");
    assert_eq!(timestamp_text(360_000), "100:00:00");
    assert_eq!(shortcut("space", false), Some(Shortcut::Pause));
    assert_eq!(shortcut("L", false), Some(Shortcut::Seek(10)));
    assert_eq!(shortcut("Down", true), Some(Shortcut::Volume(-5)));
    assert_eq!(shortcut("comma", false), Some(Shortcut::FrameBackStep));
}

#[test]
fn fit_modes_cycle() {
    assert_eq!(next_fit(0), (1, "fill"));
    assert_eq!(next_fit(3), (0, "fit"));
    assert_eq!(fit_index("stretch"), Some((2, "Stretch")));
    assert_eq!(fit_index("zoom"), None);
}

#[test]
fn playback_flags_drive_loading_and_reporting() {
    let mut flags = PlaybackFlags::opening();
    assert!(flags.loading_shown());
    flags.loaded();
    assert!(!flags.loading_shown());
    flags.flag("paused-for-cache", true);
    assert!(flags.loading_shown() && flags.reporting_paused());
    assert_eq!(flags.status(), "Buffering");
    flags.flag("paused-for-cache", false);
    flags.flag("pause", true);
    assert_eq!(flags.status(), "Paused");
    flags.flag("volume", true);
    assert_eq!(flags.status(), "Paused");
    assert_eq!(stats_delivery(false, true), "Direct playback · torrent stats not applicable");
    assert_eq!(stats_delivery(true, true), "Built-in torrent · waiting for statistics…");
}

use madari::controls::{bar_layout, chapter_menu, controls_hide, track_menu, BarLayout};
use madari::tracks::Track;
use madari::up_next::Chapter;

fn track(id: i64, kind: &str, title: &str, selected: bool) -> Track {
    Track {
        id,
        kind: kind.into(),
        title: title.into(),
        language: String::new(),
        hearing_impaired: false,
        forced: false,
        visual_impaired: false,
        commentary: false,
        selected,
    }
}

fn items(menu: &[madari::controls::MenuItem]) -> Vec<String> {
    menu.iter().map(|m| format!("{}={}:{}", m.label, m.property, m.value)).collect()
}

#[test]
fn track_menus_mark_the_selected_tracks() {
    let tracks = vec![
        track(1, "audio", "English", true),
        track(2, "audio", "French", false),
        track(3, "sub", "English SDH", false),
        track(-1, "video", "Main", true),
    ];
    let audio = track_menu(&tracks, false);
    assert_eq!(audio.summary, "English");
    assert_eq!(items(&audio.items), vec!["✓ English=aid:1", "French=aid:2"]);
    assert!(!audio.empty);
    let subs = track_menu(&tracks, true);
    assert_eq!(subs.summary, "Off");
    assert_eq!(items(&subs.items), vec!["✓ Off=sid:no", "English SDH=sid:3"]);
    let chosen = vec![track(4, "sub", "Forced", true), track(5, "sub", "Full", true)];
    let subs = track_menu(&chosen, true);
    assert_eq!(subs.summary, "Forced");
    assert_eq!(items(&subs.items), vec!["Off=sid:no", "✓ Forced=sid:4", "✓ Full=sid:5"]);
    let none = track_menu(&[], true);
    assert!(none.empty);
    assert_eq!(items(&none.items), vec!["✓ Off=sid:no"]);
}

#[test]
fn chapter_menus_choose_chapters_by_index() {
    let chapters = vec![
        Chapter { index: 0, title: "Intro".into(), start_ms: Some(0) },
        Chapter { index: 1, title: "Chapter 2".into(), start_ms: None },
    ];
    assert_eq!(items(&chapter_menu(&chapters)), vec!["Intro=chapter:0", "Chapter 2=chapter:1"]);
}

#[test]
fn controls_hide_only_when_idle_and_nothing_is_in_use() {
    assert!(controls_hide(false, false, false, false, 3_001));
    assert!(!controls_hide(false, false, false, false, 3_000));
    assert!(!controls_hide(true, false, false, false, 10_000));
    assert!(!controls_hide(false, true, false, false, 10_000));
    assert!(!controls_hide(false, false, true, false, 10_000));
    assert!(!controls_hide(false, false, false, true, 10_000));
}

#[test]
fn narrow_windows_compact_the_player_bar() {
    assert_eq!(
        bar_layout(599, true, false),
        BarLayout { narrow: true, spacing: 2, show_time: false, volume_width: 28, show_pip: false }
    );
    assert_eq!(bar_layout(599, false, true).volume_width, 56);
    assert!(bar_layout(599, false, true).show_pip);
    assert_eq!(
        bar_layout(600, true, false),
        BarLayout { narrow: false, spacing: 8, show_time: true, volume_width: 80, show_pip: true }
    );
}

use madari::controls::{key_shortcut, shortcut_command};

#[test]
fn modified_or_unfocused_keys_trigger_nothing() {
    assert_eq!(key_shortcut("space", false, false, true, false), Some(Shortcut::Pause));
    assert_eq!(key_shortcut("space", false, true, true, false), None);
    assert_eq!(key_shortcut("space", false, false, false, false), None);
    assert_eq!(key_shortcut("space", false, false, true, true), None);
    assert_eq!(key_shortcut("Left", true, false, true, false), Some(Shortcut::Seek(-60)));
}

#[test]
fn shortcuts_send_player_commands() {
    let owned = |v: &[&str]| v.iter().map(|s| s.to_string()).collect::<Vec<_>>();
    assert_eq!(shortcut_command(Shortcut::Pause, true), Some((owned(&["cycle", "pause"]), None)));
    assert_eq!(shortcut_command(Shortcut::Subtitles, false), Some((owned(&["cycle", "sid"]), None)));
    assert_eq!(shortcut_command(Shortcut::FrameBackStep, true), Some((owned(&["frame-back-step"]), None)));
    assert_eq!(
        shortcut_command(Shortcut::Seek(-10), true),
        Some((owned(&["seek", "-10", "relative"]), Some("-10 seconds".to_string())))
    );
    assert_eq!(
        shortcut_command(Shortcut::Seek(60), true),
        Some((owned(&["seek", "60", "relative"]), Some("+60 seconds".to_string())))
    );
    assert_eq!(
        shortcut_command(Shortcut::Seek(10), false),
        Some((Vec::new(), Some("Seeking is unavailable for this stream".to_string())))
    );
    assert_eq!(shortcut_command(Shortcut::Fullscreen, true), None);
}
