use madari::tracks::{describe_track, track_label};

#[test]
fn track_labels_keep_language_and_have_fallbacks() {
    assert_eq!(
        track_label("audio", 2, "Director’s commentary", "eng", "aac"),
        "Director’s commentary · English · aac"
    );
    assert_eq!(track_label("sub", 7, "", "", ""), "Subtitle 7");
    assert_eq!(track_label("sub", 1, "EN", "en", ""), "English");
    assert_eq!(track_label("sub", 1, "English", "eng", ""), "English");
}

#[test]
fn audio_fallback_and_negative_ids() {
    assert_eq!(track_label("audio", -3, "  ", "", " "), "Audio -3");
    assert_eq!(track_label("video", 12, "", "", ""), "Audio 12");
    assert_eq!(track_label("sub", 4, "", "fr", "srt"), "French · srt");
}

#[test]
fn tracks_are_classified_from_flags_and_titles() {
    let track = describe_track("sub", 3, "English SDH", "eng", "subrip", true, false, false, false).unwrap();
    assert!(track.hearing_impaired && !track.forced && !track.visual_impaired && !track.commentary);
    assert_eq!(track.title, "English SDH · English · subrip · SDH");
    assert!(track.selected);
    assert_eq!(track.language, "eng");
    let forced = describe_track("sub", 4, "Forced", "", "", false, false, false, false).unwrap();
    assert!(forced.forced);
    assert_eq!(forced.title, "Forced · Forced");
    let described = describe_track("audio", 5, "Audio Description", "en", "", false, false, false, false).unwrap();
    assert!(described.visual_impaired);
    let commentary = describe_track("audio", 6, "Director’s commentary", "eng", "aac", false, false, false, false).unwrap();
    assert!(commentary.commentary);
    assert_eq!(commentary.title, "Director’s commentary · English · aac · Commentary");
    let flagged = describe_track("audio", 7, "", "", "", false, true, true, true).unwrap();
    assert_eq!(flagged.title, "Audio 7 · SDH · Forced · Audio description");
    assert!(describe_track("video", 1, "", "", "", false, false, false, false).is_none());
    let not_a_word = describe_track("sub", 8, "Soccer", "", "", false, false, false, false).unwrap();
    assert!(!not_a_word.hearing_impaired);
}
