use madari::up_next::{intro_end, suggest, Chapter};

fn chapter(title: &str, start: u64) -> Chapter {
    Chapter {
        index: 0,
        title: title.into(),
        start_ms: Some(start),
    }
}

#[test]
fn intro_requires_explicit_marker_and_known_end() {
    let chapters = [
        chapter("Cold open", 0),
        chapter("Opening credits", 60_000),
        chapter("Episode", 150_000),
    ];
    assert_eq!(intro_end(59_999, &chapters, 0), None);
    assert_eq!(intro_end(60_000, &chapters, 0), Some(150_000));
    assert_eq!(intro_end(149_999, &chapters, 0), Some(150_000));
    assert_eq!(intro_end(150_000, &chapters, 0), None);
    assert_eq!(intro_end(90_000, &chapters, 30_000), Some(180_000));
    assert_eq!(intro_end(60_000, &[chapter("Intro", 0)], 0), None);
    assert_eq!(
        intro_end(
            60_000,
            &[chapter("Chapter 1", 0), chapter("Episode", 90_000)],
            0
        ),
        None
    );
    assert_eq!(
        intro_end(
            60_000,
            &[chapter("Intro", 0), chapter("Episode", 600_000)],
            0
        ),
        None
    );
}

#[test]
fn credits_trigger_at_marker_and_respect_transcode_offset() {
    let chapters = [chapter("End Credits", 1_000_000)];
    assert!(!suggest(999_999, 1_200_000, &chapters, 0));
    assert!(suggest(1_000_000, 1_200_000, &chapters, 0));
    assert!(!suggest(1_099_999, 1_200_000, &chapters, 100_000));
    assert!(suggest(1_100_000, 1_200_000, &chapters, 100_000));
}

#[test]
fn progress_triggers_at_95_percent_and_ignores_opening_and_post_credits() {
    for title in [
        "Opening credits",
        "Post-credits scene",
        "After credits",
        "Chapter 8",
    ] {
        assert!(!suggest(
            1_000_000,
            1_200_000,
            &[chapter(title, 1_000_000)],
            0
        ));
    }
    assert!(!suggest(1_139_999, 1_200_000, &[], 0));
    assert!(suggest(1_140_000, 1_200_000, &[], 0));
    assert!(!suggest(3_419_999, 3_600_000, &[], 0));
    assert!(suggest(3_420_000, 3_600_000, &[], 0));
    assert!(!suggest(94_999, 100_000, &[], 0));
    assert!(suggest(95_000, 100_000, &[], 0));
    let late_credits = [chapter("End credits", 1_180_000)];
    assert!(!suggest(1_139_999, 1_200_000, &late_credits, 0));
    assert!(suggest(1_140_000, 1_200_000, &late_credits, 0));
    assert!(!suggest(0, 0, &[], 0));
    assert!(!suggest(1_200_000, 1_200_000, &[], 0));
}

#[test]
fn intro_title_is_trimmed_and_case_insensitive() {
    let chapters = [chapter("  OPENING Theme \t", 0), chapter("Part 1", 45_000)];
    assert_eq!(intro_end(10_000, &chapters, 0), Some(45_000));
}

#[test]
fn intro_uses_last_of_equally_timed_chapters() {
    let intro_last = [chapter("Recap", 0), chapter("Intro", 0), chapter("Story", 30_000)];
    assert_eq!(intro_end(5_000, &intro_last, 0), Some(30_000));
    let intro_first = [chapter("Intro", 0), chapter("Recap", 0), chapter("Story", 30_000)];
    assert_eq!(intro_end(5_000, &intro_first, 0), None);
}

#[test]
fn intro_ignores_chapters_without_start_or_overflowing_offset() {
    let chapters = [
        Chapter { index: 0, title: "Intro".into(), start_ms: Some(0) },
        Chapter { index: 1, title: "Unknown".into(), start_ms: None },
        chapter("Episode", 20_000),
    ];
    assert_eq!(intro_end(1_000, &chapters, 0), Some(20_000));
    let overflowing = [chapter("Intro", 0), chapter("Episode", u64::MAX)];
    assert_eq!(intro_end(1_000, &overflowing, 1), None);
}

#[test]
fn intro_longer_than_five_minutes_or_late_is_not_skipped() {
    let long = [chapter("Intro", 0), chapter("Episode", 300_001)];
    assert_eq!(intro_end(1_000, &long, 0), None);
    let exact = [chapter("Intro", 0), chapter("Episode", 300_000)];
    assert_eq!(intro_end(1_000, &exact, 0), Some(300_000));
    let late = [chapter("Intro", 600_000), chapter("Episode", 700_000)];
    assert_eq!(intro_end(650_000, &late, 0), None);
}

#[test]
fn credits_before_last_quarter_do_not_trigger() {
    let early = [chapter("Credits", 800_000)];
    assert!(!suggest(850_000, 1_200_000, &early, 0));
    let quarter = [chapter("Credits", 900_000)];
    assert!(suggest(900_000, 1_200_000, &quarter, 0));
}
