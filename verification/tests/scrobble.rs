use madari::scrobble::{report_action, Connection, Label, Outcome, Reply, ScrobbleAction, Scrobbler};

fn text_of(label: &Label) -> Option<(String, bool, bool)> {
    match label {
        Label::Hidden => None,
        Label::Shown { text, error, success, .. } => Some((text.clone(), *error, *success)),
    }
}

#[test]
fn reports_pause_before_95_percent_and_never_guesses_unknown_duration() {
    assert!(report_action(10, 0, false, false).is_none());
    assert_eq!(report_action(10, 100, false, false), Some((ScrobbleAction::Start, 10)));
    assert_eq!(report_action(90, 100, false, true), Some((ScrobbleAction::Pause, 90)));
    assert_eq!(report_action(50, 100, true, false), Some((ScrobbleAction::Pause, 50)));
    assert_eq!(report_action(95, 100, false, false), Some((ScrobbleAction::Stop, 95)));
    assert_eq!(report_action(200, 100, false, true), Some((ScrobbleAction::Stop, 100)));
    assert_eq!(report_action(u64::MAX, u64::MAX, false, false), Some((ScrobbleAction::Stop, u64::MAX)));
    assert_eq!(report_action(949, 1000, false, false), Some((ScrobbleAction::Start, 949)));
}

fn connected() -> Scrobbler {
    let mut s = Scrobbler::new(true, 0);
    let label = s.connection(Connection::Connected);
    assert_eq!(text_of(&label), Some(("Trakt · Ready".to_string(), false, false)));
    s
}

#[test]
fn connection_results_set_the_label() {
    let mut s = Scrobbler::new(false, 0);
    assert!(s.observe(true, false, Some(ScrobbleAction::Start), 0).is_none());
    let label = s.connection(Connection::Connected);
    assert_eq!(text_of(&label), Some(("Trakt · Unmatched".to_string(), false, false)));
    let mut s = Scrobbler::new(true, 0);
    assert!(matches!(s.connection(Connection::NotConnected), Label::Hidden));
    assert!(s.observe(true, false, Some(ScrobbleAction::Start), 0).is_none());
    let mut s = Scrobbler::new(true, 0);
    let label = s.connection(Connection::Unavailable);
    assert_eq!(text_of(&label), Some(("Trakt · Unavailable".to_string(), true, false)));
}

#[test]
fn each_action_is_reported_once_and_failures_retry_after_thirty_seconds() {
    let mut s = connected();
    assert!(s.observe(true, true, Some(ScrobbleAction::Start), 0).is_none());
    assert_eq!(s.observe(true, false, Some(ScrobbleAction::Start), 0), Some(ScrobbleAction::Start));
    let (seq, label) = s.queued(ScrobbleAction::Start, 1_000);
    assert_eq!(seq, 1);
    assert_eq!(text_of(&label), Some(("Trakt · Syncing…".to_string(), false, false)));
    assert!(s.observe(true, false, Some(ScrobbleAction::Pause), 2_000).is_none());
    let answer = s.answered(seq, Reply::Confirmed(Outcome::Watching)).unwrap();
    assert_eq!(text_of(&answer.label), Some(("Trakt · Watching".to_string(), false, true)));
    assert!(s.observe(true, false, Some(ScrobbleAction::Start), 3_000).is_none());
    assert_eq!(s.observe(true, false, Some(ScrobbleAction::Pause), 3_000), Some(ScrobbleAction::Pause));
    let (seq, _) = s.queued(ScrobbleAction::Pause, 4_000);
    let answer = s.answered(seq, Reply::Failed("Network down".to_string())).unwrap();
    assert_eq!(text_of(&answer.label), Some(("Trakt · Not synced".to_string(), true, false)));
    assert!(!answer.toast);
    assert!(s.observe(true, false, Some(ScrobbleAction::Pause), 33_999).is_none());
    assert_eq!(s.observe(true, false, Some(ScrobbleAction::Pause), 34_000), Some(ScrobbleAction::Pause));
}

#[test]
fn stale_answers_are_ignored_and_watched_ends_reporting() {
    let mut s = connected();
    let (first, _) = s.queued(ScrobbleAction::Start, 0);
    let (second, _) = s.queued(ScrobbleAction::Stop, 0);
    assert_eq!(second, first + 1);
    assert!(s.answered(first, Reply::Confirmed(Outcome::Watching)).is_none());
    let answer = s.answered(second, Reply::Confirmed(Outcome::Watched)).unwrap();
    assert_eq!(text_of(&answer.label), Some(("Trakt · Watched synced".to_string(), false, true)));
    assert!(s.watched);
    assert!(s.observe(true, false, Some(ScrobbleAction::Start), 100_000).is_none());
    assert!(s.finish(true, Some(ScrobbleAction::Stop)).is_none());
}

#[test]
fn finish_sends_the_final_report_once() {
    let mut s = connected();
    assert!(s.finish(false, Some(ScrobbleAction::Stop)).is_none());
    let mut s = connected();
    s.queued(ScrobbleAction::Stop, 0);
    assert!(s.finish(true, Some(ScrobbleAction::Stop)).is_none());
    let mut s = connected();
    s.queued(ScrobbleAction::Start, 0);
    assert_eq!(s.finish(true, Some(ScrobbleAction::Pause)), Some(ScrobbleAction::Pause));
    assert!(s.finish(true, Some(ScrobbleAction::Pause)).is_none());
    let (seq, _) = s.queued(ScrobbleAction::Pause, 0);
    let answer = s.answered(seq, Reply::Failed("x".to_string())).unwrap();
    assert!(answer.toast);
    let answer = s.answered(seq, Reply::Dropped).unwrap();
    assert_eq!(
        text_of(&answer.label),
        Some(("Trakt · Not synced".to_string(), true, false))
    );
    assert!(s.answered(seq, Reply::Disconnected).is_some());
    assert!(!s.connected);
}

#[test]
fn queue_full_marks_the_report_failed() {
    let mut s = connected();
    let label = s.queue_full(5_000);
    assert_eq!(text_of(&label), Some(("Trakt · Not synced".to_string(), true, false)));
    assert!(s.failed);
    assert!(s.can_send(true));
    assert!(!s.can_send(false));
    assert!(s.observe(true, false, Some(ScrobbleAction::Start), 10_000).is_none());
    assert_eq!(s.observe(true, false, Some(ScrobbleAction::Start), 35_000), Some(ScrobbleAction::Start));
}

#[test]
fn stop_follows_the_floating_point_percentage() {
    let float_stop = |p: u64, d: u64| (p as f64 / d as f64 * 100.0).clamp(0.0, 100.0) >= 95.0;
    let d: u64 = 10_000_000_000_000_000;
    let p: u64 = 9_499_999_999_999_999;
    assert!(float_stop(p, d));
    assert!(matches!(report_action(p, d, true, false), Some((ScrobbleAction::Stop, _))));
    let mut seed: u64 = 0x9E37_79B9_7F4A_7C15;
    for _ in 0..200_000 {
        seed = seed.wrapping_mul(6364136223846793005).wrapping_add(1442695040888963407);
        let shift = (seed >> 58) as u32;
        let d = (seed >> shift).max(1);
        seed = seed.wrapping_mul(6364136223846793005).wrapping_add(1442695040888963407);
        let jitter = (seed % 7) as i128 - 3;
        let near = (d as u128 * 95 / 100) as i128 + jitter * ((d >> 50).max(1) as i128);
        let p = near.clamp(0, u64::MAX as i128) as u64;
        let stop = matches!(report_action(p, d, false, false), Some((ScrobbleAction::Stop, _)));
        assert_eq!(stop, float_stop(p, d), "position {p} of {d}");
    }
}
