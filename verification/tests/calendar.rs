use madari::calendar::{agenda, calendar_notice, Release};

fn release(unix: i64, day: u32, season: Option<u64>, episode: Option<u64>) -> Release {
    Release { unix, year: 2026, month: 3, day, season, episode }
}

#[test]
fn agenda_lists_the_month_in_release_order() {
    let releases = vec![
        release(300, 5, Some(1), Some(2)),
        release(100, 2, Some(1), Some(1)),
        Release { unix: 50, year: 2026, month: 4, day: 1, season: None, episode: None },
        release(300, 5, Some(1), Some(1)),
        release(300, 5, None, Some(9)),
        release(300, 5, Some(1), Some(2)),
    ];
    let (order, days) = agenda(&releases, 2026, 3, 5, true);
    assert_eq!(order, vec![1, 4, 3, 0, 5]);
    assert_eq!(days, vec![5, 2, 5, 5, 5]);
    let (order, days) = agenda(&releases, 2026, 3, 2, false);
    assert_eq!(order, vec![1]);
    assert_eq!(days, vec![5, 2, 5, 5, 5]);
    let (order, days) = agenda(&releases, 2025, 3, 2, true);
    assert!(order.is_empty() && days.is_empty());
}

#[test]
fn calendar_explains_why_it_is_empty() {
    assert!(calendar_notice(false, false).unwrap().contains("calendarVideosIds"));
    assert_eq!(calendar_notice(true, true), Some("Add shows to My list to follow their episode releases here."));
    assert_eq!(calendar_notice(true, false), None);
}
