use madari::geometry::bounded;

#[test]
fn resizing_stays_inside_viewport_and_keeps_video_ratio() {
    let (x, y, w, h) = bounded((2000, -500, 1200, 1), 1100, 740);
    assert!(x + w <= 1100 && y >= 0 && y + h <= 740);
    assert!((w as f64 / h as f64 - 16.0 / 9.0).abs() < 0.02);
    let (x, y, w, h) = bounded((-100, -100, 800, 1), 300, 200);
    assert!(x >= 0 && y >= 0 && x + w <= 300 && y + h <= 200);
}

#[test]
fn mini_player_exact_placements() {
    assert_eq!(bounded((2000, -500, 1200, 1), 1100, 740), (288, 12, 800, 450));
    assert_eq!(bounded((-100, -100, 800, 1), 300, 200), (12, 12, 276, 155));
    assert_eq!(bounded((50, 60, 100, 1), 1920, 1080), (50, 60, 240, 135));
    assert_eq!(bounded((0, 0, 500, 1), 10, 10), (9, 9, 1, 1));
}
