use madari::transfers::{bytes, row_state, transfer_summary};

fn float_bytes(value: u64) -> String {
    if value >= 1073741824 {
        format!("{:.1} GiB", value as f64 / 1073741824.0)
    } else if value >= 1048576 {
        format!("{:.1} MiB", value as f64 / 1048576.0)
    } else {
        format!("{:.0} KiB", value as f64 / 1024.0)
    }
}

#[test]
fn sizes_are_written_in_binary_units() {
    assert_eq!(bytes(0), "0 KiB");
    assert_eq!(bytes(512), "0 KiB");
    assert_eq!(bytes(1536), "2 KiB");
    assert_eq!(bytes(2560), "2 KiB");
    assert_eq!(bytes(1_048_575), "1024 KiB");
    assert_eq!(bytes(1_048_576), "1.0 MiB");
    assert_eq!(bytes(1_258_291), "1.2 MiB");
    assert_eq!(bytes(1_073_741_824), "1.0 GiB");
    assert_eq!(bytes(1_288_490_189), "1.2 GiB");
    assert_eq!(bytes(u64::MAX), "17179869184.0 GiB");
}

#[test]
fn sizes_round_like_floating_point_formatting() {
    let mut values: Vec<u64> = vec![1, 511, 513, 1023, 1024, 1025, 99_999, 1_047_552, 1_048_064];
    for shift in 10..64u32 {
        let p = 1u64 << shift;
        for delta in [0u64, 1, 2, 3, 5, 7, 9, 1023, 1024, 4095] {
            values.push(p.wrapping_add(delta));
            values.push(p.wrapping_sub(delta));
            values.push(p.wrapping_add(p / 2).wrapping_add(delta));
            values.push(p.wrapping_add(p / 20).wrapping_sub(delta));
        }
    }
    for tenth in 0..40u64 {
        values.push(1_048_576 + tenth * 52_428 + 26_214);
        values.push(1_073_741_824 + tenth * 53_687_091 + 53_687_091 / 2);
        values.push(1_073_741_824 * 3 + tenth * 107_374_182 + 53_687_091);
    }
    let mut x: u64 = 0x9E37_79B9_7F4A_7C15;
    for _ in 0..20_000 {
        x ^= x << 13;
        x ^= x >> 7;
        x ^= x << 17;
        values.push(x);
        values.push(x >> (x % 60));
    }
    for v in values {
        assert_eq!(bytes(v), float_bytes(v), "value {v}");
    }
}

#[test]
fn transfer_summary_counts_states() {
    let states: Vec<String> = ["Downloading", "Seeding", "Paused", "Downloading", "Error"]
        .iter()
        .map(|s| s.to_string())
        .collect();
    assert_eq!(transfer_summary(&states), "5 torrents · 2 downloading · 1 seeding");
    assert_eq!(transfer_summary(&vec![]), "0 torrents · 0 downloading · 0 seeding");
}

#[test]
fn rows_offer_to_resume_paused_torrents() {
    let paused = row_state("Paused");
    assert!(paused.paused && !paused.seeding && !paused.failed);
    assert_eq!(paused.action, "Resume torrent");
    assert_eq!(paused.icon, "media-playback-start-symbolic");
    let seeding = row_state("Seeding");
    assert!(seeding.seeding && !seeding.paused);
    assert_eq!(seeding.action, "Pause torrent");
    assert!(row_state("Error").failed);
}
