use madari::artwork::{
    after_removal, artwork_edge, cache_fresh, cache_name, decode, keep_pruning, prune_order, ArtworkError, DISK_LIMIT,
    PRUNE_TARGET,
};
use std::io::Cursor;

fn png(width: u32, height: u32) -> Vec<u8> {
    let image = image::RgbaImage::from_pixel(width, height, image::Rgba([20, 30, 40, 255]));
    let mut bytes = Cursor::new(Vec::new());
    image::DynamicImage::ImageRgba8(image).write_to(&mut bytes, image::ImageFormat::Png).unwrap();
    bytes.into_inner()
}

#[test]
fn bounded_decode_produces_small_texture_and_rejects_bad_data() {
    let pixels = decode(&png(1200, 1800), 360).unwrap();
    assert_eq!((pixels.width, pixels.height), (240, 360));
    assert_eq!(pixels.data.len(), 240 * 360 * 4);
    assert!(decode(b"not an image", 360).is_err());
}

#[test]
fn decode_failures_are_told_apart() {
    assert_eq!(decode(b"not an image", 360).unwrap_err(), ArtworkError::Invalid);
    let mut broken = png(10, 10);
    broken.truncate(40);
    assert_eq!(decode(&broken, 360).unwrap_err(), ArtworkError::Invalid);
    assert_eq!(ArtworkError::UnknownFormat.message(), "Unknown image format");
    assert_eq!(ArtworkError::Invalid.message(), "Artwork is invalid or exceeds image limits");
    let small = decode(&png(4, 2), 360).unwrap();
    assert_eq!((small.width, small.height), (360, 180));
    assert_eq!(small.data[..4], [20, 30, 40, 255]);
}

#[test]
fn cache_names_and_freshness() {
    assert_eq!(artwork_edge(10), 180);
    assert_eq!(artwork_edge(500), 500);
    assert_eq!(artwork_edge(5000), 1600);
    let name = cache_name(false, 360, "https://example.org/a.png");
    assert_eq!(name, "a7fa53a2afcdac7462af28b8df5bb679fdd869b67cfa7596f947320c18ec7cb6.png");
    assert!(name.ends_with(".png"));
    assert_eq!(name.len(), 68);
    assert_ne!(name, cache_name(true, 360, "https://example.org/a.png"));
    assert_ne!(name, cache_name(false, 361, "https://example.org/a.png"));
    assert!(cache_fresh(1000, Some(0)));
    assert!(!cache_fresh(16 * 1024 * 1024, Some(0)));
    assert!(!cache_fresh(1000, Some(7 * 86_400_000)));
    assert!(cache_fresh(1000, Some(7 * 86_400_000 - 1)));
    assert!(!cache_fresh(1000, None));
}

#[test]
fn pruning_removes_the_oldest_files_until_three_quarters_of_the_budget() {
    assert_eq!(prune_order(&vec![(1, 1000), (2, 2000)]), None);
    assert_eq!(prune_order(&vec![(5, DISK_LIMIT)]), None);
    let files = vec![(30, 100 * 1024 * 1024), (10, 50 * 1024 * 1024), (20, 50 * 1024 * 1024), (10, 1)];
    let order = prune_order(&files).unwrap();
    assert_eq!(order, vec![1, 3, 2, 0]);
    let mut total: u64 = files.iter().map(|f| f.1).sum();
    let mut removed = Vec::new();
    for i in order {
        if !keep_pruning(total) {
            break;
        }
        total = after_removal(total, files[i].1, true);
        removed.push(i);
    }
    assert_eq!(removed, vec![1, 3, 2]);
    assert!(total <= PRUNE_TARGET);
    assert_eq!(after_removal(10, 20, true), 0);
    assert_eq!(after_removal(10, 5, false), 10);
}
