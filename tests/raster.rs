use rt_in_one_weekend::raster::{pixel_at, scale_floor, scan_order};

#[test]
fn image_height_from_width_and_aspect() {
    assert_eq!(scale_floor(800, 10, 16), 500);
}

#[test]
fn viewport_width_truncates() {
    assert_eq!(scale_floor(2, 16, 9), 3);
}

#[test]
fn scale_floor_of_zero() {
    assert_eq!(scale_floor(0, 16, 9), 0);
    assert_eq!(scale_floor(7, 0, 9), 0);
}

#[test]
fn scale_floor_largest_values() {
    assert_eq!(scale_floor(u32::MAX, u32::MAX, 1), (u32::MAX as u64) * (u32::MAX as u64));
    assert_eq!(scale_floor(u32::MAX, 1, u32::MAX), 1);
}

#[test]
fn scan_starts_top_left_and_ends_bottom_right() {
    let order = scan_order(4, 3);
    assert_eq!(order.len(), 12);
    assert_eq!(order[0], (0, 2));
    assert_eq!(order[3], (3, 2));
    assert_eq!(order[4], (0, 1));
    assert_eq!(order[11], (3, 0));
}

#[test]
fn scan_order_matches_pixel_at() {
    let order = scan_order(5, 4);
    for (k, pos) in order.iter().enumerate() {
        assert_eq!(pixel_at(k as u64, 5, 4), *pos);
    }
}

#[test]
fn scan_of_empty_raster() {
    assert!(scan_order(0, 3).is_empty());
    assert!(scan_order(3, 0).is_empty());
}

#[test]
fn pixel_at_single_pixel() {
    assert_eq!(pixel_at(0, 1, 1), (0, 0));
}

#[test]
fn pixel_at_middle() {
    assert_eq!(pixel_at(5, 4, 3), (1, 1));
}

#[test]
fn scan_visits_each_pixel_once() {
    let (w, h) = (4u32, 3u32);
    let order = scan_order(w, h);
    for y in 0..h {
        for x in 0..w {
            let hits: Vec<usize> = (0..order.len()).filter(|&k| order[k] == (x, y)).collect();
            assert_eq!(hits, vec![((h - 1 - y) * w + x) as usize]);
        }
    }
}
