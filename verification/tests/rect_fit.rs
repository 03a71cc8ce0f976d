use i420_viewer::rect::{calc_dest_rect, Rect, MAX_POSITION, MAX_SIZE, MIN_POSITION};

fn parts(r: Rect) -> (i32, i32, u32, u32) {
    (r.x(), r.y(), r.width(), r.height())
}

#[test]
fn square_match() {
    let r = calc_dest_rect(Rect::new(0, 0, 256, 256), 256, 256);
    assert_eq!(parts(r), (0, 0, 256, 256));
}

#[test]
fn wide_viewport_is_pillarboxed() {
    let r = calc_dest_rect(Rect::new(0, 0, 1920, 1080), 640, 480);
    assert_eq!(parts(r), (240, 0, 1440, 1080));
    assert_eq!(r, Rect::new(240, 0, 1440, 1080));
}

#[test]
fn tall_viewport_is_letterboxed() {
    let r = calc_dest_rect(Rect::new(0, 0, 800, 1200), 640, 480);
    assert_eq!(parts(r), (0, 300, 800, 600));
}

#[test]
fn matching_viewport_is_returned_unchanged() {
    let dst = Rect::new(5, 7, 640, 480);
    assert_eq!(calc_dest_rect(dst, 640, 480), dst);
}

#[test]
fn equal_aspect_fills_the_viewport() {
    let r = calc_dest_rect(Rect::new(0, 0, 1280, 960), 640, 480);
    assert_eq!(parts(r), (0, 0, 1280, 960));
}

#[test]
fn odd_slack_is_split_with_the_extra_pixel_on_the_far_side() {
    // 640x480 in 801x1201: h' = 480 * 801 / 640 = 600, slack 601, top 300, bottom 301
    let r = calc_dest_rect(Rect::new(0, 0, 801, 1201), 640, 480);
    assert_eq!(parts(r), (0, 300, 801, 600));
}

#[test]
fn division_truncates() {
    // 3x2 frame in 10x100: 10 * 2 < 100 * 3, h' = 2 * 10 / 3 = 6, y = 94 / 2 = 47
    let r = calc_dest_rect(Rect::new(0, 0, 10, 100), 3, 2);
    assert_eq!(parts(r), (0, 47, 10, 6));
}

#[test]
fn very_wide_frame_keeps_one_row() {
    let r = calc_dest_rect(Rect::new(0, 0, 100, 100), 1000, 2);
    assert_eq!(parts(r), (0, 50, 100, 1));
}

#[test]
fn very_tall_frame_keeps_one_column() {
    let r = calc_dest_rect(Rect::new(0, 0, 100, 100), 2, 1000);
    assert_eq!(parts(r), (50, 0, 1, 100));
}

#[test]
fn largest_values_do_not_overflow() {
    let r = calc_dest_rect(Rect::new(0, 0, MAX_SIZE, MAX_SIZE), u32::MAX, 1);
    // letterbox: h' = 1 * MAX_SIZE / u32::MAX = 0, stored as 1; y = MAX_SIZE / 2
    assert_eq!(parts(r), (0, (MAX_SIZE / 2) as i32, MAX_SIZE, 1));
    let r = calc_dest_rect(Rect::new(0, 0, MAX_SIZE, MAX_SIZE), u32::MAX, u32::MAX - 1);
    // letterbox: h' = (u32::MAX - 1) * MAX_SIZE / u32::MAX = MAX_SIZE - 1
    assert_eq!(parts(r), (0, 0, MAX_SIZE, MAX_SIZE - 1));
}

#[test]
fn new_replaces_zero_sizes_by_one() {
    assert_eq!(parts(Rect::new(3, 4, 0, 0)), (3, 4, 1, 1));
}

#[test]
fn new_clamps_sizes_and_positions() {
    let r = Rect::new(i32::MAX, i32::MIN, u32::MAX, MAX_SIZE + 1);
    assert_eq!(parts(r), (MAX_POSITION, MIN_POSITION, MAX_SIZE, MAX_SIZE));
    assert_eq!(MAX_SIZE, 1073741823);
    assert_eq!(MAX_POSITION, 1073741823);
    assert_eq!(MIN_POSITION, -1073741824);
    let r = Rect::new(-5, 9, MAX_SIZE, 7);
    assert_eq!(parts(r), (-5, 9, MAX_SIZE, 7));
}

const SIZES: [u32; 12] = [1, 2, 3, 7, 16, 100, 255, 256, 480, 640, 1080, 1920];

#[test]
fn fit_preserves_aspect_within_truncation() {
    for &sw in SIZES.iter() {
        for &sh in SIZES.iter() {
            for &fw in SIZES.iter() {
                for &fh in SIZES.iter() {
                    let r = calc_dest_rect(Rect::new(0, 0, sw, sh), fw, fh);
                    let (w, h) = (r.width() as i64, r.height() as i64);
                    assert!(w <= sw as i64 && h <= sh as i64);
                    let gap = (w * fh as i64 - h * fw as i64).abs();
                    assert!(gap <= fw.max(fh) as i64, "{sw}x{sh} {fw}x{fh}");
                }
            }
        }
    }
}

#[test]
fn fit_is_centered_and_inside() {
    for &sw in SIZES.iter() {
        for &sh in SIZES.iter() {
            for &fw in SIZES.iter() {
                for &fh in SIZES.iter() {
                    let r = calc_dest_rect(Rect::new(0, 0, sw, sh), fw, fh);
                    let (x, y) = (r.x() as i64, r.y() as i64);
                    let (w, h) = (r.width() as i64, r.height() as i64);
                    assert!(w >= 1 && h >= 1);
                    assert!(x >= 0 && y >= 0);
                    assert!(x + w <= sw as i64 && y + h <= sh as i64);
                    let right = sw as i64 - x - w;
                    let bottom = sh as i64 - y - h;
                    assert!((x - right).abs() <= 1, "{sw}x{sh} {fw}x{fh}");
                    assert!((y - bottom).abs() <= 1, "{sw}x{sh} {fw}x{fh}");
                }
            }
        }
    }
}

#[test]
fn fit_of_own_size_is_identity() {
    for &w in SIZES.iter() {
        for &h in SIZES.iter() {
            let dst = Rect::new(0, 0, w, h);
            assert_eq!(calc_dest_rect(dst, w, h), dst);
        }
    }
}
