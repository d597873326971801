use dropshadow::bitmap::{Bitmap, Pixel};

fn px(r: u8, g: u8, b: u8, a: u8) -> Pixel {
    Pixel { r, g, b, a }
}

fn solid(width: u32, height: u32, p: Pixel) -> Bitmap {
    let mut bm = Bitmap::new(width, height).unwrap();
    for y in 0..height {
        for x in 0..width {
            bm.put(x, y, p);
        }
    }
    bm
}

/// A deterministic multi-coloured pattern so pixel mix-ups are caught.
fn pattern(width: u32, height: u32) -> Bitmap {
    let mut bm = Bitmap::new(width, height).unwrap();
    for y in 0..height {
        for x in 0..width {
            bm.put(x, y, px((x * 40 + 3) as u8, (y * 25 + 7) as u8, (x + y) as u8, 255));
        }
    }
    bm
}

#[test]
fn new_bitmap_is_fully_transparent() {
    let bm = Bitmap::new(4, 3).unwrap();
    assert_eq!(bm.width, 4);
    assert_eq!(bm.height, 3);
    assert_eq!(bm.pixels.len(), 12);
    for y in 0..3 {
        for x in 0..4 {
            assert_eq!(bm.get(x, y), px(0, 0, 0, 0));
        }
    }
}

#[test]
fn put_changes_exactly_one_pixel() {
    let mut bm = Bitmap::new(3, 3).unwrap();
    bm.put(1, 2, px(9, 8, 7, 6));
    for y in 0..3 {
        for x in 0..3 {
            if (x, y) == (1, 2) {
                assert_eq!(bm.get(x, y), px(9, 8, 7, 6));
            } else {
                assert_eq!(bm.get(x, y), px(0, 0, 0, 0));
            }
        }
    }
}

#[test]
fn fill_rect_paints_exactly_the_rectangle() {
    let mut bm = Bitmap::new(5, 4).unwrap();
    bm.fill_rect(1, 1, 4, 3, px(0, 0, 0, 255));
    for y in 0..4 {
        for x in 0..5 {
            let expected = if (1..4).contains(&x) && (1..3).contains(&y) { 255 } else { 0 };
            assert_eq!(bm.get(x, y).a, expected, "at ({x}, {y})");
        }
    }
}

#[test]
fn fill_rect_with_empty_range_paints_nothing() {
    let mut bm = Bitmap::new(3, 3).unwrap();
    bm.fill_rect(2, 2, 1, 1, px(1, 2, 3, 4));
    for y in 0..3 {
        for x in 0..3 {
            assert_eq!(bm.get(x, y), px(0, 0, 0, 0));
        }
    }
}

#[test]
fn rotate180_reverses_the_pixel_grid() {
    let src = pattern(3, 2);
    let rot = src.rotate180();
    assert_eq!(rot.width, 3);
    assert_eq!(rot.height, 2);
    for y in 0..2 {
        for x in 0..3 {
            assert_eq!(rot.get(x, y), src.get(2 - x, 1 - y), "at ({x}, {y})");
        }
    }
}

#[test]
fn rotate180_twice_is_identity() {
    let src = pattern(4, 5);
    let back = src.rotate180().rotate180();
    for y in 0..5 {
        for x in 0..4 {
            assert_eq!(back.get(x, y), src.get(x, y));
        }
    }
}

#[test]
fn crop_copies_the_rectangle() {
    let src = pattern(6, 5);
    let sub = src.crop(2, 1, 3, 2).unwrap();
    assert_eq!(sub.width, 3);
    assert_eq!(sub.height, 2);
    for y in 0..2 {
        for x in 0..3 {
            assert_eq!(sub.get(x, y), src.get(x + 2, y + 1));
        }
    }
}

#[test]
fn crop_out_of_bounds_is_refused() {
    let src = pattern(6, 5);
    assert!(src.crop(4, 0, 3, 2).is_none());
    assert!(src.crop(0, 4, 2, 2).is_none());
    assert!(src.crop(0, 0, 7, 1).is_none());
}

#[test]
fn copy_from_pastes_at_the_offset() {
    let mut dst = solid(5, 5, px(1, 1, 1, 255));
    let src = pattern(2, 2);
    assert!(dst.copy_from(&src, 3, 2));
    for y in 0..5 {
        for x in 0..5 {
            if (3..5).contains(&x) && (2..4).contains(&y) {
                assert_eq!(dst.get(x, y), src.get(x - 3, y - 2));
            } else {
                assert_eq!(dst.get(x, y), px(1, 1, 1, 255));
            }
        }
    }
}

#[test]
fn copy_from_out_of_bounds_leaves_the_target_untouched() {
    let mut dst = solid(4, 4, px(5, 6, 7, 255));
    let src = pattern(3, 3);
    assert!(!dst.copy_from(&src, 2, 2));
    for y in 0..4 {
        for x in 0..4 {
            assert_eq!(dst.get(x, y), px(5, 6, 7, 255));
        }
    }
}
