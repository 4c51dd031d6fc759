use im_select::indicator::Bitmap;
use im_select::input_mode::InputMode;

/// Builds a picture from rows of 0/1 marks, four bytes per pixel, with
/// `pad` extra bytes at the end of each row; a mark sets the first byte.
fn picture(rows: &[&[u8]], pad: usize) -> Bitmap {
    let height = rows.len();
    let width = if height == 0 { 0 } else { rows[0].len() };
    let width_bytes = width * 4 + pad;
    let mut pixels = vec![0u8; width_bytes * height];
    for (y, row) in rows.iter().enumerate() {
        for (x, &mark) in row.iter().enumerate() {
            if mark != 0 {
                pixels[y * width_bytes + x * 4] = 0xff;
                // the other channels do not count
                pixels[y * width_bytes + x * 4 + 1] = 0x10;
            } else {
                pixels[y * width_bytes + x * 4 + 2] = 0x77;
            }
        }
    }
    Bitmap::new(width, height, width_bytes, pixels).expect("layout")
}

#[test]
fn new_refuses_short_rows() {
    assert!(Bitmap::new(2, 1, 7, vec![0; 8]).is_none());
    assert!(Bitmap::new(2, 1, 8, vec![0; 8]).is_some());
}

#[test]
fn new_refuses_short_buffer() {
    assert!(Bitmap::new(2, 3, 8, vec![0; 23]).is_none());
    assert!(Bitmap::new(2, 3, 8, vec![0; 24]).is_some());
    assert!(Bitmap::new(0, 0, 0, vec![]).is_some());
}

#[test]
fn new_refuses_overflowing_layout() {
    assert!(Bitmap::new(usize::MAX, 1, usize::MAX, vec![0; 4]).is_none());
    assert!(Bitmap::new(1, usize::MAX, 4, vec![0; 4]).is_none());
}

#[test]
fn empty_picture_is_chinese() {
    assert_eq!(picture(&[], 0).input_mode(), InputMode::Zh);
    assert_eq!(picture(&[&[0, 0, 0], &[0, 0, 0]], 0).input_mode(), InputMode::Zh);
}

#[test]
fn solid_bottom_row_is_chinese() {
    let p = picture(&[&[1, 0, 1, 0, 1], &[0, 1, 1, 1, 0], &[0, 0, 0, 0, 0]], 0);
    assert_eq!(p.input_mode(), InputMode::Zh);
}

#[test]
fn broken_bottom_row_is_english() {
    let p = picture(&[&[0, 1, 1, 1, 0], &[1, 1, 0, 1, 1], &[0, 0, 0, 0, 0]], 0);
    assert_eq!(p.input_mode(), InputMode::En);
}

#[test]
fn single_pixels_far_apart_are_english() {
    let p = picture(&[&[1, 0, 0, 0, 1]], 4);
    assert_eq!(p.input_mode(), InputMode::En);
}

#[test]
fn single_pixel_is_chinese() {
    let p = picture(&[&[0, 0, 1, 0, 0], &[0, 0, 0, 0, 0]], 2);
    assert_eq!(p.input_mode(), InputMode::Zh);
}

#[test]
fn rows_above_the_lowest_do_not_count() {
    let a = picture(&[&[1, 0, 1, 0, 1], &[0, 1, 1, 0, 0]], 0);
    let b = picture(&[&[0, 0, 0, 0, 0], &[0, 1, 1, 0, 0]], 0);
    assert_eq!(a.input_mode(), InputMode::Zh);
    assert_eq!(b.input_mode(), InputMode::Zh);
}
