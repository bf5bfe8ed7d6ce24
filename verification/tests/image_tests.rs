use screenshots::{Image, ImageError};

#[test]
fn new_wraps_packed_bytes_unchanged() {
    let bytes = vec![1u8, 2, 3, 4, 5, 6, 7, 8, 9, 10, 11, 12];
    let image = Image::new(3, 1, bytes.clone()).unwrap();
    assert_eq!(image.width(), 3);
    assert_eq!(image.height(), 1);
    assert_eq!(image.bytes(), &bytes);
}

#[test]
fn new_keeps_alpha_as_given() {
    let image = Image::new(1, 1, vec![9u8, 8, 7, 0]).unwrap();
    assert_eq!(image.bytes(), &vec![9u8, 8, 7, 0]);
}

#[test]
fn new_rejects_short_buffer() {
    let result = Image::new(3, 3, vec![0u8; 35]);
    assert_eq!(result.unwrap_err(), ImageError::LengthMismatch);
}

#[test]
fn new_rejects_long_buffer() {
    let result = Image::new(3, 3, vec![0u8; 37]);
    assert_eq!(result.unwrap_err(), ImageError::LengthMismatch);
}

#[test]
fn new_accepts_exact_buffer() {
    let image = Image::new(3, 3, vec![0u8; 36]).unwrap();
    assert_eq!(image.bytes().len(), 36);
}

#[test]
fn new_accepts_empty_image() {
    let image = Image::new(0, 5, Vec::new()).unwrap();
    assert_eq!(image.width(), 0);
    assert_eq!(image.height(), 5);
    assert!(image.bytes().is_empty());
}

#[test]
fn new_rejects_bytes_for_empty_image() {
    let result = Image::new(4, 0, vec![0u8; 4]);
    assert_eq!(result.unwrap_err(), ImageError::LengthMismatch);
}

#[test]
fn new_rejects_huge_dimensions_without_overflow() {
    let result = Image::new(u32::MAX, u32::MAX, vec![0u8; 4]);
    assert_eq!(result.unwrap_err(), ImageError::LengthMismatch);
}

#[test]
fn from_bgra_padded_row_scenario() {
    let frame = vec![10u8, 20, 30, 0, 40, 50, 60, 0, 99, 99, 99, 99];
    let image = Image::from_bgra(frame, 2, 1, 12).unwrap();
    assert_eq!(image.width(), 2);
    assert_eq!(image.height(), 1);
    assert_eq!(image.bytes(), &vec![30u8, 20, 10, 255, 60, 50, 40, 255]);
}

#[test]
fn from_bgra_packed_frame() {
    let frame = vec![1u8, 2, 3, 4, 5, 6, 7, 8, 9, 10, 11, 12, 13, 14, 15, 16];
    let image = Image::from_bgra(frame, 2, 2, 8).unwrap();
    assert_eq!(
        image.bytes(),
        &vec![3u8, 2, 1, 255, 7, 6, 5, 255, 11, 10, 9, 255, 15, 14, 13, 255]
    );
}

#[test]
fn from_bgra_skips_padding_of_every_row() {
    // 1 pixel per row, 3 rows, 6 bytes per row: two bytes of padding each.
    let frame = vec![
        1u8, 2, 3, 4, 200, 201, //
        5, 6, 7, 8, 202, 203, //
        9, 10, 11, 12, 204, 205,
    ];
    let image = Image::from_bgra(frame, 1, 3, 6).unwrap();
    assert_eq!(image.width(), 1);
    assert_eq!(image.height(), 3);
    assert_eq!(
        image.bytes(),
        &vec![3u8, 2, 1, 255, 7, 6, 5, 255, 11, 10, 9, 255]
    );
}

#[test]
fn from_bgra_output_does_not_depend_on_padding() {
    let first = vec![
        10u8, 20, 30, 40, 50, 60, 70, 80, 0, 0, 0, //
        11, 21, 31, 41, 51, 61, 71, 81, 0, 0, 0,
    ];
    let second = vec![
        10u8, 20, 30, 40, 50, 60, 70, 80, 255, 254, 253, //
        11, 21, 31, 41, 51, 61, 71, 81, 1, 2, 3,
    ];
    let a = Image::from_bgra(first, 2, 2, 11).unwrap();
    let b = Image::from_bgra(second, 2, 2, 11).unwrap();
    assert_eq!(a.bytes(), b.bytes());
    assert_eq!(
        a.bytes(),
        &vec![30u8, 20, 10, 255, 70, 60, 50, 255, 31, 21, 11, 255, 71, 61, 51, 255]
    );
}

#[test]
fn from_bgra_ignores_trailing_bytes() {
    let frame = vec![1u8, 2, 3, 4, 77, 77, 77, 77, 77];
    let image = Image::from_bgra(frame, 1, 1, 4).unwrap();
    assert_eq!(image.bytes(), &vec![3u8, 2, 1, 255]);
}

#[test]
fn from_bgra_forces_alpha_opaque() {
    for alpha in [0u8, 1, 127, 254, 255] {
        let frame = vec![5u8, 6, 7, alpha];
        let image = Image::from_bgra(frame, 1, 1, 4).unwrap();
        assert_eq!(image.bytes(), &vec![7u8, 6, 5, 255]);
    }
}

#[test]
fn from_bgra_keeps_dimensions() {
    let image = Image::from_bgra(vec![0u8; 5 * 32], 7, 5, 32).unwrap();
    assert_eq!(image.width(), 7);
    assert_eq!(image.height(), 5);
    assert_eq!(image.bytes().len(), 7 * 5 * 4);
}

#[test]
fn from_bgra_zero_width_gives_empty_image() {
    let image = Image::from_bgra(vec![0u8; 24], 0, 3, 8).unwrap();
    assert_eq!(image.width(), 0);
    assert_eq!(image.height(), 3);
    assert!(image.bytes().is_empty());
}

#[test]
fn from_bgra_zero_height_gives_empty_image() {
    let image = Image::from_bgra(Vec::new(), 3, 0, 12).unwrap();
    assert_eq!(image.width(), 3);
    assert_eq!(image.height(), 0);
    assert!(image.bytes().is_empty());
}

#[test]
fn from_bgra_zero_by_zero_gives_empty_image() {
    let image = Image::from_bgra(Vec::new(), 0, 0, 0).unwrap();
    assert!(image.bytes().is_empty());
}

#[test]
fn from_bgra_rejects_buffer_that_cuts_the_last_pixel() {
    // The second row starts at byte 12 and its two pixels end at byte 20.
    let result = Image::from_bgra(vec![0u8; 19], 2, 2, 12);
    assert_eq!(result.unwrap_err(), ImageError::LengthMismatch);
}

#[test]
fn from_bgra_rejects_buffer_without_last_row() {
    let result = Image::from_bgra(vec![0u8; 12], 2, 2, 12);
    assert_eq!(result.unwrap_err(), ImageError::LengthMismatch);
}

#[test]
fn from_bgra_rejects_empty_buffer_for_one_pixel() {
    let result = Image::from_bgra(Vec::new(), 1, 1, 4);
    assert_eq!(result.unwrap_err(), ImageError::LengthMismatch);
}

#[test]
fn from_bgra_accepts_last_row_without_padding() {
    let mut frame = vec![0u8; 20];
    frame[12..20].copy_from_slice(&[1, 2, 3, 4, 5, 6, 7, 8]);
    let image = Image::from_bgra(frame, 2, 2, 12).unwrap();
    assert_eq!(
        image.bytes(),
        &vec![0u8, 0, 0, 255, 0, 0, 0, 255, 3, 2, 1, 255, 7, 6, 5, 255]
    );
}

#[test]
fn from_bgra_accepts_buffer_of_declared_length() {
    let image = Image::from_bgra(vec![0u8; 24], 2, 2, 12).unwrap();
    assert_eq!(image.bytes().len(), 16);
}

#[test]
fn from_bgra_without_pixels_fits_any_buffer() {
    let image = Image::from_bgra(Vec::new(), 0, 3, 8).unwrap();
    assert!(image.bytes().is_empty());
    let image = Image::from_bgra(vec![1u8, 2, 3], 5, 0, 2).unwrap();
    assert!(image.bytes().is_empty());
}

#[test]
fn from_bgra_rejects_stride_below_row_width() {
    let result = Image::from_bgra(vec![0u8; 64], 2, 2, 7);
    assert_eq!(result.unwrap_err(), ImageError::LengthMismatch);
}

#[test]
fn from_bgra_rejects_huge_geometry_without_overflow() {
    let result = Image::from_bgra(vec![0u8; 16], u32::MAX, u32::MAX, usize::MAX);
    assert_eq!(result.unwrap_err(), ImageError::LengthMismatch);
}
