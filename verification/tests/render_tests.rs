use mandelzoom::render::{color_for_iter, render_frame};

#[test]
fn lookup_within_table() {
    let gradient = vec![[1, 2, 3], [4, 5, 6]];
    assert_eq!(color_for_iter(&gradient, 0), [1, 2, 3]);
    assert_eq!(color_for_iter(&gradient, 1), [4, 5, 6]);
}

#[test]
fn lookup_past_table_is_black() {
    let gradient = vec![[1, 2, 3], [4, 5, 6]];
    // the "never escaped" sentinel equals the table length
    assert_eq!(color_for_iter(&gradient, 2), [0, 0, 0]);
    assert_eq!(color_for_iter(&gradient, 5000), [0, 0, 0]);
}

#[test]
fn lookup_empty_table_is_black() {
    let gradient: Vec<[u8; 3]> = vec![];
    assert_eq!(color_for_iter(&gradient, 0), [0, 0, 0]);
}

#[test]
fn frame_has_resolution_squared_pixels() {
    let gradient = vec![[1, 2, 3], [4, 5, 6]];
    let counts = vec![0; 9];
    let bytes = render_frame(&counts, &gradient, 3);
    assert_eq!(bytes.len(), 3 * 9);
}

#[test]
fn frame_bytes_follow_counts() {
    let gradient = vec![[10, 11, 12], [20, 21, 22], [30, 31, 32]];
    let counts = vec![0, 1, 2, 3];
    let bytes = render_frame(&counts, &gradient, 2);
    // three bytes per pixel, row-major; count 3 is past the table: black
    assert_eq!(bytes, vec![10, 11, 12, 20, 21, 22, 30, 31, 32, 0, 0, 0]);
}

#[test]
fn frame_layout_matches_image_buffer() {
    let gradient = vec![[10, 11, 12], [20, 21, 22]];
    let counts = vec![0, 1, 1, 0];
    let bytes = render_frame(&counts, &gradient, 2);
    let img = image::RgbImage::from_raw(2, 2, bytes).unwrap();
    assert_eq!(img.dimensions(), (2, 2));
    assert_eq!(img.get_pixel(0, 0), &image::Rgb([10, 11, 12]));
    assert_eq!(img.get_pixel(1, 0), &image::Rgb([20, 21, 22]));
    assert_eq!(img.get_pixel(0, 1), &image::Rgb([20, 21, 22]));
    assert_eq!(img.get_pixel(1, 1), &image::Rgb([10, 11, 12]));
}

#[test]
fn zero_resolution_frame_is_empty() {
    let gradient = vec![[1, 2, 3]];
    let counts: Vec<u32> = vec![];
    let bytes = render_frame(&counts, &gradient, 0);
    assert!(bytes.is_empty());
}
