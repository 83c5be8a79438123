use raytrace::{decimal_bytes, ppm_bytes, rgb_image};

#[test]
fn decimal_of_single_digits() {
    assert_eq!(decimal_bytes(0), b"0".to_vec());
    assert_eq!(decimal_bytes(7), b"7".to_vec());
}

#[test]
fn decimal_of_several_digits() {
    assert_eq!(decimal_bytes(10), b"10".to_vec());
    assert_eq!(decimal_bytes(255), b"255".to_vec());
    assert_eq!(decimal_bytes(1200), b"1200".to_vec());
    assert_eq!(decimal_bytes(usize::MAX), usize::MAX.to_string().into_bytes());
}

#[test]
fn ppm_of_two_pixels() {
    let image = vec![255, 0, 0, 0, 128, 7];
    let text = ppm_bytes(&image, 2, 1);
    assert_eq!(text, b"P3\n2 1\n255\n255 0 0 0 128 7 ".to_vec());
}

#[test]
fn ppm_rows_top_to_bottom() {
    let image = vec![1, 2, 3, 4, 5, 6, 7, 8, 9, 10, 11, 12];
    let text = ppm_bytes(&image, 2, 2);
    assert_eq!(
        String::from_utf8(text).unwrap(),
        "P3\n2 2\n255\n1 2 3 4 5 6 7 8 9 10 11 12 "
    );
}

#[test]
fn ppm_ignores_bytes_past_the_frame() {
    let image = vec![9, 9, 9, 100, 100, 100];
    let text = ppm_bytes(&image, 1, 1);
    assert_eq!(text, b"P3\n1 1\n255\n9 9 9 ".to_vec());
}

#[test]
fn ppm_of_empty_frame_is_header_only() {
    let image: Vec<u8> = Vec::new();
    assert_eq!(ppm_bytes(&image, 0, 3), b"P3\n0 3\n255\n".to_vec());
}

#[test]
fn rgb_image_keeps_pixels_in_row_major_order() {
    let image = vec![10, 20, 30, 40, 50, 60, 70, 80, 90, 100, 110, 120];
    let frame = rgb_image(&image, 2, 2).unwrap();
    assert_eq!(frame.image.dimensions(), (2, 2));
    assert_eq!(frame.image.get_pixel(0, 0).0, [10, 20, 30]);
    assert_eq!(frame.image.get_pixel(1, 0).0, [40, 50, 60]);
    assert_eq!(frame.image.get_pixel(0, 1).0, [70, 80, 90]);
    assert_eq!(frame.image.get_pixel(1, 1).0, [100, 110, 120]);
}

#[test]
fn rgb_image_drops_bytes_past_the_frame() {
    let image = vec![1, 2, 3, 4, 5, 6, 7];
    let frame = rgb_image(&image, 2, 1).unwrap();
    assert_eq!(frame.image.into_raw(), vec![1, 2, 3, 4, 5, 6]);
}

#[test]
fn rgb_image_refuses_short_buffer() {
    let image = vec![1, 2, 3, 4, 5];
    assert!(rgb_image(&image, 2, 1).is_none());
    assert!(rgb_image(&image, u32::MAX, u32::MAX).is_none());
}

#[test]
fn rgb_image_of_empty_frame() {
    let image: Vec<u8> = Vec::new();
    let frame = rgb_image(&image, 0, 0).unwrap();
    assert_eq!(frame.image.dimensions(), (0, 0));
}
