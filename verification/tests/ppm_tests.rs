use solo_rt::ppm::ppm_bytes;
use solo_rt::ppm::push_decimal;

#[test]
fn decimal_zero() {
    let mut out = Vec::new();
    push_decimal(&mut out, 0);
    assert_eq!(out, b"0".to_vec());
}

#[test]
fn decimal_single_digit() {
    let mut out = Vec::new();
    push_decimal(&mut out, 7);
    assert_eq!(out, b"7".to_vec());
}

#[test]
fn decimal_multi_digit() {
    let mut out = Vec::new();
    push_decimal(&mut out, 255);
    assert_eq!(out, b"255".to_vec());
}

#[test]
fn decimal_keeps_inner_zeros() {
    let mut out = Vec::new();
    push_decimal(&mut out, 1005);
    assert_eq!(out, b"1005".to_vec());
}

#[test]
fn decimal_largest_value() {
    let mut out = Vec::new();
    push_decimal(&mut out, u32::MAX);
    assert_eq!(out, b"4294967295".to_vec());
}

#[test]
fn decimal_appends_to_existing_bytes() {
    let mut out = b"w=".to_vec();
    push_decimal(&mut out, 800);
    assert_eq!(out, b"w=800".to_vec());
}

#[test]
fn ppm_single_pixel() {
    let pixels = vec![(10u8, 20u8, 30u8)];
    let bytes = ppm_bytes(1, 1, 255, &pixels);
    assert_eq!(bytes, b"P3\n1 1\n255\n10 20 30\n".to_vec());
}

#[test]
fn ppm_alternate_max_channel_value() {
    let pixels = vec![(0u8, 255u8, 0u8)];
    let bytes = ppm_bytes(1, 1, 500, &pixels);
    assert_eq!(bytes, b"P3\n1 1\n500\n0 255 0\n".to_vec());
}

#[test]
fn ppm_pixels_in_buffer_order() {
    let pixels = vec![(1u8, 2u8, 3u8), (4u8, 5u8, 6u8)];
    let bytes = ppm_bytes(2, 1, 255, &pixels);
    assert_eq!(bytes, b"P3\n2 1\n255\n1 2 3\n4 5 6\n".to_vec());
}

#[test]
fn ppm_after_downscale() {
    // The tail of the render pipeline: a 2x2 frame of green-tinted pixels
    // resampled to 1x1 and serialized byte for byte.
    let frame = vec![(0u8, 200u8, 0u8), (0, 180, 0), (0, 160, 0), (0, 140, 0)];
    let small = solo_rt::image::downscale(frame, 2, 2, 1, 1);
    let bytes = ppm_bytes(1, 1, 255, &small);
    assert_eq!(bytes, b"P3\n1 1\n255\n0 200 0\n".to_vec());
}

#[test]
fn ppm_empty_buffer_is_header_only() {
    let pixels = Vec::new();
    let bytes = ppm_bytes(800, 600, 255, &pixels);
    assert_eq!(bytes, b"P3\n800 600\n255\n".to_vec());
}
