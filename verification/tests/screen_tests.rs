use crambo_desktop::screen::encode_screenshot;

#[test]
fn screenshot_frames_are_encoded_as_jpeg() {
    let rgba = vec![200u8; 4 * 8 * 8];
    let jpeg = encode_screenshot(8, 8, rgba).unwrap();
    assert_eq!(&jpeg[..2], &[0xff, 0xd8]);
    assert_eq!(&jpeg[jpeg.len() - 2..], &[0xff, 0xd9]);
}

#[test]
fn short_frames_are_refused() {
    assert_eq!(encode_screenshot(8, 8, vec![0u8; 10]), Err("Failed to create image buffer".to_string()));
    let longer = vec![10u8; 4 * 4 * 4 + 7];
    assert!(encode_screenshot(4, 4, longer).is_ok());
}

#[test]
fn frames_wider_than_jpeg_allows_fail_to_encode() {
    match encode_screenshot(70000, 1, vec![0u8; 4 * 70000]) {
        Err(m) => assert!(m.starts_with("Failed to encode JPEG: ")),
        Ok(_) => panic!("JPEG dimensions are limited to 65535"),
    }
}
