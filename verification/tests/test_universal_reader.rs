use image::RgbImage;
use pitu::reader::load_universal_image_bytes;

#[test]
fn test_universal_reader_mismatched_extension() {
    // A JPEG image saved under a .png name
    let img_buf = RgbImage::new(100, 100);
    let mut bytes: Vec<u8> = Vec::new();
    let mut encoder = image::codecs::jpeg::JpegEncoder::new_with_quality(&mut bytes, 85);
    encoder.encode_image(&img_buf).unwrap();

    let res = load_universal_image_bytes("fake_image.png", bytes).unwrap();
    assert_eq!(res.detected_format, "JPEG");
    assert!(res.extension_mismatch);
    assert_eq!(res.expected_ext, "jpg");
}
