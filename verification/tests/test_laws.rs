use pitu::compress::next_probe;
use image::{DynamicImage, RgbImage};
use pitu::compress::{compress_to_max_size, convert_format_to_bytes};
use pitu::formats::ImageFormatChoice;
use pitu::geometry::clamp_recorded_crop;
use pitu::reader::is_html_or_text_doc;
use pitu::editors::{CropEditor, EditorKey, EditorOutcome};
use pitu::paths::sanitize_input_path;
use pitu::size::parse_size_bytes;

#[test]
fn size_numerals_read_back() {
    for n in [0u64, 1, 7, 500, 1023, 65_536, (1u64 << 40) - 1] {
        assert_eq!(parse_size_bytes(&format!("{}KB", n)), Some(n * 1024));
        assert_eq!(parse_size_bytes(&format!("{}MB", n)), Some(n * 1_048_576));
        assert_eq!(parse_size_bytes(&format!("{}B", n)), Some(n));
        assert_eq!(parse_size_bytes(&n.to_string()), Some(n));
    }
}

#[test]
fn size_ignores_case_and_surrounding_space() {
    for s in ["  500Kb ", "2mB", "\t800b\n", " 1.5MB", "42", "x1KB", "  "] {
        assert_eq!(parse_size_bytes(s), parse_size_bytes(&s.trim().to_ascii_lowercase()), "{}", s);
    }
}

#[test]
fn clean_paths_come_back_trimmed_and_unchanged() {
    assert_eq!(sanitize_input_path("  /home/me/photo.png \n"), "/home/me/photo.png");
    assert_eq!(sanitize_input_path("C:/pics/a b.jpg"), "C:/pics/a b.jpg");
    for raw in ["'/tmp/x.png'", "file:///tmp/my\\ pic.png", "  \" spaced \" ", "\\ lead"] {
        let r = sanitize_input_path(raw);
        assert_eq!(r, r.trim(), "{}", raw);
    }
}

#[test]
fn committed_crop_box_stays_inside_the_image() {
    let keys = [
        EditorKey::Right, EditorKey::Down, EditorKey::Right, EditorKey::Tab, EditorKey::Right,
        EditorKey::Down, EditorKey::Left, EditorKey::Left, EditorKey::Up, EditorKey::Tab,
        EditorKey::Right, EditorKey::Right, EditorKey::Right,
    ];
    for (w, h) in [(11u32, 11u32), (12, 40), (100, 80)] {
        let mut e = CropEditor::new(w, h);
        for k in keys {
            assert_eq!(e.press(k), EditorOutcome::Continue);
        }
        e.click(w - 1, h - 1, false);
        e.click(w - 1, 0, true);
        let (x, y, cw, ch) = e.selection();
        assert!(cw >= 1 && ch >= 1 && x + cw <= w && y + ch <= h, "{}x{}", w, h);
    }
}

#[test]
fn quality_search_steps() {
    assert_eq!(next_probe(5, 100, None, true), (53, 100, Some(52)));
    assert_eq!(next_probe(5, 100, None, false), (5, 51, None));
    assert_eq!(next_probe(53, 100, Some(52), false), (53, 75, Some(52)));
    assert_eq!(next_probe(100, 100, Some(99), true), (101, 100, Some(100)));
    assert_eq!(next_probe(5, 5, None, false), (5, 4, None));
}

#[test]
fn tiff_compression_searches_and_fits() {
    let img = DynamicImage::ImageRgb8(RgbImage::new(8, 8));
    let size = convert_format_to_bytes(&img, ImageFormatChoice::Tiff, 50).unwrap().len() as u64;
    let (bytes, q) = compress_to_max_size(&img, size, ImageFormatChoice::Tiff).unwrap();
    assert_eq!(q, 100);
    assert_eq!(bytes.len() as u64, size);
    assert!(compress_to_max_size(&img, size - 1, ImageFormatChoice::Tiff).is_err());
}

#[test]
fn recorded_crops_are_clamped_to_the_image() {
    assert_eq!(clamp_recorded_crop(100, 80, 10, 20, 50, 40), Some((10, 20, 50, 40)));
    assert_eq!(clamp_recorded_crop(100, 80, 90, 70, 50, 40), Some((90, 70, 10, 10)));
    assert_eq!(clamp_recorded_crop(100, 80, 10, 20, 0, 0), Some((10, 20, 1, 1)));
    assert_eq!(clamp_recorded_crop(100, 80, 100, 0, 5, 5), None);
    assert_eq!(clamp_recorded_crop(100, 80, 0, 80, 5, 5), None);
}

#[test]
fn web_pages_are_found_by_a_lower_cased_byte_search() {
    assert!(is_html_or_text_doc(b"<!DOCTYPE HTML><p>gone</p>"));
    assert!(is_html_or_text_doc(b"HTTP 404 Not Found"));
    assert!(!is_html_or_text_doc(b"<html>data:image/png;base64,AA"));
    assert!(!is_html_or_text_doc(b"\x89PNG\r\n\x1a\n"));
}
