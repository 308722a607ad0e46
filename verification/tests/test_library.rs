use image::{DynamicImage, RgbImage};
use pitu::compress::{compress_to_max_size, convert_format_to_bytes};
use pitu::banner::fit_line_content;
use pitu::commands::{crop_spec_of, resize_spec_of, smart_crop_spec_of, CropArgs};
use pitu::formats::{AnchorPosition, FilterMode, ImageFormatChoice, ResizeFitMode};
use pitu::geometry::{
    compute_anchor_offset, manual_crop_rect, parse_crop_spec, parse_resize_form,
    parse_smart_crop_target, CropBox, CropOptions, ResizeForm, SmartCropTarget,
};
use pitu::history::{
    first_disabled_edit, last_active_edit, rebase_flags, replay_indices, resolve_commit_ref, snapshot_file_name, snapshot_hash,
    toggle_entry, ToggleOutcome,
};
use pitu::paths::{
    choose_output_format, copy_candidate_name, detect_format_from_path, export_file_name_of,
    get_history_dir, is_supported_image, resolve_output_path, sanitize_input_path, NamingStrategy,
    SaveOptions,
};
use pitu::reader::{
    extract_polyglot_image_stream, is_html_or_text_doc, load_universal_image_bytes,
    polyglot_scannable, read_universal_image_bytes, try_decode_base64_data_uri, ReadError,
};
use pitu::report::{summarize_batch, ProcessItemResult};
use pitu::session::EditSession;
use pitu::size::parse_size_bytes;

fn png_bytes(w: u32, h: u32) -> Vec<u8> {
    let img = DynamicImage::ImageRgb8(RgbImage::new(w, h));
    let mut out = std::io::Cursor::new(Vec::new());
    img.write_to(&mut out, image::ImageFormat::Png).unwrap();
    out.into_inner()
}

fn item(path: &str, success: bool) -> ProcessItemResult {
    ProcessItemResult {
        input_path: path.to_string(),
        output_path: None,
        success,
        error: None,
        duration_ms: 1,
    }
}

// --- sizes -------------------------------------------------------------------

#[test]
fn size_specs_scale_and_trim() {
    assert_eq!(parse_size_bytes("1.5MB"), Some(1572864));
    assert_eq!(parse_size_bytes("  2kb "), Some(2048));
    assert_eq!(parse_size_bytes("0.5KB"), Some(512));
    assert_eq!(parse_size_bytes("1234"), Some(1234));
    assert_eq!(parse_size_bytes("10 B"), Some(10));
}

#[test]
fn size_specs_rejected_or_saturated() {
    assert_eq!(parse_size_bytes(""), None);
    assert_eq!(parse_size_bytes("MB"), None);
    assert_eq!(parse_size_bytes("abc"), None);
    assert_eq!(parse_size_bytes("1.5B"), None);
    assert_eq!(parse_size_bytes("-1MB"), Some(0));
}

#[test]
fn size_specs_in_float_notation() {
    assert_eq!(parse_size_bytes("1e3MB"), Some(1_048_576_000));
    assert_eq!(parse_size_bytes("2.5e1KB"), Some(25_600));
    assert_eq!(parse_size_bytes("1E-3KB"), Some(1));
    assert_eq!(parse_size_bytes("5e-1kb"), Some(512));
    assert_eq!(parse_size_bytes("1e30MB"), Some(u64::MAX));
    assert_eq!(parse_size_bytes("1e-30KB"), Some(0));
    assert_eq!(parse_size_bytes("0e99999999999999999999999999999999MB"), Some(0));
    assert_eq!(parse_size_bytes("infMB"), Some(u64::MAX));
    assert_eq!(parse_size_bytes("Infinity KB"), Some(u64::MAX));
    assert_eq!(parse_size_bytes("-inf KB"), Some(0));
    assert_eq!(parse_size_bytes("nanKB"), Some(0));
    assert_eq!(parse_size_bytes("1eMB"), None);
    assert_eq!(parse_size_bytes(".5KB"), Some(512));
    assert_eq!(parse_size_bytes("3.KB"), Some(3072));
    assert_eq!(parse_size_bytes(".MB"), None);
}

// --- crop, resize, aspect ----------------------------------------------------

#[test]
fn crop_spec_reads_four_numbers() {
    let c = parse_crop_spec("10, 20 ,30,40").unwrap();
    assert_eq!((c.x, c.y, c.width, c.height), (10, 20, Some(30), Some(40)));
    assert!(c.aspect_ratio.is_none());
    assert!(parse_crop_spec("10,20,30").is_none());
    assert!(parse_crop_spec("10,20,30,x").is_none());
}

#[test]
fn manual_crop_stays_inside_the_image() {
    let opts = CropOptions { x: 80, y: 10, width: Some(50), height: Some(20), aspect_ratio: None };
    assert_eq!(manual_crop_rect(100, 100, &opts), Some(CropBox { x: 80, y: 10, width: 20, height: 20 }));
    let outside = CropOptions { x: 200, y: 0, width: Some(10), height: Some(10), aspect_ratio: None };
    assert_eq!(manual_crop_rect(100, 100, &outside), None);
    let whole = CropOptions::default();
    assert_eq!(manual_crop_rect(40, 30, &whole), Some(CropBox { x: 0, y: 0, width: 40, height: 30 }));
}

#[test]
fn resize_forms() {
    match parse_resize_form("-x600") {
        ResizeForm::Dimensions(w, h) => assert_eq!((w, h), (None, Some(600))),
        _ => panic!("-x600 reads as a height"),
    }
    assert!(matches!(parse_resize_form("-x-"), ResizeForm::Invalid));
    assert!(matches!(parse_resize_form("large"), ResizeForm::Invalid));
    match parse_resize_form(" 25% ") {
        ResizeForm::Percent(p) => assert_eq!(p, "25"),
        _ => panic!("25% reads as a percentage"),
    }
}

#[test]
fn smart_crop_targets() {
    assert_eq!(parse_smart_crop_target("16:9"), SmartCropTarget::AspectRatio(16, 9));
    assert_eq!(parse_smart_crop_target("800x600"), SmartCropTarget::Size(800, 600));
    assert_eq!(parse_smart_crop_target("0:9"), SmartCropTarget::Unspecified);
    assert_eq!(parse_smart_crop_target("wide"), SmartCropTarget::Unspecified);
}

#[test]
fn anchor_offsets_fit_the_base() {
    assert_eq!(compute_anchor_offset(200, 100, 50, 20, AnchorPosition::BottomRight, 10), (140, 70));
    assert_eq!(compute_anchor_offset(200, 100, 50, 20, AnchorPosition::TopLeft, 10), (10, 10));
    assert_eq!(compute_anchor_offset(200, 100, 50, 20, AnchorPosition::Center, 10), (75, 40));
    let (x, y) = compute_anchor_offset(60, 30, 50, 20, AnchorPosition::BottomRight, 40);
    assert!(x + 50 <= 60 && y + 20 <= 30);
}

// --- command specs read back -------------------------------------------------

#[test]
fn crop_command_spec_round_trips() {
    let args = CropArgs {
        input: vec!["a.png".to_string()],
        x: 10,
        y: 20,
        width: Some(300),
        height: None,
        ratio: None,
    };
    let spec = crop_spec_of(&args).unwrap();
    assert_eq!(spec, "10,20,300,0");
    let c = parse_crop_spec(&spec).unwrap();
    assert_eq!((c.x, c.y, c.width, c.height), (10, 20, Some(300), Some(0)));

    let with_ratio = CropArgs { ratio: Some("16:9".to_string()), ..args };
    assert_eq!(crop_spec_of(&with_ratio), None);
    let no_size = CropArgs {
        input: vec![],
        x: 1,
        y: 2,
        width: None,
        height: None,
        ratio: None,
    };
    assert_eq!(crop_spec_of(&no_size), None);
}

#[test]
fn resize_and_smart_crop_command_specs_round_trip() {
    assert_eq!(resize_spec_of(Some(800), None).as_deref(), Some("800x-"));
    assert_eq!(resize_spec_of(None, Some(600)).as_deref(), Some("-x600"));
    assert_eq!(resize_spec_of(None, None), None);
    match parse_resize_form(&resize_spec_of(Some(4294967295), Some(7)).unwrap()) {
        ResizeForm::Dimensions(w, h) => assert_eq!((w, h), (Some(4294967295), Some(7))),
        _ => panic!("a written resize spec reads back"),
    }
    let size = smart_crop_spec_of(None, Some(640), Some(480)).unwrap();
    assert_eq!(size, "640x480");
    assert_eq!(parse_smart_crop_target(&size), SmartCropTarget::Size(640, 480));
    assert_eq!(smart_crop_spec_of(Some("4:3".to_string()), Some(1), Some(2)).as_deref(), Some("4:3"));
    assert_eq!(smart_crop_spec_of(None, Some(1), None), None);
}

// --- formats and paths -------------------------------------------------------

#[test]
fn format_defaults_and_extensions() {
    assert_eq!(ImageFormatChoice::Jpeg.extension(), "jpg");
    assert_eq!(ImageFormatChoice::Webp.extension(), "webp");
    assert_eq!(FilterMode::default(), FilterMode::Lanczos3);
    assert_eq!(ResizeFitMode::default(), ResizeFitMode::Fit);
    assert_eq!(AnchorPosition::default(), AnchorPosition::BottomRight);
}

#[test]
fn history_folders_and_export_names() {
    assert_eq!(get_history_dir("/a/b/photo.png"), "/a/b/.pitu/photo.png_history");
    assert_eq!(get_history_dir("photo.png"), ".pitu/photo.png_history");
    assert_eq!(get_history_dir("/a/b/photo.tar.gz"), "/a/b/.pitu/photo.tar.gz_history");
    assert_eq!(get_history_dir("/a/b/README"), "/a/b/.pitu/README_history");
    assert_ne!(get_history_dir("/d/photo.jpg"), get_history_dir("/d/photo.png"));
    let save = SaveOptions {
        destination_dir: "out".to_string(),
        naming_strategy: NamingStrategy::OverwriteOriginal,
        format: None,
    };
    assert_eq!(export_file_name_of("/a/b/photo.PNG", &save, 0), "photo.PNG");
    assert_eq!(export_file_name_of("/a/b/README", &save, 0), "README.png");
    let copy = SaveOptions { naming_strategy: NamingStrategy::SaveAsCopy, ..save };
    assert_eq!(export_file_name_of("/a/b/photo.jpg", &copy, 3), "photo_copy_3.jpg");
}

#[test]
fn sanitizing_trims_and_unwraps() {
    assert_eq!(sanitize_input_path("  file://C:/img.png  "), "C:/img.png");
    assert_eq!(sanitize_input_path("''\"a b.png\"''"), "a b.png");
    assert_eq!(sanitize_input_path("plain.png"), "plain.png");
}

#[test]
fn output_paths() {
    assert_eq!(
        resolve_output_path("/in/photo.jpg", None, false, Some(ImageFormatChoice::Webp), Some("pre_"), Some("_s")),
        "/in/pre_photo_s.webp"
    );
    assert_eq!(resolve_output_path("/in/photo.jpg", Some("out/"), false, None, None, None), "out/photo.jpg");
    assert_eq!(resolve_output_path("/in/photo.jpg", Some("out/result.png"), false, None, None, None), "out/result.png");
    assert_eq!(resolve_output_path("/in/photo.jpg", Some("outdir"), false, None, None, None), "outdir/photo.jpg");
    assert_eq!(resolve_output_path("/in/photo.jpg", Some("dir.d"), true, None, None, None), "dir.d/photo.jpg");
    assert_eq!(resolve_output_path("/in/photo", None, false, None, None, None), "/in/photo.png");
}

#[test]
fn supported_images_and_formats() {
    assert!(is_supported_image("a/b/c.JPEG"));
    assert!(is_supported_image("c.webp"));
    assert!(!is_supported_image("notes.txt"));
    assert!(!is_supported_image("noext"));
    assert_eq!(detect_format_from_path("x.tif"), Some(ImageFormatChoice::Tiff));
    assert_eq!(detect_format_from_path("x.txt"), None);
    assert_eq!(choose_output_format(Some(ImageFormatChoice::Gif), "x.png"), ImageFormatChoice::Gif);
    assert_eq!(choose_output_format(None, "x.bmp"), ImageFormatChoice::Bmp);
    assert_eq!(choose_output_format(None, "x.unknown"), ImageFormatChoice::Png);
}

#[test]
fn copy_names_count_up() {
    assert_eq!(copy_candidate_name("photo", "png", 0), "photo_copy.png");
    assert_eq!(copy_candidate_name("photo", "png", 1), "photo_copy_1.png");
    assert_eq!(copy_candidate_name("photo", "png", 12), "photo_copy_12.png");
}

// --- history -----------------------------------------------------------------

#[test]
fn snapshot_names() {
    assert_eq!(snapshot_hash(255), "ff");
    assert_eq!(snapshot_hash(0x1234abcd5), "1234abcd");
    assert_eq!(snapshot_file_name("photo", "ff"), "photo_ff.webp");
}

#[test]
fn rebase_disables_and_is_idempotent() {
    let mut flags = vec![true, true, true, true];
    rebase_flags(&mut flags, &[1, 3, 9]);
    assert_eq!(flags, vec![true, false, true, false]);
    let once = flags.clone();
    rebase_flags(&mut flags, &[1, 3, 9]);
    assert_eq!(flags, once);
}

#[test]
fn toggling_twice_restores() {
    let mut flags = vec![true, true, false];
    assert_eq!(toggle_entry(&mut flags, 0), ToggleOutcome::BaseLocked);
    assert_eq!(toggle_entry(&mut flags, 2), ToggleOutcome::Toggled);
    assert_eq!(flags, vec![true, true, true]);
    assert_eq!(toggle_entry(&mut flags, 2), ToggleOutcome::Toggled);
    assert_eq!(flags, vec![true, true, false]);
    assert_eq!(toggle_entry(&mut flags, 7), ToggleOutcome::OutOfRange);
    assert_eq!(flags, vec![true, true, false]);
}

#[test]
fn replay_skips_base_disabled_and_bare_entries() {
    assert_eq!(replay_indices(&[true, true, false, true, true], &[true, true, true, false, true]), vec![1, 4]);
    assert_eq!(replay_indices(&[], &[]), Vec::<usize>::new());
}

#[test]
fn persistent_undo_and_redo_targets() {
    let enabled = [true, true, false, true, false];
    let has_op = [false, true, true, true, false];
    assert_eq!(last_active_edit(&enabled, &has_op), Some(3));
    assert_eq!(first_disabled_edit(&enabled, &has_op), Some(2));
    assert_eq!(last_active_edit(&[true], &[false]), None);
    assert_eq!(first_disabled_edit(&[true, true], &[false, true]), None);
}

#[test]
fn commit_references() {
    let hashes = vec!["base".to_string(), "1a2b3c4d".to_string(), "1a2bffff".to_string()];
    assert_eq!(resolve_commit_ref(&hashes, "1"), Some(1));
    assert_eq!(resolve_commit_ref(&hashes, "2"), Some(2));
    assert_eq!(resolve_commit_ref(&hashes, "7"), None);
    assert_eq!(resolve_commit_ref(&hashes, "1a2b"), Some(1));
    assert_eq!(resolve_commit_ref(&hashes, "1a2bf"), Some(2));
    assert_eq!(resolve_commit_ref(&hashes, "base"), Some(0));
    assert_eq!(resolve_commit_ref(&hashes, "zz"), None);
    // An all-digit hash that is no valid index is looked up as a hash.
    let digits = vec!["base".to_string(), "12345678".to_string(), "66123456".to_string()];
    assert_eq!(resolve_commit_ref(&digits, "12345678"), Some(1));
    assert_eq!(resolve_commit_ref(&digits, "66123456"), Some(2));
    assert_eq!(resolve_commit_ref(&digits, "661"), Some(2));
    assert_eq!(resolve_commit_ref(&digits, "99"), None);
    assert_eq!(resolve_commit_ref(&digits, "1"), Some(1));
}

// --- session -----------------------------------------------------------------

#[test]
fn session_undo_redo_edges() {
    let mut s = EditSession::new(DynamicImage::ImageRgb8(RgbImage::new(10, 10)));
    assert!(!s.can_undo());
    assert!(!s.undo());
    assert!(!s.redo());
    s.apply_action(DynamicImage::ImageRgb8(RgbImage::new(20, 20)), "a".to_string());
    s.apply_action(DynamicImage::ImageRgb8(RgbImage::new(30, 30)), "b".to_string());
    assert!(s.undo());
    assert!(s.undo());
    assert_eq!(s.current_image.width(), 10);
    assert!(!s.undo());
    assert!(s.redo());
    assert_eq!(s.current_image.width(), 20);
    s.apply_action(DynamicImage::ImageRgb8(RgbImage::new(40, 40)), "c".to_string());
    assert!(!s.can_redo());
    assert_eq!(s.history_log, vec!["Initial Image Loaded", "Redo Operation", "c"]);
}

// --- reports and banner ------------------------------------------------------

#[test]
fn batch_report_counts() {
    let r = summarize_batch(vec![item("a", true), item("b", false), item("c", true)], false, 42);
    assert_eq!((r.total_files, r.successful, r.failed, r.duration_ms), (3, 2, 1, 42));
    let dry = summarize_batch(vec![item("a", true), item("b", false)], true, 5);
    assert_eq!((dry.total_files, dry.successful, dry.failed), (2, 0, 0));
}

#[test]
fn dashboard_lines_fit() {
    assert_eq!(fit_line_content("abc", 6), "abc   ");
    assert_eq!(fit_line_content("abcdef", 4), "abcd");
    assert_eq!(fit_line_content("\u{1b}[1mab\u{1b}[0m", 4), "\u{1b}[1mab\u{1b}[0m  ");
}

// --- the universal reader ----------------------------------------------------

#[test]
fn reader_errors() {
    assert_eq!(load_universal_image_bytes("a.png", Vec::new()).err(), Some(ReadError::EmptyFile));
    let page = b"<!DOCTYPE html><html><head><title>404 Not Found</title></head></html>".to_vec();
    assert!(is_html_or_text_doc(&page));
    assert_eq!(load_universal_image_bytes("a.png", page).err(), Some(ReadError::TextDocument));
    let junk = vec![7u8; 64];
    assert_eq!(load_universal_image_bytes("a.png", junk).err(), Some(ReadError::Undecodable));
    assert_eq!(ReadError::EmptyFile.message(), "File is empty (0 bytes)");
}

#[test]
fn polyglot_rescue() {
    let png = png_bytes(3, 2);
    let mut poly = b"#!/bin/sh\necho hello\n".to_vec();
    let prefix = poly.len();
    poly.extend_from_slice(&png);
    assert_eq!(extract_polyglot_image_stream(&poly), Some(png.clone()));
    assert_eq!(extract_polyglot_image_stream(&png), None);
    let res = load_universal_image_bytes("script.sh", poly).unwrap();
    assert!(res.polyglot_extracted);
    assert_eq!(res.detected_format, "PNG");
    assert_eq!(res.image.width(), 3);
    assert!(prefix > 0);
    assert_eq!(res.health_score, 75);
}

#[test]
fn data_uri_decoding() {
    let uri = b"data:image/png;base64,aGVsbG8gd29ybGQ=".to_vec();
    assert_eq!(try_decode_base64_data_uri(&uri), Some(b"hello world".to_vec()));
    assert_eq!(try_decode_base64_data_uri(b"short"), None);
    assert_eq!(try_decode_base64_data_uri(b"data:image/png;base64,!!!not-base64!!!"), None);
}

#[test]
fn reader_on_every_input() {
    let mut riff = b"xxxxRIFF".to_vec();
    riff.extend_from_slice(&[0, 0, 0, 0, 0]);
    assert!(!polyglot_scannable(&riff));
    assert!(read_universal_image_bytes("a.webp", riff).is_none());
    let png = png_bytes(2, 2);
    assert!(polyglot_scannable(&png));
    let res = read_universal_image_bytes("a.png", png).unwrap().unwrap();
    assert_eq!(res.detected_format, "PNG");
    assert!(!res.extension_mismatch);
    assert_eq!(res.health_score, 100);
}

#[test]
fn encoded_bytes_open_with_the_format_signature() {
    let img = DynamicImage::ImageRgb8(RgbImage::from_pixel(6, 4, image::Rgb([200, 40, 90])));
    let cases: [(ImageFormatChoice, &[u8]); 6] = [
        (ImageFormatChoice::Png, &[0x89, b'P', b'N', b'G', 0x0D, 0x0A, 0x1A, 0x0A]),
        (ImageFormatChoice::Jpeg, &[0xFF, 0xD8, 0xFF, 0xE0]),
        (ImageFormatChoice::Webp, b"RIFF"),
        (ImageFormatChoice::Gif, b"GIF89a"),
        (ImageFormatChoice::Bmp, b"BM"),
        (ImageFormatChoice::Ico, &[0, 0, 1, 0]),
    ];
    for (format, signature) in cases {
        let bytes = convert_format_to_bytes(&img, format, 80).unwrap();
        assert!(bytes.starts_with(signature), "{:?}", format);
    }
    let webp = convert_format_to_bytes(&img, ImageFormatChoice::Webp, 80).unwrap();
    assert_eq!(&webp[8..12], b"WEBP");
    let tiff = convert_format_to_bytes(&img, ImageFormatChoice::Tiff, 80).unwrap();
    assert!(tiff.starts_with(b"II*\0") || tiff.starts_with(b"MM\0*"));
    let (gif, quality) = compress_to_max_size(&img, 1_000_000, ImageFormatChoice::Gif).unwrap();
    assert!(gif.starts_with(b"GIF89a"));
    assert_eq!(quality, 100);
}

#[test]
fn compress_finds_the_highest_fitting_quality() {
    let mut pixels = RgbImage::new(64, 64);
    for (x, y, p) in pixels.enumerate_pixels_mut() {
        let v = (x.wrapping_mul(37) ^ y.wrapping_mul(91)).wrapping_mul(2654435761) >> 24;
        *p = image::Rgb([v as u8, (v >> 1) as u8, (x * 4) as u8]);
    }
    let img = DynamicImage::ImageRgb8(pixels);
    let sizes: Vec<usize> = (5..=100u8)
        .map(|q| convert_format_to_bytes(&img, ImageFormatChoice::Jpeg, q).unwrap().len())
        .collect();
    let target = sizes[60 - 5] as u64;
    let (bytes, q) = compress_to_max_size(&img, target, ImageFormatChoice::Jpeg).unwrap();
    assert!((bytes.len() as u64) <= target);
    assert!((5..=100).contains(&q));
    assert_eq!(bytes, convert_format_to_bytes(&img, ImageFormatChoice::Jpeg, q as u8).unwrap());
    if sizes.windows(2).all(|w| w[0] <= w[1]) {
        let highest = (5..=100u32).filter(|&h| sizes[(h - 5) as usize] as u64 <= target).max().unwrap();
        assert_eq!(q, highest);
    }
}

#[test]
fn compress_takes_quality_one_hundred_when_everything_fits() {
    let img = DynamicImage::ImageRgb8(RgbImage::new(16, 16));
    let (bytes, q) = compress_to_max_size(&img, 1_000_000, ImageFormatChoice::Png).unwrap();
    assert_eq!(q, 100);
    assert_eq!(bytes, convert_format_to_bytes(&img, ImageFormatChoice::Png, 100).unwrap());
}

#[test]
fn compress_fails_when_no_quality_fits() {
    let img = DynamicImage::ImageRgb8(RgbImage::new(16, 16));
    assert!(compress_to_max_size(&img, 10, ImageFormatChoice::Jpeg).is_err());
    assert!(compress_to_max_size(&img, 0, ImageFormatChoice::Png).is_err());
}
