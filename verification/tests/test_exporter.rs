use pitu::formats::ImageFormatChoice;
use pitu::paths::{compute_target_path, NamingStrategy, SaveOptions};
use std::path::Path;

#[test]
fn test_compute_target_path_save_as_copy() {
    let temp_dir = tempfile::tempdir().unwrap();
    let input_path = temp_dir.path().join("photo.jpg");

    let save_opts = SaveOptions {
        destination_dir: temp_dir.path().to_string_lossy().into_owned(),
        naming_strategy: NamingStrategy::SaveAsCopy,
        format: Some(ImageFormatChoice::Webp),
    };

    // No copy exists yet, so the first candidate name is free.
    let target = compute_target_path(&input_path.to_string_lossy(), &save_opts, 0);
    assert_eq!(Path::new(&target).file_name().unwrap(), "photo_copy.webp");
}

#[test]
fn test_compute_target_path_custom_name() {
    let temp_dir = tempfile::tempdir().unwrap();
    let input_path = temp_dir.path().join("photo.jpg");

    let save_opts = SaveOptions {
        destination_dir: temp_dir.path().to_string_lossy().into_owned(),
        naming_strategy: NamingStrategy::CustomName("my_hero".to_string()),
        format: Some(ImageFormatChoice::Png),
    };

    let target = compute_target_path(&input_path.to_string_lossy(), &save_opts, 0);
    assert_eq!(Path::new(&target).file_name().unwrap(), "my_hero.png");
}
