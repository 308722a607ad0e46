use pitu::paths::sanitize_input_path;

#[test]
fn test_path_sanitization() {
    // 1. Double quotes
    assert_eq!(
        sanitize_input_path("\"/home/user/Pictures/photo.jpg\""),
        "/home/user/Pictures/photo.jpg"
    );

    // 2. Single quotes
    assert_eq!(
        sanitize_input_path("'/home/user/Pictures/photo.jpg'"),
        "/home/user/Pictures/photo.jpg"
    );

    // 3. File URL protocol (file:///)
    assert_eq!(
        sanitize_input_path("file:///home/user/Pictures/photo.jpg"),
        "/home/user/Pictures/photo.jpg"
    );

    // 4. Escaped spaces (\ )
    assert_eq!(
        sanitize_input_path("/home/user/My\\ Photos/cat\\ picture.png"),
        "/home/user/My Photos/cat picture.png"
    );
}
