use pitu::geometry::parse_aspect_ratio;

#[test]
fn test_aspect_ratio_parsing() {
    assert_eq!(parse_aspect_ratio("16:9"), Some((16, 9)));
    assert_eq!(parse_aspect_ratio("1:1"), Some((1, 1)));
    assert_eq!(parse_aspect_ratio("4:3"), Some((4, 3)));
    assert_eq!(parse_aspect_ratio("invalid"), None);
}
