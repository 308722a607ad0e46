use pitu::geometry::{parse_resize_form, ResizeForm};

#[test]
fn test_resize_spec_parsing() {
    match parse_resize_form("800x600") {
        ResizeForm::Dimensions(w, h) => {
            assert_eq!(w, Some(800));
            assert_eq!(h, Some(600));
        }
        _ => panic!("800x600 should read as dimensions"),
    }

    match parse_resize_form("50%") {
        ResizeForm::Percent(p) => assert_eq!(p.parse::<f32>().ok(), Some(50.0)),
        _ => panic!("50% should read as a percentage"),
    }

    match parse_resize_form("800x-") {
        ResizeForm::Dimensions(w, h) => {
            assert_eq!(w, Some(800));
            assert_eq!(h, None);
        }
        _ => panic!("800x- should read as dimensions"),
    }
}
