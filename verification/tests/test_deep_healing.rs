use pitu::reader::load_universal_image_bytes;
use pitu::repair::plan_repair;

#[test]
fn test_base64_data_uri_rescue() {
    // A Base64 encoded 1x1 PNG data URI string
    let b64_str = "data:image/png;base64,iVBORw0KGgoAAAANSUhEUgAAAAEAAAABCAYAAAAfFcSJAAAADUlEQVR42mNk+M9QDwADhgGAWjR9awAAAABJRU5ErkJggg==";
    let raw = b64_str.as_bytes().to_vec();

    let res = load_universal_image_bytes("data_uri.txt", raw.clone()).unwrap();
    assert_eq!(res.detected_format, "PNG");
    assert!(res.base64_decoded);

    assert_eq!(res.image.width(), 1);
    assert_eq!(res.image.height(), 1);

    let plan = plan_repair(
        "data_uri.txt",
        &raw,
        &res.detected_format,
        res.extension_mismatch,
        &res.expected_ext,
        res.health_score,
        res.polyglot_extracted,
        res.base64_decoded,
        res.image.color().has_alpha(),
    );
    assert!(plan.was_repaired);
    assert_eq!(plan.repair_log[0], "Rescued raw image data from Base64 Data URI wrapper.");
}
