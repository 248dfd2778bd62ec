use jlc2kicad::ident::{
    looks_like_hex_uuid, looks_like_uuidish, normalize_component_token, normalize_display_name,
    sanitize_footprint_name, split_uuid_first, uuid_first_part,
};
use jlc2kicad::json::{first_non_empty_str, json_to_string, parse_json, Json};
use jlc2kicad::metadata::{
    extract_brief_desc, extract_component_ids_from_text, extract_manufacturer_name,
    extract_package_name, extract_preferred_local_id, first_readable_package,
};

#[test]
fn uuidish_classification() {
    assert!(looks_like_uuidish("550e8400-e29b-41d4-a716-446655440000"));
    assert!(looks_like_uuidish("550e8400e29b41d4a716446655440000"));
    assert!(!looks_like_uuidish("C12345"));
    assert!(!looks_like_uuidish(""));
    assert!(looks_like_uuidish("  550e8400e29b41d4a716446655440000|3  "));
    assert!(!looks_like_uuidish("550e8400xe29b-41d4-a716-446655440000"));
    assert!(looks_like_hex_uuid(" 550E8400E29B41D4A716446655440000 "));
    assert!(!looks_like_hex_uuid("550e8400e29b41d4a716446655440000|3"));
}

#[test]
fn identifier_normalization() {
    assert_eq!(normalize_component_token("c12345").as_deref(), Some("C12345"));
    assert_eq!(normalize_component_token("  C999  ").as_deref(), Some("C999"));
    assert_eq!(normalize_component_token("C123456789012345678901"), None);
    assert_eq!(normalize_component_token("\"C77\"").as_deref(), Some("C77"));
    assert_eq!(normalize_component_token("'c5-x'").as_deref(), Some("C5"));
    assert_eq!(normalize_component_token("R100"), None);
    assert_eq!(normalize_component_token("   "), None);
    assert_eq!(
        normalize_component_token("c0ffee12-e29b-41d4-a716-446655440000").as_deref(),
        Some("c0ffee12-e29b-41d4-a716-446655440000")
    );
}

#[test]
fn display_name_falls_back() {
    assert_eq!(normalize_display_name(Some(" Res 10k ".to_string()), "C1", Some("0603")), "Res 10k");
    assert_eq!(
        normalize_display_name(Some("550e8400e29b41d4a716446655440000".to_string()), "C1", Some(" 0603 ")),
        "0603"
    );
    assert_eq!(normalize_display_name(None, "C1", Some("550e8400e29b41d4a716446655440000")), "C1");
    assert_eq!(normalize_display_name(Some("x".repeat(101)), "C1", None), "C1");
    assert_eq!(normalize_display_name(Some("电".repeat(34)), "C1", None), "C1");
    assert_eq!(normalize_display_name(Some("电".repeat(33)), "C1", None), "电".repeat(33));
}

#[test]
fn uuid_parts() {
    assert_eq!(uuid_first_part("abc|def|g"), "abc");
    assert_eq!(uuid_first_part("abc"), "abc");
    assert_eq!(split_uuid_first(Some("  abc |x")).as_deref(), Some("abc"));
    assert_eq!(split_uuid_first(Some(" |x")), None);
    assert_eq!(split_uuid_first(None), None);
}

#[test]
fn footprint_names_are_sanitized() {
    assert_eq!(sanitize_footprint_name("SOT-23 (3/pin)"), "SOT-23__3_pin_");
}

#[test]
fn preferred_identifier_prefers_vendor_code() {
    let dev = parse_json(r#"{"id":"550e8400-e29b-41d4-a716-446655440000","product_code":"C1001"}"#).unwrap();
    assert_eq!(extract_preferred_local_id(&dev).as_deref(), Some("C1001"));
}

#[test]
fn preferred_identifier_scans_then_falls_back() {
    let scanned = parse_json(r#"{"note":"see C2040 for details","id":"x"}"#).unwrap();
    assert_eq!(extract_preferred_local_id(&scanned).as_deref(), Some("C2040"));
    let nested = parse_json(r#"{"attributes":{"LCSC Part":"c3050"}}"#).unwrap();
    assert_eq!(extract_preferred_local_id(&nested).as_deref(), Some("C3050"));
    let uuid_only = parse_json(r#"{"uuid":"550e8400e29b41d4a716446655440000"}"#).unwrap();
    assert_eq!(
        extract_preferred_local_id(&uuid_only).as_deref(),
        Some("550e8400e29b41d4a716446655440000")
    );
    let nothing = parse_json(r#"{"name":"resistor"}"#).unwrap();
    assert_eq!(extract_preferred_local_id(&nothing), None);
}

#[test]
fn package_extraction_order() {
    let direct = parse_json(r#"{"package":"550e8400e29b41d4a716446655440000","footprintName":" 0402 "}"#).unwrap();
    assert_eq!(extract_package_name(&direct).as_deref(), Some("0402"));
    let nested = parse_json(r#"{"footprint":{"title":"SOT-23"}}"#).unwrap();
    assert_eq!(extract_package_name(&nested).as_deref(), Some("SOT-23"));
    let attrs = parse_json(r#"{"attributes":{"封装":"QFN-32"}}"#).unwrap();
    assert_eq!(extract_package_name(&attrs).as_deref(), Some("QFN-32"));
    let deep = parse_json(r#"{"attributes":{"footprint":{"name":"DIP-8"}}}"#).unwrap();
    assert_eq!(extract_package_name(&deep).as_deref(), Some("DIP-8"));
    let none = parse_json(r#"{"other":1}"#).unwrap();
    assert_eq!(extract_package_name(&none), None);
}

#[test]
fn manufacturer_and_description() {
    let v = parse_json(r#"{"brand":" TI ","attributes":{"Description":"Op amp"}}"#).unwrap();
    assert_eq!(extract_manufacturer_name(&v).as_deref(), Some("TI"));
    assert_eq!(extract_brief_desc(&v).as_deref(), Some("Op amp"));
    let keys = vec!["missing", "brand"];
    assert_eq!(first_non_empty_str(&v, &keys).as_deref(), Some("TI"));
    assert_eq!(first_readable_package(&v, &keys).as_deref(), Some("TI"));
}

#[test]
fn component_ids_in_text() {
    let ids = extract_component_ids_from_text("parts: C1234, C99 and C5678x C777");
    assert_eq!(ids, vec!["C1234".to_string(), "C777".to_string()]);
}

#[test]
fn json_round_trip_through_text() {
    let v = parse_json(r#"{"b":[1,2.5,"x"],"a":null}"#).unwrap();
    assert_eq!(json_to_string(&v), r#"{"a":null,"b":[1,2.5,"x"]}"#);
    assert!(parse_json("{not json").is_none());
    match parse_json("7").unwrap() {
        Json::Number(n) => assert_eq!(n, "7"),
        _ => panic!("expected a number"),
    }
}
