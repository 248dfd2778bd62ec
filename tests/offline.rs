use std::io::Write;

use jlc2kicad::bundle::{
    extract_data_str_from_component_blob, get_footprint_title_by_uuid, get_symbol_data_by_uuid,
    load_offline_bundle_from_archive, merge_bundles, parse_elibu_content, OfflineBundle,
    OfflineDevice,
};
use jlc2kicad::convert::{
    create_footprint_from_offline, create_symbols_from_offline, parse_local_data_str,
    symbol_prefix_from_ds,
};
use jlc2kicad::error::JlcError;
use jlc2kicad::eventlog::{
    decode_event_line, elibu_pin_type_to_code, extract_polyline_numbers, json_num, json_str,
    replay_event_log,
};
use jlc2kicad::json::parse_json;

fn archive(members: &[(&str, &str)]) -> Vec<u8> {
    let mut w = zip::ZipWriter::new(std::io::Cursor::new(Vec::new()));
    let opts = zip::write::SimpleFileOptions::default()
        .compression_method(zip::CompressionMethod::Stored);
    for (name, body) in members {
        w.start_file(*name, opts).unwrap();
        w.write_all(body.as_bytes()).unwrap();
    }
    w.finish().unwrap().into_inner()
}

const EVENT_LOG: &str = "{\"type\":\"DOCHEAD\",\"id\":\"h1\"}||{\"docType\":\"SYMBOL\",\"uuid\":\"S1\"}|\n\
{\"type\":\"PIN\",\"id\":\"pin1\"}||{\"x\":10,\"y\":20,\"rotation\":90}|\n\
{\"type\":\"ATTR\",\"id\":\"a1\"}||{\"parentId\":\"pin1\",\"key\":\"Pin Number\",\"value\":\"1\"}|\n\
{\"type\":\"ATTR\",\"id\":\"a2\"}||{\"parentId\":\"pin1\",\"key\":\"Pin Name\",\"value\":\"VCC\"}|\n\
not an event\n\
{\"type\":\"DOCHEAD\",\"id\":\"h2\"}||{\"docType\":\"FOOTPRINT\",\"uuid\":\"F1\"}|\n\
{\"type\":\"PAD\",\"id\":\"pad1\"}||{\"centerX\":5,\"centerY\":6,\"num\":\"1\",\"defaultPad\":{\"padType\":\"RECT\",\"width\":2,\"height\":3}}|\n\
{\"type\":\"PIN\",\"id\":\"pin2\"}||{\"x\":1,\"y\":1}|\n";

#[test]
fn event_log_documents_stay_apart() {
    let docs = replay_event_log(EVENT_LOG);
    assert_eq!(docs.len(), 2);
    assert!(docs[0].is_symbol);
    assert_eq!(docs[0].uuid, "S1");
    assert_eq!(docs[0].text, "P~1~0~1~10~20~90~0~0~0~0~0~0~0~VCC");
    assert!(!docs[1].is_symbol);
    assert_eq!(docs[1].uuid, "F1");
    assert_eq!(docs[1].text, "PAD~RECT~5~6~2~3~1~0~1~0~0~0");
}

#[test]
fn event_log_fills_bundle_once() {
    let mut bundle = OfflineBundle::new();
    bundle.symbol_data.insert("S1".to_string(), "kept".to_string());
    parse_elibu_content(EVENT_LOG, &mut bundle);
    assert_eq!(bundle.symbol_data.get("S1").map(|s| s.as_str()), Some("kept"));
    assert_eq!(
        bundle.footprint_data.get("F1").map(|s| s.as_str()),
        Some("PAD~RECT~5~6~2~3~1~0~1~0~0~0")
    );
}

#[test]
fn event_log_document_without_uuid_is_dropped() {
    let log = "{\"type\":\"DOCHEAD\"}||{\"docType\":\"FOOTPRINT\"}\n\
{\"type\":\"POLY\"}||{\"path\":[\"CIRCLE\",1,2,-3],\"layerId\":5}\n\
{\"type\":\"DOCHEAD\"}||{\"docType\":\"footprint\",\"uuid\":\"F2\"}\n\
{\"type\":\"POLY\"}||{\"path\":[\"CIRCLE\",1,2,-3],\"layerId\":5}\n\
{\"type\":\"FILL\"}||{\"path\":[0,0,\"1.5\",2,7],\"width\":0.5}\n\
{\"type\":\"PAD\"}||{\"hole\":{\"diameter\":3},\"padAngle\":45}\n";
    let docs = replay_event_log(log);
    assert_eq!(docs.len(), 1);
    assert_eq!(docs[0].uuid, "F2");
    assert_eq!(
        docs[0].text,
        "CIRCLE~1~2~3~0.2~5\nTRACK~0.5~3~0~0 0 1.5 2\nPAD~OVAL~0~0~1~1~11~0~1~1.5~0~45"
    );
}

#[test]
fn symbol_shapes_from_event_log() {
    let log = "{\"type\":\"DOCHEAD\"}||{\"docType\":\"Symbol\",\"uuid\":\"S9\"}\n\
{\"type\":\"RECT\"}||{\"dotX1\":1,\"dotY1\":2,\"dotX2\":4}\n\
{\"type\":\"ELLIPSE\"}||{\"centerX\":1,\"centerY\":1,\"radiusX\":0,\"radiusY\":-2}\n\
{\"type\":\"POLY\"}||{\"path\":[0,0,1,1]}\n";
    let docs = replay_event_log(log);
    assert_eq!(docs.len(), 1);
    assert_eq!(docs[0].text, "R~1~2~0~0~3~0\nE~1~1~2\nPL~0 0 1 1");
}

#[test]
fn event_line_decoding() {
    let (kind, id, payload) =
        decode_event_line(&"  {\"type\":\"PIN\",\"id\":\"p\"}|| {\"x\":1} ||  ".to_string()).unwrap();
    assert_eq!(kind, "PIN");
    assert_eq!(id, "p");
    assert_eq!(json_num(jlc2kicad::json::get(&payload, "x")), Some(10000));
    assert!(decode_event_line(&"{\"type\":\"PIN\"}".to_string()).is_none());
    assert!(decode_event_line(&"||{}".to_string()).is_none());
    assert!(decode_event_line(&"{\"type\":\"X\"}||{bad".to_string()).is_none());
}

#[test]
fn pin_types_and_json_values() {
    assert_eq!(elibu_pin_type_to_code(&"Input".to_string()), "1");
    assert_eq!(elibu_pin_type_to_code(&"POWER_IN".to_string()), "4");
    assert_eq!(elibu_pin_type_to_code(&"passive".to_string()), "0");
    let v = parse_json(r#"{"a":" 12 ","b":3.5,"c":[1,"2",null,"x"]}"#).unwrap();
    assert_eq!(json_num(jlc2kicad::json::get(&v, "a")), None);
    assert_eq!(json_num(jlc2kicad::json::get(&v, "b")), Some(35000));
    assert_eq!(json_str(jlc2kicad::json::get(&v, "a")).as_deref(), Some("12"));
    assert_eq!(json_str(jlc2kicad::json::get(&v, "b")).as_deref(), Some("3.5"));
    assert_eq!(extract_polyline_numbers(jlc2kicad::json::get(&v, "c").unwrap()), vec![10000, 20000]);
}

#[test]
fn blob_payloads_are_normalized() {
    assert_eq!(
        extract_data_str_from_component_blob(r#" {"dataStr":"PAD~1"} "#).as_deref(),
        Some("PAD~1")
    );
    assert_eq!(
        extract_data_str_from_component_blob(r#"{"dataStr":{"shape":["A~1"]}}"#).as_deref(),
        Some(r#"{"shape":["A~1"]}"#)
    );
    assert_eq!(
        extract_data_str_from_component_blob(r#"{"shape":[],"x":1}"#).as_deref(),
        Some(r#"{"shape":[],"x":1}"#)
    );
    assert_eq!(extract_data_str_from_component_blob("  TRACK~1  ").as_deref(), Some("TRACK~1"));
    assert_eq!(extract_data_str_from_component_blob("   "), None);
}

#[test]
fn local_data_strings() {
    let (shape, x, y) =
        parse_local_data_str(r#"{"shape":["PAD~1",3,"TRACK~2"],"head":{"x":4000.5,"y":"7"}}"#).unwrap();
    assert_eq!(shape, vec!["PAD~1".to_string(), "TRACK~2".to_string()]);
    assert_eq!((x, y), (40005000, 0));
    let (lines, x2, _) = parse_local_data_str("a\n PAD~1 \n\nplain\n").unwrap();
    assert_eq!(lines, vec!["PAD~1".to_string()]);
    assert_eq!(x2, 0);
    assert!(parse_local_data_str("nothing here").is_none());
    assert_eq!(symbol_prefix_from_ds(r#"{"head":{"c_para":{"pre":"R?"}}}"#), "R");
    assert_eq!(symbol_prefix_from_ds(r#"{"head":{"c_para":{"pre":"?"}}}"#), "U");
    assert_eq!(symbol_prefix_from_ds("x"), "U");
}

#[test]
fn symbol_pins_are_written_in_id_order() {
    let log = "{\"type\":\"DOCHEAD\"}||{\"docType\":\"SYMBOL\",\"uuid\":\"S\"}\n\
{\"type\":\"PIN\",\"id\":\"b\"}||{\"x\":2}\n\
{\"type\":\"PIN\",\"id\":\"a\"}||{\"x\":1}\n\
{\"type\":\"PIN\",\"id\":\"c\"}||{\"x\":3}\n\
{\"type\":\"PIN\",\"id\":\"b\"}||{\"x\":4}\n";
    let docs = replay_event_log(log);
    assert_eq!(docs.len(), 1);
    assert_eq!(
        docs[0].text,
        "P~1~0~0~1~0~0~0~0~0~0~0~0~0~\nP~1~0~0~4~0~0~0~0~0~0~0~0~0~\nP~1~0~0~3~0~0~0~0~0~0~0~0~0~"
    );
}

#[test]
fn prefix_fallback_takes_least_key() {
    let mut bundle = OfflineBundle::new();
    bundle.symbol_data.insert("S1|b".to_string(), "second".to_string());
    bundle.symbol_data.insert("S1|a".to_string(), "first".to_string());
    assert_eq!(get_symbol_data_by_uuid(&bundle, "S1").as_deref(), Some("first"));
    assert_eq!(get_symbol_data_by_uuid(&bundle, "S1|b").as_deref(), Some("second"));
}

#[test]
fn uuid_lookups_fall_back_to_prefix() {
    let mut bundle = OfflineBundle::new();
    bundle.symbol_data.insert("ABC|2".to_string(), "x".to_string());
    bundle.footprint_titles.insert("F1".to_string(), "Title".to_string());
    assert_eq!(get_symbol_data_by_uuid(&bundle, "ABC|1").as_deref(), Some("x"));
    assert_eq!(get_symbol_data_by_uuid(&bundle, "ABD|1"), None);
    assert_eq!(get_footprint_title_by_uuid(&bundle, "F1|7").as_deref(), Some("Title"));
}

#[test]
fn offline_bundle_end_to_end() {
    let manifest = r#"{"devices":{"d1":{"product_code":"C2000","attributes":{"Footprint":"F1|1","Symbol":"S1"}}},
        "footprints":{"F1":{"title":"Test FP"}},
        "symbols":{"S1":{"title":"Sym","head":{"c_para":{"pre":"R?"}}}}}"#;
    let fp = "PAD~RECT~10~20~5~5~1~~1~0~0\nPAD~RECT~30~40~5~5~1~~2~0~0";
    let bytes = archive(&[
        ("device.json", manifest),
        ("FOOTPRINT/F1.efoo", fp),
        ("SYMBOL/S1.esym", "{\"dataStr\":{\"shape\":[\"E~0~0~3.937\"],\"head\":{\"x\":0,\"y\":0}}}"),
    ]);
    let bundle = load_offline_bundle_from_archive(&bytes).unwrap();
    let device: &OfflineDevice = bundle.devices.get("C2000").unwrap();
    assert_eq!(device.footprint_uuid.as_deref(), Some("F1"));
    assert_eq!(device.symbol_uuids, vec!["S1".to_string()]);
    let title = get_footprint_title_by_uuid(&bundle, "F1");
    assert_eq!(title.as_deref(), Some("Test FP"));
    let ds = bundle.footprint_data.get("F1").unwrap();
    let (name, text) = create_footprint_from_offline(device, title.as_deref(), ds, None).unwrap();
    assert_eq!(name, "Test_FP");
    assert_eq!(text.matches("  (pad ").count(), 2);
    let pad_ys: Vec<f64> = text
        .lines()
        .filter(|l| l.starts_with("  (pad "))
        .map(|l| l.split("(at ").nth(1).unwrap().split(' ').nth(1).unwrap().parse().unwrap())
        .collect();
    let min_y = pad_ys.iter().cloned().fold(f64::INFINITY, f64::min);
    let ref_line = text.lines().find(|l| l.contains("fp_text reference")).unwrap();
    let ref_y: f64 = ref_line
        .split("(at ")
        .nth(1)
        .unwrap()
        .split(')')
        .next()
        .unwrap()
        .split(' ')
        .nth(1)
        .unwrap()
        .parse()
        .unwrap();
    assert!((ref_y - (min_y - 2.0)).abs() < 1e-9);

    let devices = vec![device.duplicate()];
    let (lib, count) = create_symbols_from_offline(&devices, &bundle);
    assert_eq!(count, 1);
    assert!(lib.contains("(symbol \"Sym_C2000\""));
    assert!(lib.contains("(property \"Reference\" \"R?\""));
}

#[test]
fn archive_without_blobs_replays_event_log() {
    let manifest = r#"{"devices":{"d":{"lcsc":"C3000","attributes":{"Footprint":"F1"}}}}"#;
    let bytes = archive(&[("device2.json", manifest), ("lib.elibu", EVENT_LOG)]);
    let bundle = load_offline_bundle_from_archive(&bytes).unwrap();
    assert_eq!(bundle.footprint_data.get("F1").map(|s| s.as_str()), Some("PAD~RECT~5~6~2~3~1~0~1~0~0~0"));
    assert!(bundle.symbol_data.get("S1").is_some());
    let mut merged = OfflineBundle::new();
    merged.footprint_data.insert("F1".to_string(), "old".to_string());
    merge_bundles(&mut merged, bundle);
    assert_eq!(merged.footprint_data.get("F1").map(|s| s.as_str()), Some("PAD~RECT~5~6~2~3~1~0~1~0~0~0"));
    assert!(merged.devices.get("C3000").is_some());
}

#[test]
fn archive_errors() {
    assert!(matches!(load_offline_bundle_from_archive(&vec![1, 2, 3]), Err(JlcError::ApiError(_))));
    let blob_bytes = {
        let mut w = zip::ZipWriter::new(std::io::Cursor::new(Vec::new()));
        let opts = zip::write::SimpleFileOptions::default()
            .compression_method(zip::CompressionMethod::Stored);
        w.start_file("device.json", opts).unwrap();
        w.write_all(b"{}").unwrap();
        w.start_file("F.efoo", opts).unwrap();
        w.write_all(&[0xff, 0xfe]).unwrap();
        w.finish().unwrap().into_inner()
    };
    assert!(matches!(load_offline_bundle_from_archive(&blob_bytes), Err(JlcError::IoError(_))));
    let bad = archive(&[("device.json", "{nope")]);
    assert!(matches!(load_offline_bundle_from_archive(&bad), Err(JlcError::JsonError(_))));
    let empty = load_offline_bundle_from_archive(&archive(&[("readme.txt", "x")])).unwrap();
    assert!(empty.devices.is_empty() && empty.footprint_data.is_empty());
    let device = OfflineDevice {
        id: "C1".to_string(),
        name: "N".to_string(),
        footprint_uuid: None,
        symbol_uuids: vec![],
        model_title: None,
    };
    let err = create_footprint_from_offline(&device, None, "no records", None).unwrap_err();
    assert!(matches!(err, JlcError::ParseError(_)));
    assert_eq!(err.message(), "Parse error: cannot parse the local footprint data");
}
