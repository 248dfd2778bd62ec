use jlc2kicad::api::{
    component_data_from_text, footprint_from_text, symbol_from_text, CommandResult, ComponentData,
    FootprintCPara, PackageDetail, SymbolCPara,
};
use jlc2kicad::bundle::{component_ids_in_archive, read_manifest};
use jlc2kicad::error::JlcError;
use jlc2kicad::footprint::FootprintInfo;
use jlc2kicad::json::parse_json;
use jlc2kicad::metadata::{extract_component_ids_from_file, extract_component_ids_from_json_value};
use jlc2kicad::orchestrate::{
    batch_summary, component_model_uuid_of, detect_local_bundle_kind, device_model_uuid_of,
    first_device_uuid_of,
};
use jlc2kicad::search::{
    legacy_search_results, part_image_url, public_search_results, vendor_list_search_results,
};
use std::io::Write;

fn archive(members: &[(&str, &str)]) -> Vec<u8> {
    let mut w = zip::ZipWriter::new(std::io::Cursor::new(Vec::new()));
    let opts = zip::write::SimpleFileOptions::default()
        .compression_method(zip::CompressionMethod::Stored);
    for (name, body) in members {
        w.start_file(*name, opts).unwrap();
        w.write_all(body.as_bytes()).unwrap();
    }
    w.finish().unwrap().into_inner()
}

#[test]
fn component_lookup_response() {
    let ok = r#"{"success":true,"result":[{"component_uuid":"s1"},{"component_uuid":"s2"},{"component_uuid":"fp"}]}"#;
    let data = component_data_from_text(ok, "C1").unwrap();
    let (fp, symbols) = data.split_uuids().unwrap();
    assert_eq!(fp, "fp");
    assert_eq!(symbols, vec!["s1".to_string(), "s2".to_string()]);
    let failed = component_data_from_text(r#"{"success":false,"result":[]}"#, "C1").unwrap_err();
    assert_eq!(failed.message(), "API returned error: Failed to get component C1 data");
    assert!(matches!(component_data_from_text("[]", "C1"), Err(JlcError::JsonError(_))));
    assert!(matches!(component_data_from_text(r#"{"success":true,"result":[{}]}"#, "C1"), Err(JlcError::JsonError(_))));
    let empty = ComponentData::from_json(&parse_json(r#"{"success":true,"result":[]}"#).unwrap()).unwrap();
    assert!(empty.split_uuids().is_none());
}

#[test]
fn footprint_response() {
    let text = r#"{"success":true,"result":{"title":"SOT 23","dataStr":{"shape":["PAD~1"],"head":{"x":4000,"y":3000,"c_para":{"link":"http://d"}}}}}"#;
    let f = footprint_from_text(text, "u").unwrap();
    assert_eq!(f.title, "SOT 23");
    assert_eq!(f.shape, vec!["PAD~1".to_string()]);
    assert_eq!(f.link.as_deref(), Some("http://d"));
    let no_link = r#"{"success":true,"result":{"title":"T","dataStr":{"shape":[],"head":{"x":1,"y":2}}}}"#;
    assert_eq!(footprint_from_text(no_link, "u").unwrap().link, None);
    let bad_shape = r#"{"success":true,"result":{"title":"T","dataStr":{"shape":[1],"head":{"x":1,"y":2}}}}"#;
    assert!(matches!(footprint_from_text(bad_shape, "u"), Err(JlcError::JsonError(_))));
    let failed = r#"{"success":false,"result":{"title":"T","dataStr":{"shape":[],"head":{"x":1,"y":2}}}}"#;
    assert_eq!(footprint_from_text(failed, "u9").unwrap_err().message(), "API returned error: Failed to get footprint u9 data");
    assert_eq!(FootprintCPara::from_json(&parse_json(r#"{"link":null}"#).unwrap()).unwrap().link, None);
    assert!(FootprintCPara::from_json(&parse_json(r#"{"link":3}"#).unwrap()).is_none());
}

#[test]
fn symbol_response() {
    let text = r#"{"success":true,"result":{"title":"LM358","dataStr":{"shape":["P~1"],"head":{"x":400.5,"y":-3,"c_para":{"pre":"U?"}}},
        "packageDetail":{"dataStr":{"head":{"c_para":{"pre":"IC?","Resistance":null}}}}}}"#;
    let s = symbol_from_text(text, "u").unwrap();
    assert_eq!(s.title, "LM358");
    assert_eq!((s.origin_x, s.origin_y), (4005000, -30000));
    assert_eq!(s.prefix, "IC");
    let c = SymbolCPara::from_json(&parse_json(r#"{"pre":"R?","Resistance":"10k"}"#).unwrap()).unwrap();
    assert_eq!(c.resistance.as_deref(), Some("10k"));
    assert_eq!(c.prefix(), "R");
    assert!(SymbolCPara::from_json(&parse_json(r#"{"Resistance":"10k"}"#).unwrap()).is_none());
    let pd = PackageDetail::from_json(&parse_json(r#"{"dataStr":{"head":{"c_para":{"pre":"Q"}}}}"#).unwrap()).unwrap();
    assert_eq!(pd.data_str.head.c_para.pre, "Q");
    let missing = r#"{"success":true,"result":{"title":"T","dataStr":{"shape":[],"head":{"x":1,"y":2,"c_para":{"pre":"U"}}}}}"#;
    assert!(matches!(symbol_from_text(missing, "u"), Err(JlcError::JsonError(_))));
}

#[test]
fn command_results() {
    let ok = CommandResult::succeeded("done".to_string());
    assert!(ok.success && ok.error.is_none());
    let err = CommandResult::failed("failed".to_string(), &JlcError::IoError("disk".to_string()));
    assert!(!err.success);
    assert_eq!(err.error.as_deref(), Some("IO error: disk"));
    assert_eq!(JlcError::RequestError("x".to_string()).message(), "HTTP request failed: x");
    let info = FootprintInfo::default();
    assert_eq!(info.model_dir, "packages3d");
}

#[test]
fn model_lookup_readers() {
    let by_codes = parse_json(r#"{"result":[{"uuid":"dev1"},{"uuid":"dev2"}]}"#).unwrap();
    assert_eq!(first_device_uuid_of(&by_codes).as_deref(), Some("dev1"));
    assert_eq!(first_device_uuid_of(&parse_json(r#"{"result":[]}"#).unwrap()), None);
    let device = parse_json(r#"{"result":{"attributes":{"3D Model":"m1|rev"}}}"#).unwrap();
    assert_eq!(device_model_uuid_of(&device).as_deref(), Some("m1"));
    let model = parse_json(r#"{"result":{"dataStr":"{\"model\":\"file9\"}"}}"#).unwrap();
    assert_eq!(component_model_uuid_of(&model).as_deref(), Some("file9"));
    assert_eq!(component_model_uuid_of(&parse_json(r#"{"result":{"dataStr":"x"}}"#).unwrap()), None);
}

#[test]
fn batch_reports() {
    assert_eq!(batch_summary("本地转换完成", 3, &vec![], None), "本地转换完成，成功 3 个元件");
    assert_eq!(
        batch_summary("本地离线转换完成（elibz）", 1, &vec![], Some("out/s.kicad_sym")),
        "本地离线转换完成（elibz），成功 1 个元件\n器件库文件: out/s.kicad_sym"
    );
    assert_eq!(
        batch_summary("本地转换完成", 1, &vec!["C1: a".to_string(), "C2: b".to_string()], None),
        "本地转换完成，成功 1 个，失败 2 个\nC1: a\nC2: b"
    );
    assert_eq!(detect_local_bundle_kind(&"ELIBZ".to_string(), &vec![]), "elibz");
    assert_eq!(detect_local_bundle_kind(&"".to_string(), &vec!["txt".to_string(), "Elibz2".to_string()]), "elibz2");
    assert_eq!(detect_local_bundle_kind(&"".to_string(), &vec![]), "elibz");
}

#[test]
fn identifiers_in_json_and_files() {
    let v = parse_json(r#"{"items":[{"LCSC":"c123"},"see C4567"],"uuid":"550e8400e29b41d4a716446655440000","code":7}"#).unwrap();
    let mut ids = Vec::new();
    extract_component_ids_from_json_value(&v, &mut ids);
    assert_eq!(
        ids,
        vec![
            "C123".to_string(),
            "C123".to_string(),
            "C4567".to_string(),
            "550e8400e29b41d4a716446655440000".to_string(),
            "550e8400e29b41d4a716446655440000".to_string(),
        ]
    );
    assert_eq!(extract_component_ids_from_file("csv", "x", "C100,C200"), vec!["C100".to_string(), "C200".to_string()]);
    assert_eq!(extract_component_ids_from_file("txt", "C555", "nothing"), vec!["C555".to_string()]);
    assert!(extract_component_ids_from_file("png", "C555", "C100").is_empty());
    assert_eq!(
        extract_component_ids_from_file("json", "x", r#"{"id":"C77"}"#),
        vec!["C77".to_string(), "C77".to_string()]
    );
}

#[test]
fn identifiers_in_archives() {
    let bytes = archive(&[("device2.json", r#"{"devices":{"d":{"product_code":"C900"}}}"#)]);
    assert_eq!(component_ids_in_archive(&bytes).unwrap(), vec!["C900".to_string(); 3]);
    assert!(read_manifest(&bytes).unwrap().is_some());
    let none = archive(&[("a.txt", "C1")]);
    assert!(component_ids_in_archive(&none).unwrap().is_empty());
    assert!(read_manifest(&none).unwrap().is_none());
    assert!(component_ids_in_archive(&vec![0, 1]).is_err());
}

#[test]
fn vendor_search_responses() {
    let lists = parse_json(
        r#"{"success":true,"result":{"lists":{"lcsc":[{"productCode":"C11","title":"Cap","brand":"Murata"},{"title":"no id"}]}}}"#,
    )
    .unwrap();
    let rs = vendor_list_search_results(&lists).unwrap();
    assert_eq!(rs.len(), 1);
    assert_eq!(rs[0].id, "C11");
    assert_eq!(rs[0].description, "封装: 未知 | 制造商: Murata | 描述: Cap | 来源: EasyEDA-LCSC");
    assert_eq!(rs[0].package.as_deref(), Some("未知"));
    assert!(vendor_list_search_results(&parse_json(r#"{"success":false}"#).unwrap()).is_none());

    let public = parse_json(
        r#"{"productSearchResultVO":{"productList":[{"productCode":"C22","productModel":"LM358","brandNameEn":"TI","stockNumber":"12"},{"productModel":""}]}}"#,
    )
    .unwrap();
    let ps = public_search_results(&public);
    assert_eq!(ps.len(), 1);
    assert_eq!(ps[0].description, "制造商: TI | 库存: 12");
    assert_eq!(ps[0].image_url.as_deref(), Some("https://wmsc.lcsc.com/wmsc/upload/file/eec/image/C22.jpg"));

    let legacy = parse_json(r#"{"products":[{"product_code":"C33","manufacturer":"ST"}]}"#).unwrap();
    let ls = legacy_search_results(&legacy);
    assert_eq!(ls[0].name, "C33");
    assert_eq!(ls[0].description, "封装: 未知 | 制造商: ST | 描述: 未知");
    assert_eq!(part_image_url("C1"), "https://wmsc.lcsc.com/wmsc/upload/file/eec/image/C1.jpg");
}
