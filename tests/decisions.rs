use jlc2kicad::json::parse_json;
use jlc2kicad::orchestrate::{
    after_download, after_footprint, batch_head, device_first_action, find_last_of, inject_model_line,
    offline_usable, component_summary, DeviceAction, extract_model_uuid_from_shape, model_candidates, model_status,
    prefer_vendor_codes,
};
use jlc2kicad::search::{
    candidate_result, code_search_candidates, describe, enrich_candidate,
    keyword_search_candidates, local_components, merge_local_entry, needs_detail, SearchResult,
};
use jlc2kicad::settings::{client_proxies, effective_proxy, proxy_to_validate, NetworkSettings};
use jlc2kicad::table::Table;

fn strings(v: &[&str]) -> Vec<String> {
    v.iter().map(|s| s.to_string()).collect()
}

#[test]
fn model_candidates_are_ordered_and_deduplicated() {
    let c = model_candidates(Some("M1".to_string()), Some("M1".to_string()), "FP");
    assert_eq!(c, strings(&["M1", "FP"]));
    let d = model_candidates(None, Some("FP".to_string()), "FP");
    assert_eq!(d, strings(&["FP"]));
    let e = model_candidates(Some("A".to_string()), None, "B");
    assert_eq!(e, strings(&["A", "B"]));
    let f = model_candidates(Some("A".to_string()), Some("B".to_string()), "A");
    assert_eq!(f, strings(&["A", "B"]));
}

#[test]
fn embedded_model_uuid() {
    let shape = strings(&[
        "PAD~RECT~0~0~1~1~1~~1~0~0",
        "SVGNODE~{\"attrs\":{\"title\":\"x\"}}",
        "SVGNODE~{\"attrs\":{\"uuid\":\"abc123\"}}",
    ]);
    assert_eq!(extract_model_uuid_from_shape(&shape).as_deref(), Some("abc123"));
    assert_eq!(extract_model_uuid_from_shape(&strings(&["SVGNODE~notjson"])), None);
}

#[test]
fn summary_reports_model_error_only_on_failure() {
    assert_eq!(model_status(true, true), "downloaded");
    assert_eq!(model_status(false, true), "failed");
    assert_eq!(model_status(false, false), "skipped");
    assert_eq!(
        component_summary("C1", true, false, false, true, Some("boom".to_string())),
        "Component C1 created successfully!\nFootprint: created\nSymbol: skipped\n3D Model: failed\n3D Error: boom"
    );
    assert_eq!(
        component_summary("C1", false, true, true, true, Some("boom".to_string())),
        "Component C1 created successfully!\nFootprint: skipped\nSymbol: created\n3D Model: downloaded"
    );
}

#[test]
fn vendor_codes_win_over_uuids() {
    let ids = strings(&["550e8400e29b41d4a716446655440000", "C12", "c7"]);
    assert_eq!(prefer_vendor_codes(ids), strings(&["C12", "c7"]));
    let only_uuids = strings(&["550e8400e29b41d4a716446655440000"]);
    assert_eq!(prefer_vendor_codes(only_uuids.clone()), only_uuids);
}

#[test]
fn proxy_choices() {
    let s = NetworkSettings::default();
    assert!(s.easyeda_use_proxy && !s.lcsc_use_proxy);
    assert_eq!(s.proxy_address, "http://127.0.0.1:10808");
    let (lcsc, primary, fallback) = client_proxies(&s);
    assert_eq!(lcsc, None);
    assert_eq!(primary.as_deref(), Some("http://127.0.0.1:10808"));
    assert_eq!(fallback, None);
    assert_eq!(proxy_to_validate(&s).as_deref(), Some("http://127.0.0.1:10808"));
    let off = NetworkSettings { easyeda_use_proxy: false, lcsc_use_proxy: false, proxy_address: " x ".to_string() };
    assert_eq!(proxy_to_validate(&off), None);
    assert_eq!(client_proxies(&off).2.as_deref(), Some(" x "));
    assert_eq!(effective_proxy(Some("  ")), None);
    assert_eq!(effective_proxy(Some(" http://p ")).as_deref(), Some("http://p"));
}

#[test]
fn code_search_results() {
    let resp = parse_json(
        r#"{"success":true,"result":[
            {"uuid":"u1","product_code":" C5 ","title":"Chip","manufacturer":"TI","package":"SOT-23","description":"d"},
            {"uuid":"u2","product_code":"C5"},
            {"uuid":"u3","code":"C6"},
            {"product_code":5}
        ]}"#,
    )
    .unwrap();
    let cs = code_search_candidates(&resp);
    assert_eq!(cs.len(), 2);
    assert_eq!(cs[0].id, "C5");
    assert!(!needs_detail(&cs[0], true));
    assert_eq!(cs[1].id, "C6");
    assert_eq!(cs[1].name, "C6");
    assert!(needs_detail(&cs[1], true));
    let detail = parse_json(r#"{"result":{"display_title":"Six","brand":"ST"}}"#).unwrap();
    let c = enrich_candidate(cs.into_iter().nth(1).unwrap(), &detail, true);
    assert_eq!(c.name, "Six");
    assert_eq!(c.manufacturer.as_deref(), Some("ST"));
    let r: SearchResult = candidate_result(c);
    assert_eq!(r.description, "封装: 未知 | 制造商: ST | 描述: Six");
    assert!(code_search_candidates(&parse_json(r#"{"success":false,"result":[]}"#).unwrap()).is_empty());
}

#[test]
fn keyword_search_results() {
    let resp = parse_json(
        r#"{"success":true,"result":{"lists":{"a":[{"uuid":"u1","title":" T "}],"b":"x","c":[{"uuid":"u1"},{"product_code":"C9","name":7}]}}}"#,
    )
    .unwrap();
    let cs = keyword_search_candidates(&resp).unwrap();
    assert_eq!(cs.len(), 2);
    assert_eq!(cs[0].id, "u1");
    assert_eq!(cs[0].name, " T ");
    assert_eq!(cs[1].id, "C9");
    assert_eq!(cs[1].name, "C9");
    assert!(keyword_search_candidates(&parse_json(r#"{"success":false}"#).unwrap()).is_none());
    assert_eq!(
        describe(&Some("P".to_string()), &None, &Some("D".to_string())),
        "封装: P | 制造商: 未知 | 描述: D"
    );
}

#[test]
fn local_listing_from_manifest() {
    let manifest = parse_json(
        r#"{"devices":{"a":{"product_code":"C10","title":"Resistor","brand":"Yageo","attributes":{"Footprint":"F1|2"}},
            "b":{"name":"none"}}}"#,
    )
    .unwrap();
    let mut titles: Table<String> = Table::new();
    titles.insert("F1".to_string(), "0603".to_string());
    let map = local_components(&manifest, &titles, "lib.elibz");
    let r = map.get("C10").unwrap();
    assert_eq!(r.name, "Resistor");
    assert_eq!(r.description, "封装: 0603 | 制造商: Yageo | 描述: Resistor | 来源: lib.elibz");
    assert_eq!(map.len(), 1);

    let mut listing: Table<SearchResult> = Table::new();
    let placeholder = SearchResult {
        id: "C10".to_string(),
        name: "C10".to_string(),
        description: "本地文件: parts.txt".to_string(),
        package: None,
        manufacturer: None,
        category: None,
        price: None,
        stock: None,
        image_url: None,
    };
    merge_local_entry(&mut listing, placeholder.clone());
    merge_local_entry(&mut listing, r.clone());
    assert_eq!(listing.get("C10").unwrap().name, "Resistor");
    merge_local_entry(&mut listing, placeholder);
    assert_eq!(listing.get("C10").unwrap().name, "Resistor");
}

#[test]
fn model_line_is_injected_before_closing() {
    let content = "(kicad_mod (version 20220214)\n  (footprint FP (identifier FP) (user FP)\n  (pad 1 smd rect (at 0 0 0) (size 1 1) (layers F.Cu F.Paste F.Mask))\n    (model old.step (at (xyz 0 0 0)) (rotate (xyz 0 0 0)))\n  )\n)\n";
    let updated = inject_model_line(content, "packages3d/FP.step");
    assert_eq!(
        updated,
        "(kicad_mod (version 20220214)\n  (footprint FP (identifier FP) (user FP)\n  (pad 1 smd rect (at 0 0 0) (size 1 1) (layers F.Cu F.Paste F.Mask))\n  (model packages3d/FP.step (at (xyz 0 0 0)) (rotate (xyz 0 0 0)))\n  )\n)\n"
    );
    assert_eq!(inject_model_line(&updated, "packages3d/FP.step"), updated);
    assert_eq!(
        inject_model_line("a\r\nb", "m.step"),
        "a\nb\n  (model m.step (at (xyz 0 0 0)) (rotate (xyz 0 0 0)))\n"
    );
    assert_eq!(
        inject_model_line("x\n)\n", "m"),
        "x\n  (model m (at (xyz 0 0 0)) (rotate (xyz 0 0 0)))\n)\n"
    );
}

#[test]
fn last_occurrence_search() {
    let s: Vec<char> = "abcabc".chars().collect();
    let t: Vec<char> = "bc".chars().collect();
    assert_eq!(find_last_of(&s, &t), Some(4));
    assert_eq!(find_last_of(&s, &"x".chars().collect()), None);
    assert_eq!(find_last_of(&s, &Vec::new()), Some(6));
}

#[test]
fn local_conversion_heads() {
    assert!(offline_usable(true, false, true, false));
    assert!(!offline_usable(true, false, true, true));
    assert_eq!(batch_head(false, false, "elibz"), "本地转换完成");
    assert_eq!(batch_head(true, false, "elibz2"), "本地转换完成（检测到 elibz2，已使用在线补全）");
    assert_eq!(batch_head(true, true, "elibz"), "本地离线转换完成（elibz）");
}

#[test]
fn per_device_steps() {
    match device_first_action(false, "C1", true, true, false) {
        DeviceAction::Finish(Some(m)) => assert_eq!(m, "C1: 本地库缺少 device 元数据"),
        other => panic!("unexpected {:?}", other),
    }
    assert!(matches!(device_first_action(true, "C1", true, true, false), DeviceAction::WriteFootprint));
    assert!(matches!(device_first_action(true, "C1", false, true, false), DeviceAction::DownloadModel));
    assert!(matches!(device_first_action(true, "C1", false, true, true), DeviceAction::Finish(None)));
    assert!(matches!(after_footprint("C1", None, true), DeviceAction::DownloadModel));
    match after_footprint("C1", Some("bad".to_string()), true) {
        DeviceAction::Finish(Some(m)) => assert_eq!(m, "C1: bad"),
        other => panic!("unexpected {:?}", other),
    }
    assert_eq!(after_download("C1", None, true), None);
    assert_eq!(
        after_download("C1", Some("x".to_string()), true).as_deref(),
        Some("C1: 封装已导出，但在线拉取3D失败: x")
    );
    assert_eq!(after_download("C1", Some("x".to_string()), false).as_deref(), Some("C1: 在线拉取3D失败: x"));
}
