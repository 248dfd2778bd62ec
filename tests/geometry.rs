use jlc2kicad::footprint::{
    calculate_footprint_bounds, layer_map, parse_arc, parse_circle, parse_hole, parse_pad,
    parse_rect, parse_text, parse_track, render_footprint, split_record, FootprintInfo,
    BOUNDS_SENTINEL,
};
use jlc2kicad::num::{format_mm, format_units, mil2mm, mm2mil, parse_number};
use jlc2kicad::symbol::{
    parse_symbol_pin, parse_symbol_poly, render_symbol_entry, render_symbol_library,
    symbol_component_name, SymbolProperties,
};

fn args(line: &str) -> Vec<String> {
    let toks = split_record(line);
    toks[1..].to_vec()
}

fn strings(v: &[&str]) -> Vec<String> {
    v.iter().map(|s| s.to_string()).collect()
}

#[test]
fn mil_to_mm_is_exact_for_one_millimetre() {
    let v = parse_number("3.937").unwrap();
    assert_eq!(v, 39370);
    assert_eq!(mil2mm(v), 1_000_000);
    assert_eq!(format_mm(mil2mm(v)), "1");
}

#[test]
fn mil_to_mm_round_trips() {
    for v in [0i64, 1, -1, 39370, 123456789, -987654321, 1_000_000_000_000] {
        assert_eq!(mm2mil(mil2mm(v)), v);
    }
    let x = mil2mm(parse_number("10").unwrap()) as f64 / 1e6;
    assert!((x - 10.0 / 3.937).abs() < 1e-6);
}

#[test]
fn number_parsing_and_formatting() {
    assert_eq!(parse_number("-12.5"), Some(-125000));
    assert_eq!(parse_number("+4"), Some(40000));
    assert_eq!(parse_number(".25"), Some(2500));
    assert_eq!(parse_number("1.23456"), Some(12346));
    assert_eq!(parse_number("1.23454"), Some(12345));
    assert_eq!(parse_number("-1.00005"), Some(-10001));
    assert_eq!(parse_number("2.5E-3"), Some(25));
    assert_eq!(parse_number("1e-7"), Some(0));
    assert_eq!(parse_number("5e-5"), Some(1));
    assert_eq!(parse_number("3e+2"), Some(3_000_000));
    assert_eq!(parse_number("1e401"), None);
    assert_eq!(parse_number("1e"), None);
    assert_eq!(parse_number(""), None);
    assert_eq!(parse_number("-"), None);
    assert_eq!(parse_number("1e5"), Some(1_000_000_000));
    assert_eq!(parse_number("1.2.3"), None);
    assert_eq!(parse_number("100000001"), None);
    assert_eq!(format_units(-125000), "-12.5");
    assert_eq!(format_units(5), "0.0005");
    assert_eq!(format_mm(2540005), "2.540005");
    assert_eq!(format_mm(-2000000), "-2");
}

#[test]
fn bounding_box_tracks_extremes() {
    let mut info = FootprintInfo::new();
    let pts = [(5i64, -3i64), (-7, 2), (1, 9), (4, -8)];
    for (x, y) in pts {
        calculate_footprint_bounds(&mut info, x, y);
    }
    assert_eq!(info.min_x, -7);
    assert_eq!(info.max_x, 5);
    assert_eq!(info.min_y, -8);
    assert_eq!(info.max_y, 9);
}

#[test]
fn bounding_box_without_updates_keeps_sentinels() {
    let info = FootprintInfo::new();
    assert_eq!(info.min_x, BOUNDS_SENTINEL);
    assert_eq!(info.min_y, BOUNDS_SENTINEL);
    assert_eq!(info.max_x, -BOUNDS_SENTINEL);
    assert_eq!(info.max_y, -BOUNDS_SENTINEL);
    assert_eq!(format_mm(info.min_x), "10000");
}

#[test]
fn pad_record_is_surface_mount_front() {
    let mut info = FootprintInfo::new();
    let a = args("PAD~OVAL~0~0~10~10~1~~1~0~0");
    let s = parse_pad(&a, &mut info).unwrap();
    assert_eq!(
        s,
        "  (pad 0 smd oval (at 0 0 0) (size 2.540005 2.540005) (layers F.Cu F.Paste F.Mask))\n"
    );
    let size: f64 = s.split("(size ").nth(1).unwrap().split(' ').next().unwrap().parse().unwrap();
    assert!((size - 10.0 / 3.937).abs() < 1e-6);
    assert_eq!(info.min_x, 0);
    assert_eq!(info.max_y, 0);
}

#[test]
fn through_hole_pad_has_drill() {
    let mut info = FootprintInfo::new();
    let a = strings(&["RECT", "3.937", "0", "3.937", "3.937", "11", "x", "2", "1.9685", "y", "90"]);
    let s = parse_pad(&a, &mut info).unwrap();
    assert_eq!(
        s,
        "  (pad 2 thru_hole rect (at 1 0 90) (size 1 1) (drill 1) (layers *.Cu *.Mask))\n"
    );
    assert!(parse_pad(&strings(&["RECT", "1"]), &mut info).is_none());
}

#[test]
fn track_draws_segments_and_grows_box() {
    let mut info = FootprintInfo::new();
    let a = strings(&["0", "3", "x", "0 0 3.937 0 3.937 7.874 9"]);
    let s = parse_track(&a, &mut info).unwrap();
    assert_eq!(
        s,
        "  (fp_line (start 0 0) (end 1 0) (layer F.SilkS) (width 0))\n  (fp_line (start 1 0) (end 1 2) (layer F.SilkS) (width 0))\n"
    );
    assert_eq!(info.max_x, 1_000_000);
    assert_eq!(info.max_y, 2_000_000);
    assert!(parse_track(&strings(&["1", "3", "x", "1 2"]), &mut info).is_none());
}

#[test]
fn circle_on_pad_layer_is_skipped() {
    let a = strings(&["3.937", "0", "3.937", "0", "100"]);
    assert!(parse_circle(&a).is_none());
    let b = strings(&["3.937", "0", "3.937", "0", "3"]);
    assert_eq!(
        parse_circle(&b).unwrap(),
        "  (fp_circle (center 1 0) (end 2 0) (layer F.SilkS) (width 0))\n"
    );
}

#[test]
fn arc_renders_nothing() {
    assert_eq!(parse_arc(&strings(&["1", "2", "3", "4"])).unwrap(), "");
    assert!(parse_arc(&strings(&["1"])).is_none());
}

#[test]
fn rect_with_stroke_draws_top_edge_only() {
    let mut info = FootprintInfo::new();
    let filled = strings(&["0", "0", "3.937", "7.874", "3", "a", "b", "0"]);
    assert_eq!(
        parse_rect(&filled, &mut info).unwrap(),
        "  (fp_rect (start 0 0) (end 1 2) (layer F.SilkS))\n"
    );
    let stroked = strings(&["0", "0", "3.937", "7.874", "3", "a", "b", "3.937"]);
    assert_eq!(
        parse_rect(&stroked, &mut info).unwrap(),
        "  (fp_line (start 0 0) (end 1 0) (layer F.SilkS) (width 1))\n"
    );
    assert_eq!(info.max_y, 2_000_000);
}

#[test]
fn hole_is_non_plated_pad() {
    let a = strings(&["0", "0", "1.9685"]);
    assert_eq!(
        parse_hole(&a).unwrap(),
        "  (pad \"\" np_thru_hole circle (at 0 0) (size 1 1) (drill 1))\n"
    );
}

#[test]
fn text_uses_twelfth_argument() {
    let a = strings(&["L", "3.937", "0", "a", "b", "c", "d", "e", "f", "g", "h", "HELLO"]);
    assert_eq!(
        parse_text(&a).unwrap(),
        "  (fp_text user HELLO (at 1 0) (layer F.SilkS)\n    (effects (font (size 1 1)))\n  )\n"
    );
}

#[test]
fn layer_ids_map_to_names() {
    assert_eq!(layer_map(&"1".to_string()), "F.Cu");
    assert_eq!(layer_map(&"10".to_string()), "Edge.Cuts");
    assert_eq!(layer_map(&"101".to_string()), "F.Fab");
    assert_eq!(layer_map(&"42".to_string()), "F.SilkS");
}

#[test]
fn footprint_places_reference_above_box() {
    let mut info = FootprintInfo::new();
    info.footprint_name = "FP".to_string();
    let shape = strings(&["PAD~RECT~0~3.937~1~1~1~~1~0~0", "PAD~RECT~3.937~7.874~1~1~1~~2~0~0"]);
    let text = render_footprint(&mut info, &shape, Some("packages3d/FP.step"));
    assert!(text.starts_with("(kicad_mod (version 20220214)\n  (footprint FP (identifier FP) (user FP)\n"));
    assert_eq!(text.matches("  (pad ").count(), 2);
    assert!(text.contains("  (model packages3d/FP.step (at (xyz 0 0 0)) (rotate (xyz 0 0 0)))\n"));
    assert!(text.contains("(fp_text reference REF** (at 0.5 -1) (layer F.SilkS)"));
    assert!(text.contains("(fp_text value FP (at 0.5 4) (layer F.Fab)"));
    assert!(text.contains("(fp_text user ${REFERENCE} (at 0.5 1.5) (layer F.Fab)"));
    assert!(text.ends_with("  )\n)\n"));
}

#[test]
fn symbol_pin_inverts_y_and_turns() {
    let a = strings(&["1", "1", "7", "13.937", "10", "90", "0", "0", "0", "0", "0", "0", "0", "VCC"]);
    assert_eq!(
        parse_symbol_pin(&a, 100000, 0).unwrap(),
        "    (pin input line (at 1 -2.540005 270) (length 2.54)\n      (name \"VCC\" (effects (font (size 1 1))))\n      (number \"7\" (effects (font (size 1 1))))\n    )\n"
    );
    let b = strings(&["1", "9", "7", "0", "0", "-270", "0", "0", "0", "0", "0", "0", "0", "X"]);
    assert!(parse_symbol_pin(&b, 0, 0).unwrap().contains("(pin unspecified line (at 0 0 -90)"));
}

#[test]
fn symbol_polyline_pairs_points() {
    let a = strings(&["0 0 3.937 3.937 5"]);
    assert_eq!(
        parse_symbol_poly(&a, 0, 0).unwrap(),
        "    (polyline (pts (xy 0 0) (xy 1 -1) ) (stroke (width 0) (type default)) (fill (type none)))\n"
    );
    assert!(parse_symbol_poly(&strings(&["1 2"]), 0, 0).is_none());
}

#[test]
fn symbol_entry_and_library() {
    let props = SymbolProperties {
        name: "R_C1".to_string(),
        reference: "R".to_string(),
        value: "R".to_string(),
        footprint: None,
        datasheet: None,
        keywords: None,
        lcsc: "C1".to_string(),
    };
    let shape = strings(&["E~0~0~3.937", "Q~1"]);
    let e = render_symbol_entry(&props, &shape, 0, 0);
    assert!(e.starts_with("  (symbol \"R_C1\" (pin_names hide)"));
    assert!(e.contains("(property \"LCSC\" \"C1\" (id 5)"));
    assert!(!e.contains("Footprint"));
    assert!(e.contains("    (circle (center 0 0) (radius 1) (stroke (width 0) (type default)) (fill (type background)))\n"));
    assert!(e.ends_with("  )\n"));
    let lib = render_symbol_library(&vec![e.clone()]);
    assert_eq!(
        lib,
        format!("(kicad_symbol_lib (version 20210201) (generator JLC2KiCad)\n{})\n", e)
    );
}

#[test]
fn symbol_names_are_escaped() {
    assert_eq!(
        symbol_component_name("A b.c/d\\e<f>g:h\"i"),
        "A_b_c{slash}d{backslash}e{lt}f{gt}g{colon}h{dblquote}i"
    );
}
