//! Replay of the line-oriented event log that newer offline archives hold in
//! place of per-UUID geometry blobs.
use vstd::prelude::*;

use crate::chars::{chars_of, push_str, seq_eq, str_eq, string_of};
use crate::footprint::views_of;
use crate::json::{field, get, get_str, parse_json, parsed_json, str_field, Json};
use crate::num::{decimal_value, parse_decimal, push_fixed, units_text, MAX_MAGNITUDE};
use crate::text::{pieces, split_nonempty, trim, trim_chars, views};
use crate::ident::trailing_run;
use crate::text::{key_less, key_lt, lemma_key_lt_total};

verus! {

pub open spec fn ascii_lower(c: char) -> char {
    let u = c as u32;
    if 0x41 <= u <= 0x5A {
        ((u + 32) as u32) as char
    } else {
        c
    }
}

pub open spec fn lower(s: Seq<char>) -> Seq<char> {
    s.map_values(|c: char| ascii_lower(c))
}

fn lower_char(c: char) -> (r: char)
    ensures
        r == ascii_lower(c),
{
    if c >= 'A' && c <= 'Z' {
        let u = (c as u32) + 32;
        assert(0x61 <= u <= 0x7A);
        let b = u as u8;
        b as char
    } else {
        c
    }
}

fn lower_chars(s: &Vec<char>) -> (r: Vec<char>)
    ensures
        r@ == lower(s@),
{
    let mut out: Vec<char> = Vec::new();
    let mut i: usize = 0;
    while i < s.len()
        invariant
            0 <= i <= s@.len(),
            out@ == s@.take(i as int).map_values(|c: char| ascii_lower(c)),
        decreases s@.len() - i,
    {
        let d = lower_char(s[i]);
        out.push(d);
        assert(out@ =~= s@.take(i + 1).map_values(|c: char| ascii_lower(c)));
        i = i + 1;
    }
    assert(s@.take(i as int) =~= s@);
    out
}

/// Whether `s` equals `name` (given in lower case) ignoring ASCII case.
pub fn is_ascii_ci(s: &String, name: &str) -> (r: bool)
    ensures
        r == (lower(s@) == name@),
{
    let c = chars_of(s.as_str());
    let l = lower_chars(&c);
    let n = chars_of(name);
    seq_eq(&l, &n)
}

/// Pin electrical type code of an event-log pin type name.
pub open spec fn pin_type_code(t: Seq<char>) -> Seq<char> {
    let l = lower(t);
    if l == "input"@ {
        "1"@
    } else if l == "output"@ {
        "2"@
    } else if l == "bidirectional"@ {
        "3"@
    } else if l == "power"@ || l == "power_in"@ {
        "4"@
    } else {
        "0"@
    }
}

/// Maps an event-log pin type name to the shape language's electrical type code.
pub fn elibu_pin_type_to_code(pin_type: &String) -> (r: &'static str)
    ensures
        r@ == pin_type_code(pin_type@),
{
    if is_ascii_ci(pin_type, "input") {
        "1"
    } else if is_ascii_ci(pin_type, "output") {
        "2"
    } else if is_ascii_ci(pin_type, "bidirectional") {
        "3"
    } else if is_ascii_ci(pin_type, "power") || is_ascii_ci(pin_type, "power_in") {
        "4"
    } else {
        "0"
    }
}

/// A number held by a JSON value: a number, or a string of one.
pub open spec fn json_number(v: Option<Json>) -> Option<int> {
    match v {
        Some(Json::Number(n)) => decimal_value(n@),
        Some(Json::Str(s)) => decimal_value(s@),
        _ => None,
    }
}

/// Text held by a JSON value: a string trimmed, or a number's text.
pub open spec fn json_text(v: Option<Json>) -> Option<Seq<char>> {
    match v {
        Some(Json::Str(s)) => Some(trim(s@)),
        Some(Json::Number(n)) => Some(n@),
        _ => None,
    }
}

pub open spec fn or_int(v: Option<int>, d: int) -> int {
    match v {
        Some(x) => x,
        None => d,
    }
}

pub open spec fn or_text(v: Option<Seq<char>>, d: Seq<char>) -> Seq<char> {
    match v {
        Some(x) => x,
        None => d,
    }
}

/// The number held by a JSON value (see `json_number`), in ten-thousandths.
pub fn json_num(v: Option<&Json>) -> (r: Option<i64>)
    ensures
        r matches Some(x) ==> json_number(
            match v {
                Some(j) => Some(*j),
                None => None,
            },
        ) == Some(x as int),
        r is None ==> json_number(
            match v {
                Some(j) => Some(*j),
                None => None,
            },
        ) is None,
        r matches Some(x) ==> -MAX_MAGNITUDE <= x <= MAX_MAGNITUDE,
{
    match v {
        Some(Json::Number(n)) => {
            let c = chars_of(n.as_str());
            parse_decimal(&c)
        },
        Some(Json::Str(s)) => {
            let c = chars_of(s.as_str());
            parse_decimal(&c)
        },
        _ => None,
    }
}

/// The text held by a JSON value (see `json_text`).
pub fn json_str(v: Option<&Json>) -> (r: Option<String>)
    ensures
        match json_text(
            match v {
                Some(j) => Some(*j),
                None => None,
            },
        ) {
            Some(t) => r matches Some(s) && s@ == t,
            None => r is None,
        },
{
    match v {
        Some(Json::Str(s)) => {
            let c = chars_of(s.as_str());
            let t = trim_chars(&c);
            Some(string_of(&t))
        },
        Some(Json::Number(n)) => Some(n.clone()),
        _ => None,
    }
}

pub open spec fn opt_json(v: Option<&Json>) -> Option<Json> {
    match v {
        Some(j) => Some(*j),
        None => None,
    }
}

/// Numbers among the items of a JSON array, in order.
pub open spec fn item_numbers(items: Seq<Json>) -> Seq<int>
    decreases items.len(),
{
    if items.len() == 0 {
        seq![]
    } else {
        let p = item_numbers(items.drop_last());
        match json_number(Some(items.last())) {
            Some(v) => p.push(v),
            None => p,
        }
    }
}

/// Numbers of a polyline path: the numeric items of an array.
pub open spec fn path_numbers(path: Json) -> Seq<int> {
    match path {
        Json::Array(items) => item_numbers(items@),
        _ => seq![],
    }
}

/// The numbers of a polyline path (see `path_numbers`), in ten-thousandths.
pub fn extract_polyline_numbers(path: &Json) -> (r: Vec<i64>)
    ensures
        r@.map_values(|v: i64| v as int) == path_numbers(*path),
        forall|i: int| 0 <= i < r@.len() ==> -MAX_MAGNITUDE <= #[trigger] r@[i] <= MAX_MAGNITUDE,
{
    let mut out: Vec<i64> = Vec::new();
    match path {
        Json::Array(items) => {
            let mut i: usize = 0;
            while i < items.len()
                invariant
                    0 <= i <= items@.len(),
                    *path == Json::Array(*items),
                    out@.map_values(|v: i64| v as int) == item_numbers(items@.take(i as int)),
                    forall|j: int| 0 <= j < out@.len() ==> -MAX_MAGNITUDE <= #[trigger] out@[j] <= MAX_MAGNITUDE,
                decreases items@.len() - i,
            {
                assert(items@.take(i + 1).drop_last() =~= items@.take(i as int));
                match json_num(Some(&items[i])) {
                    Some(v) => {
                        out.push(v);
                        assert(out@.map_values(|v: i64| v as int) =~= item_numbers(
                            items@.take(i as int),
                        ).push(v as int));
                    },
                    None => {},
                }
                i = i + 1;
            }
            assert(items@.take(i as int) =~= items@);
        },
        _ => {
            assert(out@.map_values(|v: i64| v as int) =~= Seq::<int>::empty());
        },
    }
    out
}

/// The first `k` pairs of `p` as `x y` separated by spaces.
pub open spec fn pairs_text(p: Seq<int>, k: int) -> Seq<char>
    decreases k,
{
    if k <= 0 {
        seq![]
    } else {
        pairs_text(p, k - 1) + (if k > 1 {
            " "@
        } else {
            seq![]
        }) + units_text(p[2 * (k - 1)]) + " "@ + units_text(p[2 * (k - 1) + 1])
    }
}

fn push_pairs(out: &mut Vec<char>, p: &Vec<i64>)
    requires
        forall|i: int| 0 <= i < p@.len() ==> -MAX_MAGNITUDE <= #[trigger] p@[i] <= MAX_MAGNITUDE,
    ensures
        final(out)@ == old(out)@ + pairs_text(p@.map_values(|v: i64| v as int), p@.len() as int / 2),
{
    let ghost pv = p@.map_values(|v: i64| v as int);
    let ghost start = out@;
    let mut k: usize = 0;
    assert(start + pairs_text(pv, 0) =~= start);
    while k < p.len() / 2
        invariant
            2 * k <= p@.len(),
            pv == p@.map_values(|v: i64| v as int),
            forall|i: int| 0 <= i < p@.len() ==> -MAX_MAGNITUDE <= #[trigger] p@[i] <= MAX_MAGNITUDE,
            out@ == start + pairs_text(pv, k as int),
        decreases p@.len() - 2 * k,
    {
        proof {
            assert(0 <= 2 * k + 1 < p@.len());
        }
        let ghost before = out@;
        if k > 0 {
            push_str(out, " ");
        }
        push_fixed(out, p[2 * k], 4);
        push_str(out, " ");
        push_fixed(out, p[2 * k + 1], 4);
        assert(out@ =~= start + pairs_text(pv, k + 1));
        k = k + 1;
    }
}

pub open spec fn abs_int(v: int) -> int {
    if v < 0 {
        -v
    } else {
        v
    }
}

pub open spec fn halve(v: int) -> int {
    if v >= 0 {
        v / 2
    } else {
        -((-v) / 2)
    }
}

/// Shape-language line of a rectangle, ellipse or polyline event of a symbol document.
pub open spec fn symbol_event_line(kind: Seq<char>, p: Json) -> Option<Seq<char>> {
    if kind == "RECT"@ {
        let x1 = or_int(json_number(field(p, "dotX1"@)), 0);
        let y1 = or_int(json_number(field(p, "dotY1"@)), 0);
        let x2 = or_int(json_number(field(p, "dotX2"@)), x1);
        let y2 = or_int(json_number(field(p, "dotY2"@)), y1);
        Some(
            "R~"@ + units_text(x1) + "~"@ + units_text(y1) + "~0~0~"@ + units_text(x2 - x1) + "~"@
                + units_text(y2 - y1),
        )
    } else if kind == "ELLIPSE"@ {
        let cx = or_int(json_number(field(p, "centerX"@)), 0);
        let cy = or_int(json_number(field(p, "centerY"@)), 0);
        let rx = abs_int(or_int(json_number(field(p, "radiusX"@)), 0));
        let ry = abs_int(or_int(json_number(field(p, "radiusY"@)), 0));
        Some(
            "E~"@ + units_text(cx) + "~"@ + units_text(cy) + "~"@ + units_text(
                if rx > 0 {
                    rx
                } else {
                    ry
                },
            ),
        )
    } else if kind == "POLY"@ {
        match field(p, "path"@) {
            Some(path) => {
                let n = path_numbers(path);
                if n.len() >= 4 {
                    Some("PL~"@ + pairs_text(n, n.len() as int / 2))
                } else {
                    None
                }
            },
            None => None,
        }
    } else {
        None
    }
}

fn num_field_or(p: &Json, key: &str, d: i64) -> (r: i64)
    requires
        -MAX_MAGNITUDE <= d <= MAX_MAGNITUDE,
    ensures
        r == or_int(json_number(field(*p, key@)), d as int),
        -MAX_MAGNITUDE <= r <= MAX_MAGNITUDE,
{
    match json_num(get(p, key)) {
        Some(v) => v,
        None => d,
    }
}

fn polyline_of(p: &Json) -> (r: Option<Vec<i64>>)
    ensures
        match field(*p, "path"@) {
            Some(path) => r matches Some(v) && v@.map_values(|x: i64| x as int) == path_numbers(path)
                && forall|i: int| 0 <= i < v@.len() ==> -MAX_MAGNITUDE <= #[trigger] v@[i] <= MAX_MAGNITUDE,
            None => r is None,
        },
{
    match get(p, "path") {
        Some(path) => Some(extract_polyline_numbers(path)),
        None => None,
    }
}

/// The shape-language line of a symbol document's rectangle, ellipse or polyline event.
pub fn symbol_shape_line(kind: &String, p: &Json) -> (r: Option<String>)
    ensures
        match symbol_event_line(kind@, *p) {
            Some(l) => r matches Some(s) && s@ == l,
            None => r is None,
        },
{
    let is_rect = crate::footprint::is_text(kind, "RECT");
    let is_ellipse = crate::footprint::is_text(kind, "ELLIPSE");
    let is_poly = crate::footprint::is_text(kind, "POLY");
    if is_rect {
        let x1 = num_field_or(p, "dotX1", 0);
        let y1 = num_field_or(p, "dotY1", 0);
        let x2 = num_field_or(p, "dotX2", x1);
        let y2 = num_field_or(p, "dotY2", y1);
        let mut out = chars_of("R~");
        push_fixed(&mut out, x1, 4);
        push_str(&mut out, "~");
        push_fixed(&mut out, y1, 4);
        push_str(&mut out, "~0~0~");
        push_fixed(&mut out, x2 - x1, 4);
        push_str(&mut out, "~");
        push_fixed(&mut out, y2 - y1, 4);
        Some(string_of(&out))
    } else if is_ellipse {
        let cx = num_field_or(p, "centerX", 0);
        let cy = num_field_or(p, "centerY", 0);
        let rx0 = num_field_or(p, "radiusX", 0);
        let ry0 = num_field_or(p, "radiusY", 0);
        let rx = if rx0 < 0 {
            -rx0
        } else {
            rx0
        };
        let ry = if ry0 < 0 {
            -ry0
        } else {
            ry0
        };
        let r = if rx > 0 {
            rx
        } else {
            ry
        };
        let mut out = chars_of("E~");
        push_fixed(&mut out, cx, 4);
        push_str(&mut out, "~");
        push_fixed(&mut out, cy, 4);
        push_str(&mut out, "~");
        push_fixed(&mut out, r, 4);
        Some(string_of(&out))
    } else if is_poly {
        match polyline_of(p) {
            Some(n) => {
                if n.len() >= 4 {
                    let mut out = chars_of("PL~");
                    push_pairs(&mut out, &n);
                    Some(string_of(&out))
                } else {
                    None
                }
            },
            None => None,
        }
    } else {
        None
    }
}

/// Drill radius of a pad event: the hole's radius, else half its diameter,
/// else half its width; zero without a hole.
pub open spec fn hole_drill(p: Json) -> int {
    match field(p, "hole"@) {
        Some(h) => if h is Null {
            0
        } else {
            match json_number(field(h, "radius"@)) {
                Some(r) => r,
                None => match json_number(field(h, "diameter"@)) {
                    Some(d) => halve(d),
                    None => match json_number(field(h, "width"@)) {
                        Some(w) => halve(w),
                        None => 0,
                    },
                },
            }
        },
        None => 0,
    }
}

pub open spec fn default_pad(p: Json) -> Json {
    match field(p, "defaultPad"@) {
        Some(d) => d,
        None => p,
    }
}

/// Shape-language line of a pad event; a drilled pad is put on the through-hole layer `11`.
pub open spec fn pad_event_line(p: Json) -> Seq<char> {
    let dp = default_pad(p);
    let drill = hole_drill(p);
    "PAD~"@ + or_text(str_field(dp, "padType"@), "OVAL"@) + "~"@ + units_text(
        or_int(json_number(field(p, "centerX"@)), 0),
    ) + "~"@ + units_text(or_int(json_number(field(p, "centerY"@)), 0)) + "~"@ + units_text(
        or_int(json_number(field(dp, "width"@)), 10000),
    ) + "~"@ + units_text(or_int(json_number(field(dp, "height"@)), 10000)) + "~"@ + (if drill
        > 0 {
        "11"@
    } else {
        or_text(json_text(field(p, "layerId"@)), "1"@)
    }) + "~0~"@ + or_text(json_text(field(p, "num"@)), "1"@) + "~"@ + units_text(drill) + "~0~"@
        + units_text(
        match json_number(field(p, "padAngle"@)) {
            Some(a) => a,
            None => or_int(json_number(field(p, "relativeAngle"@)), 0),
        },
    )
}

pub open spec fn is_circle_path(path: Json) -> bool {
    match path {
        Json::Array(items) => items@.len() >= 4 && (items@[0] matches Json::Str(s) && s@
            == "CIRCLE"@),
        _ => false,
    }
}

pub open spec fn item_number(path: Json, i: int) -> int {
    match path {
        Json::Array(items) => or_int(json_number(Some(items@[i])), 0),
        _ => 0,
    }
}

/// Shape-language line of a pad, polyline or fill event of a footprint document.
pub open spec fn footprint_event_line(kind: Seq<char>, p: Json) -> Option<Seq<char>> {
    if kind == "PAD"@ {
        Some(pad_event_line(p))
    } else if kind == "POLY"@ || kind == "FILL"@ {
        let layer = or_text(json_text(field(p, "layerId"@)), "3"@);
        let width = or_int(json_number(field(p, "width"@)), 2000);
        match field(p, "path"@) {
            Some(path) => if is_circle_path(path) {
                Some(
                    "CIRCLE~"@ + units_text(item_number(path, 1)) + "~"@ + units_text(
                        item_number(path, 2),
                    ) + "~"@ + units_text(abs_int(item_number(path, 3))) + "~"@ + units_text(width)
                        + "~"@ + layer,
                )
            } else {
                let n = path_numbers(path);
                if n.len() >= 4 {
                    Some(
                        "TRACK~"@ + units_text(width) + "~"@ + layer + "~0~"@ + pairs_text(
                            n,
                            n.len() as int / 2,
                        ),
                    )
                } else {
                    None
                }
            },
            None => None,
        }
    } else {
        None
    }
}

fn text_field_or(p: &Json, key: &str, d: &str) -> (r: String)
    ensures
        r@ == or_text(json_text(field(*p, key@)), d@),
{
    match json_str(get(p, key)) {
        Some(s) => s,
        None => d.to_string(),
    }
}

fn hole_drill_of(p: &Json) -> (r: i64)
    ensures
        r == hole_drill(*p),
        -MAX_MAGNITUDE <= r <= MAX_MAGNITUDE,
{
    match get(p, "hole") {
        Some(h) => match h {
            Json::Null => 0,
            _ => match json_num(get(h, "radius")) {
                Some(r) => r,
                None => match json_num(get(h, "diameter")) {
                    Some(d) => if d >= 0 {
                        d / 2
                    } else {
                        -((-d) / 2)
                    },
                    None => match json_num(get(h, "width")) {
                        Some(w) => if w >= 0 {
                            w / 2
                        } else {
                            -((-w) / 2)
                        },
                        None => 0,
                    },
                },
            },
        },
        None => 0,
    }
}

fn pad_line_of(p: &Json) -> (r: String)
    ensures
        r@ == pad_event_line(*p),
{
    let dp = match get(p, "defaultPad") {
        Some(d) => d,
        None => p,
    };
    let shape: String = match get_str(dp, "padType") {
        Some(s) => s.clone(),
        None => "OVAL".to_string(),
    };
    let x = num_field_or(p, "centerX", 0);
    let y = num_field_or(p, "centerY", 0);
    let sx = num_field_or(dp, "width", 10000);
    let sy = num_field_or(dp, "height", 10000);
    let drill = hole_drill_of(p);
    let layer: String = if drill > 0 {
        "11".to_string()
    } else {
        text_field_or(p, "layerId", "1")
    };
    let num = text_field_or(p, "num", "1");
    let rot = match json_num(get(p, "padAngle")) {
        Some(a) => a,
        None => num_field_or(p, "relativeAngle", 0),
    };
    let mut out = chars_of("PAD~");
    push_str(&mut out, shape.as_str());
    push_str(&mut out, "~");
    push_fixed(&mut out, x, 4);
    push_str(&mut out, "~");
    push_fixed(&mut out, y, 4);
    push_str(&mut out, "~");
    push_fixed(&mut out, sx, 4);
    push_str(&mut out, "~");
    push_fixed(&mut out, sy, 4);
    push_str(&mut out, "~");
    push_str(&mut out, layer.as_str());
    push_str(&mut out, "~0~");
    push_str(&mut out, num.as_str());
    push_str(&mut out, "~");
    push_fixed(&mut out, drill, 4);
    push_str(&mut out, "~0~");
    push_fixed(&mut out, rot, 4);
    assert(out@ =~= pad_event_line(*p));
    string_of(&out)
}

fn circle_path_of(path: &Json) -> (r: Option<(i64, i64, i64)>)
    ensures
        is_circle_path(*path) ==> (r matches Some(t) && t.0 == item_number(*path, 1) && t.1
            == item_number(*path, 2) && t.2 == abs_int(item_number(*path, 3))),
        !is_circle_path(*path) ==> r is None,
        r matches Some(t) ==> -MAX_MAGNITUDE <= t.0 <= MAX_MAGNITUDE && -MAX_MAGNITUDE <= t.1
            <= MAX_MAGNITUDE && -MAX_MAGNITUDE <= t.2 <= MAX_MAGNITUDE,
{
    match path {
        Json::Array(items) => {
            if items.len() < 4 {
                return None;
            }
            let first_is_circle = match &items[0] {
                Json::Str(s) => str_eq(s.as_str(), "CIRCLE"),
                _ => false,
            };
            if !first_is_circle {
                return None;
            }
            let cx = match json_num(Some(&items[1])) {
                Some(v) => v,
                None => 0,
            };
            let cy = match json_num(Some(&items[2])) {
                Some(v) => v,
                None => 0,
            };
            let r0 = match json_num(Some(&items[3])) {
                Some(v) => v,
                None => 0,
            };
            let r = if r0 < 0 {
                -r0
            } else {
                r0
            };
            Some((cx, cy, r))
        },
        _ => None,
    }
}

/// The shape-language line of a footprint document's pad, polyline or fill event.
pub fn footprint_shape_line(kind: &String, p: &Json) -> (r: Option<String>)
    ensures
        match footprint_event_line(kind@, *p) {
            Some(l) => r matches Some(s) && s@ == l,
            None => r is None,
        },
{
    if crate::footprint::is_text(kind, "PAD") {
        return Some(pad_line_of(p));
    }
    if !(crate::footprint::is_text(kind, "POLY") || crate::footprint::is_text(kind, "FILL")) {
        return None;
    }
    let layer = text_field_or(p, "layerId", "3");
    let width = num_field_or(p, "width", 2000);
    let path = match get(p, "path") {
        Some(path) => path,
        None => {
            return None;
        },
    };
    match circle_path_of(path) {
        Some((cx, cy, r)) => {
            let mut out = chars_of("CIRCLE~");
            push_fixed(&mut out, cx, 4);
            push_str(&mut out, "~");
            push_fixed(&mut out, cy, 4);
            push_str(&mut out, "~");
            push_fixed(&mut out, r, 4);
            push_str(&mut out, "~");
            push_fixed(&mut out, width, 4);
            push_str(&mut out, "~");
            push_str(&mut out, layer.as_str());
            return Some(string_of(&out));
        },
        None => {},
    }
    let n = extract_polyline_numbers(path);
    if n.len() < 4 {
        return None;
    }
    let mut out = chars_of("TRACK~");
    push_fixed(&mut out, width, 4);
    push_str(&mut out, "~");
    push_str(&mut out, layer.as_str());
    push_str(&mut out, "~0~");
    push_pairs(&mut out, &n);
    Some(string_of(&out))
}

/// Position of the first `||` in `s`, or the length of `s` when there is none.
pub open spec fn pair_index(s: Seq<char>) -> nat
    decreases s.len(),
{
    if s.len() < 2 {
        s.len()
    } else if s[0] == '|' && s[1] == '|' {
        0
    } else {
        1 + pair_index(s.drop_first())
    }
}

/// `s` without the `|` characters at its end.
pub open spec fn drop_trailing_bars(s: Seq<char>) -> Seq<char> {
    s.take(s.len() - trailing_run(s, '|'))
}

/// A line of the event log decoded: its event type, its event id and its payload.
/// Lines without `||`, with an empty or malformed header, or with a malformed
/// payload are none.
pub open spec fn decode_line(raw: Seq<char>) -> Option<(Seq<char>, Seq<char>, Json)> {
    let t = trim(raw);
    let i = pair_index(t);
    if t.len() == 0 || i + 2 > t.len() {
        None
    } else {
        let left = drop_trailing_bars(trim(t.take(i as int)));
        let right = drop_trailing_bars(trim(t.skip(i as int + 2)));
        if left.len() == 0 {
            None
        } else {
            match parsed_json(left) {
                None => None,
                Some(h) => {
                    let payload = if right.len() == 0 {
                        Some(Json::Null)
                    } else {
                        parsed_json(right)
                    };
                    match payload {
                        None => None,
                        Some(p) => Some(
                            (
                                or_text(str_field(h, "type"@), seq![]),
                                or_text(str_field(h, "id"@), seq![]),
                                p,
                            ),
                        ),
                    }
                },
            }
        }
    }
}

proof fn lemma_pair_index(s: Seq<char>, k: int)
    requires
        0 <= k <= s.len(),
        forall|j: int| 0 <= j < k && j + 1 < s.len() ==> !(#[trigger] s[j] == '|' && s[j + 1] == '|'),
        k == s.len() || (k + 1 < s.len() && s[k] == '|' && s[k + 1] == '|') || (k + 1 == s.len()),
    ensures
        pair_index(s) == if k + 1 == s.len() && !(k == s.len()) { s.len() as int } else { k },
    decreases k,
{
    if s.len() < 2 {
    } else if k > 0 {
        let t = s.drop_first();
        assert(!(s[0] == '|' && s[1] == '|'));
        assert forall|j: int| 0 <= j < k - 1 && j + 1 < t.len() implies !(#[trigger] t[j] == '|'
            && t[j + 1] == '|') by {
            assert(t[j] == s[j + 1] && t[j + 1] == s[j + 2]);
        }
        lemma_pair_index(t, k - 1);
    }
}

fn strip_trailing_bars(s: &Vec<char>) -> (r: Vec<char>)
    ensures
        r@ == drop_trailing_bars(s@),
{
    let mut e: usize = s.len();
    while e > 0 && s[e - 1] == '|'
        invariant
            e <= s@.len(),
            forall|j: int| e <= j < s@.len() ==> #[trigger] s@[j] == '|',
        decreases e,
    {
        e = e - 1;
    }
    proof {
        lemma_trailing_bars(s@, (s@.len() - e) as int);
    }
    let mut r: Vec<char> = Vec::new();
    let mut k: usize = 0;
    while k < e
        invariant
            k <= e <= s@.len(),
            r@ == s@.take(k as int),
        decreases e - k,
    {
        r.push(s[k]);
        assert(r@ =~= s@.take(k + 1));
        k = k + 1;
    }
    r
}

proof fn lemma_trailing_bars(s: Seq<char>, k: int)
    requires
        0 <= k <= s.len(),
        forall|j: int| s.len() - k <= j < s.len() ==> #[trigger] s[j] == '|',
        k == s.len() || s[s.len() - k - 1] != '|',
    ensures
        trailing_run(s, '|') == k,
    decreases k,
{
    if k > 0 {
        let t = s.drop_last();
        assert forall|j: int| t.len() - (k - 1) <= j < t.len() implies #[trigger] t[j] == '|' by {
            assert(t[j] == s[j]);
        }
        lemma_trailing_bars(t, k - 1);
    }
}

fn sub_chars(s: &Vec<char>, from: usize, to: usize) -> (r: Vec<char>)
    requires
        from <= to <= s@.len(),
    ensures
        r@ == s@.subrange(from as int, to as int),
{
    let mut r: Vec<char> = Vec::new();
    let mut k: usize = from;
    while k < to
        invariant
            from <= k <= to <= s@.len(),
            r@ == s@.subrange(from as int, k as int),
        decreases to - k,
    {
        r.push(s[k]);
        assert(r@ =~= s@.subrange(from as int, k + 1));
        k = k + 1;
    }
    r
}

/// Decodes one line of the event log (see `decode_line`).
pub fn decode_event_line(raw: &String) -> (r: Option<(String, String, Json)>)
    ensures
        match decode_line(raw@) {
            Some(d) => r matches Some(e) && e.0@ == d.0 && e.1@ == d.1 && e.2 == d.2,
            None => r is None,
        },
{
    let c = chars_of(raw.as_str());
    let t = trim_chars(&c);
    if t.len() < 2 {
        proof {
            if t@.len() == 1 {
                assert(pair_index(t@) == 1);
            }
        }
        return None;
    }
    let mut i: usize = 0;
    while i < t.len() - 1 && !(t[i] == '|' && t[i + 1] == '|')
        invariant
            0 <= i < t@.len(),
            t@.len() >= 2,
            forall|j: int| 0 <= j < i && j + 1 < t@.len() ==> !(#[trigger] t@[j] == '|' && t@[j
                + 1] == '|'),
        decreases t@.len() - i,
    {
        i = i + 1;
    }
    proof {
        lemma_pair_index(t@, i as int);
    }
    if i >= t.len() - 1 {
        return None;
    }
    let l0 = sub_chars(&t, 0, i);
    let l1 = trim_chars(&l0);
    let left = strip_trailing_bars(&l1);
    let r0 = sub_chars(&t, i + 2, t.len());
    let r1 = trim_chars(&r0);
    let right = strip_trailing_bars(&r1);
    assert(l0@ =~= t@.take(i as int));
    assert(r0@ =~= t@.skip(i + 2));
    if left.len() == 0 {
        return None;
    }
    let ls = string_of(&left);
    let header = match parse_json(ls.as_str()) {
        Some(h) => h,
        None => {
            return None;
        },
    };
    let payload = if right.len() == 0 {
        Json::Null
    } else {
        let rs = string_of(&right);
        match parse_json(rs.as_str()) {
            Some(p) => p,
            None => {
                return None;
            },
        }
    };
    let kind: String = match get_str(&header, "type") {
        Some(k) => k.clone(),
        None => String::new(),
    };
    let id: String = match get_str(&header, "id") {
        Some(k) => k.clone(),
        None => String::new(),
    };
    Some((kind, id, payload))
}

/// A pin of a symbol document while its events are replayed; positions in ten-thousandths.
pub struct ElibuSymbolPin {
    pub x: i64,
    pub y: i64,
    pub rotation: i64,
    pub pin_num: String,
    pub pin_name: String,
    pub pin_type: String,
}

/// A pin as (x, y, rotation, number, name, type).
pub type PinModel = (int, int, int, Seq<char>, Seq<char>, Seq<char>);

/// A document being replayed as (document type, UUID, lines, pins by event id).
pub type AccModel = (Seq<char>, Seq<char>, Seq<Seq<char>>, Seq<(Seq<char>, PinModel)>);

/// A flushed document as (is a symbol, UUID, shape-language text).
pub type DocModel = (bool, Seq<char>, Seq<char>);

/// The document being replayed: its type and UUID from the last document
/// head, its synthesized lines and its pins in key order of their ids.
pub struct ElibuDocAccumulator {
    pub doc_type: String,
    pub uuid: String,
    pub lines: Vec<String>,
    pub pins: Vec<(String, ElibuSymbolPin)>,
}

/// A document flushed from the event log.
pub struct ElibuDocument {
    pub is_symbol: bool,
    pub uuid: String,
    pub text: String,
}

pub open spec fn pin_model(p: ElibuSymbolPin) -> PinModel {
    (p.x as int, p.y as int, p.rotation as int, p.pin_num@, p.pin_name@, p.pin_type@)
}

pub open spec fn pins_model(pins: Seq<(String, ElibuSymbolPin)>) -> Seq<(Seq<char>, PinModel)> {
    pins.map_values(|e: (String, ElibuSymbolPin)| (e.0@, pin_model(e.1)))
}

pub open spec fn doc_model(d: ElibuDocument) -> DocModel {
    (d.is_symbol, d.uuid@, d.text@)
}

pub open spec fn docs_model(d: Seq<ElibuDocument>) -> Seq<DocModel> {
    d.map_values(|x: ElibuDocument| doc_model(x))
}

impl ElibuDocAccumulator {
    pub open spec fn model(&self) -> AccModel {
        (self.doc_type@, self.uuid@, views_of(self.lines@), pins_model(self.pins@))
    }

    /// Pin positions stay within the magnitude of parsed numbers, and pins are
    /// kept in key order of their ids.
    pub open spec fn wf(&self) -> bool {
        &&& forall|i: int|
            0 <= i < self.pins@.len() ==> {
                let p = #[trigger] self.pins@[i].1;
                -MAX_MAGNITUDE <= p.x <= MAX_MAGNITUDE && -MAX_MAGNITUDE <= p.y <= MAX_MAGNITUDE
                    && -MAX_MAGNITUDE <= p.rotation <= MAX_MAGNITUDE
            }
        &&& keys_in_order(pins_model(self.pins@))
    }

    /// An accumulator with no document.
    pub fn new() -> (r: ElibuDocAccumulator)
        ensures
            r.model() == empty_acc(),
            r.wf(),
    {
        let r = ElibuDocAccumulator {
            doc_type: String::new(),
            uuid: String::new(),
            lines: Vec::new(),
            pins: Vec::new(),
        };
        assert(r.model().2 =~= Seq::<Seq<char>>::empty());
        assert(r.model().3 =~= Seq::<(Seq<char>, PinModel)>::empty());
        r
    }
}

pub open spec fn empty_acc() -> AccModel {
    (seq![], seq![], seq![], seq![])
}

/// Position of the first pin with event id `k`, or the number of pins.
pub open spec fn pin_index(pins: Seq<(Seq<char>, PinModel)>, k: Seq<char>) -> nat
    decreases pins.len(),
{
    if pins.len() == 0 {
        0
    } else if pins[0].0 == k {
        0
    } else {
        1 + pin_index(pins.drop_first(), k)
    }
}

/// Number of leading pins whose id comes before `k` in key order.
pub open spec fn lead_less(pins: Seq<(Seq<char>, PinModel)>, k: Seq<char>) -> nat
    decreases pins.len(),
{
    if pins.len() > 0 && key_lt(pins[0].0, k) {
        1 + lead_less(pins.drop_first(), k)
    } else {
        0
    }
}

/// Pin ids strictly increasing in key order, as the keys of a `BTreeMap`.
pub open spec fn keys_in_order(pins: Seq<(Seq<char>, PinModel)>) -> bool {
    forall|i: int| 0 <= i < pins.len() - 1 ==> key_lt(#[trigger] pins[i].0, pins[i + 1].0)
}

/// `pins` with pin `p` under `k`, at its place in key order: replacing the
/// pin of that id, else inserted before the first id that does not come before `k`.
pub open spec fn pin_put(pins: Seq<(Seq<char>, PinModel)>, k: Seq<char>, p: PinModel) -> Seq<
    (Seq<char>, PinModel),
> {
    let i = lead_less(pins, k);
    if i < pins.len() && pins[i as int].0 == k {
        pins.update(i as int, (k, p))
    } else {
        pins.insert(i as int, (k, p))
    }
}

proof fn lemma_lead_less(pins: Seq<(Seq<char>, PinModel)>, k: Seq<char>, i: int)
    requires
        0 <= i <= pins.len(),
        forall|j: int| 0 <= j < i ==> key_lt(#[trigger] pins[j].0, k),
        i == pins.len() || !key_lt(pins[i].0, k),
    ensures
        lead_less(pins, k) == i,
    decreases i,
{
    if i > 0 {
        let t = pins.drop_first();
        assert(key_lt(pins[0].0, k));
        assert forall|j: int| 0 <= j < i - 1 implies key_lt(#[trigger] t[j].0, k) by {
            assert(t[j] == pins[j + 1]);
        }
        lemma_lead_less(t, k, i - 1);
    }
}

proof fn lemma_lead_less_facts(pins: Seq<(Seq<char>, PinModel)>, k: Seq<char>)
    ensures
        lead_less(pins, k) <= pins.len(),
        forall|j: int| 0 <= j < lead_less(pins, k) ==> key_lt(#[trigger] pins[j].0, k),
        lead_less(pins, k) == pins.len() || !key_lt(pins[lead_less(pins, k) as int].0, k),
    decreases pins.len(),
{
    if pins.len() > 0 && key_lt(pins[0].0, k) {
        let t = pins.drop_first();
        lemma_lead_less_facts(t, k);
        assert forall|j: int| 0 <= j < lead_less(pins, k) implies key_lt(#[trigger] pins[j].0, k) by {
            if j > 0 {
                assert(pins[j] == t[j - 1]);
            }
        }
        if lead_less(pins, k) < pins.len() {
            assert(pins[lead_less(pins, k) as int] == t[lead_less(t, k) as int]);
        }
    }
}

/// Putting a pin keeps the pins in key order.
pub proof fn lemma_pin_put_in_order(pins: Seq<(Seq<char>, PinModel)>, k: Seq<char>, p: PinModel)
    requires
        keys_in_order(pins),
    ensures
        keys_in_order(pin_put(pins, k, p)),
{
    lemma_lead_less_facts(pins, k);
    let i = lead_less(pins, k) as int;
    let q = pin_put(pins, k, p);
    if i < pins.len() && pins[i].0 == k {
        assert forall|j: int| 0 <= j < q.len() - 1 implies key_lt(#[trigger] q[j].0, q[j + 1].0) by {
            assert(q[j].0 == pins[j].0 && q[j + 1].0 == pins[j + 1].0);
        }
    } else {
        if i < pins.len() {
            lemma_key_lt_total(pins[i].0, k);
        }
        assert forall|j: int| 0 <= j < q.len() - 1 implies key_lt(#[trigger] q[j].0, q[j + 1].0) by {
            if j < i - 1 {
                assert(q[j] == pins[j] && q[j + 1] == pins[j + 1]);
            } else if j == i - 1 {
                assert(q[j] == pins[j] && q[j + 1] == (k, p));
            } else if j == i {
                assert(q[j + 1] == pins[i]);
            } else {
                assert(q[j] == pins[j - 1] && q[j + 1] == pins[j]);
            }
        }
    }
}

/// A pin with the attribute `key` set to `value`; other keys leave it alone.
pub open spec fn pin_attr(p: PinModel, key: Seq<char>, value: Seq<char>) -> PinModel {
    if key == "Pin Name"@ {
        (p.0, p.1, p.2, p.3, value, p.5)
    } else if key == "Pin Number"@ {
        (p.0, p.1, p.2, value, p.4, p.5)
    } else if key == "Pin Type"@ {
        (p.0, p.1, p.2, p.3, p.4, value)
    } else {
        p
    }
}

/// The accumulator after an event of a symbol document.
pub open spec fn symbol_event(acc: AccModel, kind: Seq<char>, id: Seq<char>, p: Json) -> AccModel {
    if kind == "PIN"@ {
        if id.len() > 0 {
            (
                acc.0,
                acc.1,
                acc.2,
                pin_put(
                    acc.3,
                    id,
                    (
                        or_int(json_number(field(p, "x"@)), 0),
                        or_int(json_number(field(p, "y"@)), 0),
                        or_int(json_number(field(p, "rotation"@)), 0),
                        seq![],
                        seq![],
                        seq![],
                    ),
                ),
            )
        } else {
            acc
        }
    } else if kind == "ATTR"@ {
        let parent = or_text(str_field(p, "parentId"@), seq![]);
        let i = pin_index(acc.3, parent);
        if parent.len() > 0 && i < acc.3.len() {
            (
                acc.0,
                acc.1,
                acc.2,
                acc.3.update(
                    i as int,
                    (
                        parent,
                        pin_attr(
                            acc.3[i as int].1,
                            or_text(str_field(p, "key"@), seq![]),
                            or_text(str_field(p, "value"@), seq![]),
                        ),
                    ),
                ),
            )
        } else {
            acc
        }
    } else {
        match symbol_event_line(kind, p) {
            Some(l) => (acc.0, acc.1, acc.2.push(l), acc.3),
            None => acc,
        }
    }
}

/// The shape-language line of a pin; a pin without a number gets `0`.
pub open spec fn pin_line(p: PinModel) -> Seq<char> {
    "P~1~"@ + pin_type_code(p.5) + "~"@ + (if p.3.len() == 0 {
        "0"@
    } else {
        p.3
    }) + "~"@ + units_text(p.0) + "~"@ + units_text(p.1) + "~"@ + units_text(p.2)
        + "~0~0~0~0~0~0~0~"@ + p.4
}

pub open spec fn pin_lines(pins: Seq<(Seq<char>, PinModel)>) -> Seq<Seq<char>> {
    pins.map_values(|e: (Seq<char>, PinModel)| pin_line(e.1))
}

/// Lines joined with `\n`.
pub open spec fn join_lines(lines: Seq<Seq<char>>) -> Seq<char>
    decreases lines.len(),
{
    if lines.len() == 0 {
        seq![]
    } else if lines.len() == 1 {
        lines[0]
    } else {
        join_lines(lines.drop_last()) + "\n"@ + lines.last()
    }
}

/// The document that flushing commits: a symbol's lines followed by its pins'
/// lines (the pins are kept in key order of their ids, see
/// `lemma_replay_pins_in_order`), or a footprint's lines; none for a document without UUID, of
/// another type, or without lines.
pub open spec fn flushed(acc: AccModel) -> Option<DocModel> {
    if acc.1.len() == 0 {
        None
    } else if lower(acc.0) == "symbol"@ {
        let all = acc.2 + pin_lines(acc.3);
        if all.len() > 0 {
            Some((true, acc.1, join_lines(all)))
        } else {
            None
        }
    } else if lower(acc.0) == "footprint"@ {
        if acc.2.len() > 0 {
            Some((false, acc.1, join_lines(acc.2)))
        } else {
            None
        }
    } else {
        None
    }
}

/// The replay state after one line: a document head flushes the document and
/// starts the next; other events feed the current document by its type.
pub open spec fn replay_step(st: (AccModel, Seq<DocModel>), raw: Seq<char>) -> (
    AccModel,
    Seq<DocModel>,
) {
    match decode_line(raw) {
        None => st,
        Some(ev) => {
            let kind = ev.0;
            let p = ev.2;
            if kind == "DOCHEAD"@ {
                (
                    (
                        or_text(str_field(p, "docType"@), seq![]),
                        or_text(str_field(p, "uuid"@), seq![]),
                        seq![],
                        seq![],
                    ),
                    match flushed(st.0) {
                        Some(d) => st.1.push(d),
                        None => st.1,
                    },
                )
            } else if lower(st.0.0) == "symbol"@ {
                (symbol_event(st.0, kind, ev.1, p), st.1)
            } else if lower(st.0.0) == "footprint"@ {
                match footprint_event_line(kind, p) {
                    Some(l) => ((st.0.0, st.0.1, st.0.2.push(l), st.0.3), st.1),
                    None => st,
                }
            } else {
                st
            }
        },
    }
}

/// The replay state after the lines `lines`, from `st`.
pub open spec fn replay_lines(st: (AccModel, Seq<DocModel>), lines: Seq<Seq<char>>) -> (
    AccModel,
    Seq<DocModel>,
)
    decreases lines.len(),
{
    if lines.len() == 0 {
        st
    } else {
        replay_step(replay_lines(st, lines.drop_last()), lines.last())
    }
}

/// The documents of an event log: those flushed while its lines are replayed,
/// then the one flushed at its end.
pub open spec fn replayed_documents(content: Seq<char>) -> Seq<DocModel> {
    let st = replay_lines((empty_acc(), seq![]), pieces(content, '\n'));
    match flushed(st.0) {
        Some(d) => st.1.push(d),
        None => st.1,
    }
}

proof fn lemma_pin_index(pins: Seq<(Seq<char>, PinModel)>, k: Seq<char>, i: int)
    requires
        0 <= i <= pins.len(),
        forall|j: int| 0 <= j < i ==> (#[trigger] pins[j]).0 != k,
        i == pins.len() || pins[i].0 == k,
    ensures
        pin_index(pins, k) == i,
    decreases i,
{
    if i > 0 {
        let t = pins.drop_first();
        assert(pins[0].0 != k);
        assert forall|j: int| 0 <= j < i - 1 implies (#[trigger] t[j]).0 != k by {
            assert(t[j] == pins[j + 1]);
        }
        lemma_pin_index(t, k, i - 1);
    }
}

/// Whether a string has no characters.
pub fn is_empty_text(s: &String) -> (r: bool)
    ensures
        r == (s@.len() == 0),
{
    s.as_str().unicode_len() == 0
}

fn pin_slot(pins: &Vec<(String, ElibuSymbolPin)>, id: &String) -> (r: usize)
    ensures
        r == lead_less(pins_model(pins@), id@),
        r <= pins@.len(),
{
    let ghost pm = pins_model(pins@);
    let mut i: usize = 0;
    while i < pins.len() && key_less(pins[i].0.as_str(), id.as_str())
        invariant
            0 <= i <= pins@.len(),
            pm == pins_model(pins@),
            forall|j: int| 0 <= j < i ==> key_lt(#[trigger] pm[j].0, id@),
        decreases pins@.len() - i,
    {
        assert(pm[i as int].0 == pins@[i as int].0@);
        i = i + 1;
    }
    proof {
        if i < pins@.len() {
            assert(pm[i as int].0 == pins@[i as int].0@);
        }
        lemma_lead_less(pm, id@, i as int);
    }
    i
}

fn find_pin(pins: &Vec<(String, ElibuSymbolPin)>, id: &String) -> (r: usize)
    ensures
        r == pin_index(pins_model(pins@), id@),
        r <= pins@.len(),
        r < pins@.len() ==> pins@[r as int].0@ == id@,
{
    let ghost pm = pins_model(pins@);
    let mut i: usize = 0;
    while i < pins.len()
        invariant
            0 <= i <= pins@.len(),
            pm == pins_model(pins@),
            forall|j: int| 0 <= j < i ==> (#[trigger] pm[j]).0 != id@,
        decreases pins@.len() - i,
    {
        if str_eq(pins[i].0.as_str(), id.as_str()) {
            proof {
                lemma_pin_index(pm, id@, i as int);
            }
            return i;
        }
        i = i + 1;
    }
    proof {
        lemma_pin_index(pm, id@, i as int);
    }
    i
}

fn pin_line_of(p: &ElibuSymbolPin) -> (r: String)
    requires
        -MAX_MAGNITUDE <= p.x <= MAX_MAGNITUDE && -MAX_MAGNITUDE <= p.y <= MAX_MAGNITUDE
            && -MAX_MAGNITUDE <= p.rotation <= MAX_MAGNITUDE,
    ensures
        r@ == pin_line(pin_model(*p)),
{
    let mut out = chars_of("P~1~");
    push_str(&mut out, elibu_pin_type_to_code(&p.pin_type));
    push_str(&mut out, "~");
    if is_empty_text(&p.pin_num) {
        push_str(&mut out, "0");
    } else {
        push_str(&mut out, p.pin_num.as_str());
    }
    push_str(&mut out, "~");
    push_fixed(&mut out, p.x, 4);
    push_str(&mut out, "~");
    push_fixed(&mut out, p.y, 4);
    push_str(&mut out, "~");
    push_fixed(&mut out, p.rotation, 4);
    push_str(&mut out, "~0~0~0~0~0~0~0~");
    push_str(&mut out, p.pin_name.as_str());
    string_of(&out)
}

/// Lines joined with `\n`.
pub fn join_with_newlines(lines: &Vec<String>) -> (r: String)
    ensures
        r@ == join_lines(views_of(lines@)),
{
    let ghost lv = views_of(lines@);
    let mut out: Vec<char> = Vec::new();
    let mut i: usize = 0;
    while i < lines.len()
        invariant
            0 <= i <= lines@.len(),
            lv == views_of(lines@),
            out@ == join_lines(lv.take(i as int)),
        decreases lines@.len() - i,
    {
        assert(lv.take(i + 1).drop_last() =~= lv.take(i as int));
        if i > 0 {
            push_str(&mut out, "\n");
        }
        push_str(&mut out, lines[i].as_str());
        proof {
            if i == 0 {
                assert(out@ =~= lv.take(1)[0]);
            }
        }
        i = i + 1;
    }
    assert(lv.take(i as int) =~= lv);
    string_of(&out)
}

/// Flushes the document being replayed into `docs` (see `flushed`) and clears the accumulator.
pub fn flush_elibu_doc(acc: &mut ElibuDocAccumulator, docs: &mut Vec<ElibuDocument>)
    requires
        old(acc).wf(),
    ensures
        final(acc).model() == empty_acc(),
        final(acc).wf(),
        docs_model(final(docs)@) == match flushed(old(acc).model()) {
            Some(d) => docs_model(old(docs)@).push(d),
            None => docs_model(old(docs)@),
        },
{
    let ghost m = acc.model();
    if !is_empty_text(&acc.uuid) {
        if is_ascii_ci(&acc.doc_type, "symbol") {
            let mut all: Vec<String> = Vec::new();
            let mut i: usize = 0;
            while i < acc.lines.len()
                invariant
                    0 <= i <= acc.lines@.len(),
                    views_of(all@) == views_of(acc.lines@).take(i as int),
                decreases acc.lines@.len() - i,
            {
                let l = acc.lines[i].clone();
                let ghost prev = all@;
                all.push(l);
                assert(views_of(all@) =~= views_of(prev).push(l@));
                assert(views_of(all@) =~= views_of(acc.lines@).take(i + 1));
                i = i + 1;
            }
            assert(views_of(acc.lines@).take(i as int) =~= views_of(acc.lines@));
            let mut k: usize = 0;
            while k < acc.pins.len()
                invariant
                    0 <= k <= acc.pins@.len(),
                    acc.wf(),
                    views_of(all@) == views_of(acc.lines@) + pin_lines(pins_model(acc.pins@)).take(
                        k as int,
                    ),
                decreases acc.pins@.len() - k,
            {
                let l = pin_line_of(&acc.pins[k].1);
                let ghost prev = all@;
                all.push(l);
                assert(views_of(all@) =~= views_of(prev).push(l@));
                assert(views_of(all@) =~= views_of(acc.lines@) + pin_lines(pins_model(acc.pins@)).take(
                    k + 1,
                ));
                k = k + 1;
            }
            assert(pin_lines(pins_model(acc.pins@)).take(k as int) =~= pin_lines(
                pins_model(acc.pins@),
            ));
            if all.len() > 0 {
                let text = join_with_newlines(&all);
                let d = ElibuDocument { is_symbol: true, uuid: acc.uuid.clone(), text };
                let ghost prev = docs@;
                docs.push(d);
                assert(docs_model(docs@) =~= docs_model(prev).push(doc_model(d)));
            }
        } else if is_ascii_ci(&acc.doc_type, "footprint") {
            if acc.lines.len() > 0 {
                let text = join_with_newlines(&acc.lines);
                let d = ElibuDocument { is_symbol: false, uuid: acc.uuid.clone(), text };
                let ghost prev = docs@;
                docs.push(d);
                assert(docs_model(docs@) =~= docs_model(prev).push(doc_model(d)));
            }
        }
    }
    acc.doc_type = String::new();
    acc.uuid = String::new();
    acc.lines = Vec::new();
    acc.pins = Vec::new();
    assert(acc.model().2 =~= Seq::<Seq<char>>::empty());
    assert(acc.model().3 =~= Seq::<(Seq<char>, PinModel)>::empty());
}

fn apply_symbol_event(acc: &mut ElibuDocAccumulator, kind: &String, id: &String, p: &Json)
    requires
        old(acc).wf(),
    ensures
        final(acc).wf(),
        final(acc).model() == symbol_event(old(acc).model(), kind@, id@, *p),
{
    let ghost m = acc.model();
    if crate::footprint::is_text(kind, "PIN") {
        if !is_empty_text(id) {
            let pin = ElibuSymbolPin {
                x: num_field_or(p, "x", 0),
                y: num_field_or(p, "y", 0),
                rotation: num_field_or(p, "rotation", 0),
                pin_num: String::new(),
                pin_name: String::new(),
                pin_type: String::new(),
            };
            let i = pin_slot(&acc.pins, id);
            let ghost old_pins = acc.pins@;
            proof {
                lemma_pin_put_in_order(m.3, id@, pin_model(pin));
            }
            if i < acc.pins.len() && str_eq(acc.pins[i].0.as_str(), id.as_str()) {
                acc.pins.set(i, (id.clone(), pin));
                assert(pins_model(acc.pins@) =~= m.3.update(i as int, (id@, pin_model(pin))));
                assert forall|j: int| 0 <= j < acc.pins@.len() implies {
                    let q = #[trigger] acc.pins@[j].1;
                    -MAX_MAGNITUDE <= q.x <= MAX_MAGNITUDE && -MAX_MAGNITUDE <= q.y <= MAX_MAGNITUDE
                        && -MAX_MAGNITUDE <= q.rotation <= MAX_MAGNITUDE
                } by {
                    if j != i {
                        assert(acc.pins@[j] == old_pins[j]);
                    }
                }
            } else {
                acc.pins.insert(i, (id.clone(), pin));
                assert(pins_model(acc.pins@) =~= m.3.insert(i as int, (id@, pin_model(pin))));
                assert forall|j: int| 0 <= j < acc.pins@.len() implies {
                    let q = #[trigger] acc.pins@[j].1;
                    -MAX_MAGNITUDE <= q.x <= MAX_MAGNITUDE && -MAX_MAGNITUDE <= q.y <= MAX_MAGNITUDE
                        && -MAX_MAGNITUDE <= q.rotation <= MAX_MAGNITUDE
                } by {
                    if j < i {
                        assert(acc.pins@[j] == old_pins[j]);
                    } else if j > i {
                        assert(acc.pins@[j] == old_pins[j - 1]);
                    }
                }
            }
        }
    } else if crate::footprint::is_text(kind, "ATTR") {
        proof {
            reveal_strlit("ATTR");
            reveal_strlit("PIN");
        }
        let parent: String = match get_str(p, "parentId") {
            Some(v) => v.clone(),
            None => String::new(),
        };
        if !is_empty_text(&parent) {
            let i = find_pin(&acc.pins, &parent);
            if i < acc.pins.len() {
                let key: String = match get_str(p, "key") {
                    Some(v) => v.clone(),
                    None => String::new(),
                };
                let value: String = match get_str(p, "value") {
                    Some(v) => v.clone(),
                    None => String::new(),
                };
                let old_pin = &acc.pins[i].1;
                let mut pin = ElibuSymbolPin {
                    x: old_pin.x,
                    y: old_pin.y,
                    rotation: old_pin.rotation,
                    pin_num: old_pin.pin_num.clone(),
                    pin_name: old_pin.pin_name.clone(),
                    pin_type: old_pin.pin_type.clone(),
                };
                if crate::footprint::is_text(&key, "Pin Name") {
                    pin.pin_name = value;
                } else if crate::footprint::is_text(&key, "Pin Number") {
                    pin.pin_num = value;
                } else if crate::footprint::is_text(&key, "Pin Type") {
                    pin.pin_type = value;
                }
                assert(pin_model(pin) == pin_attr(
                    m.3[i as int].1,
                    or_text(str_field(*p, "key"@), seq![]),
                    or_text(str_field(*p, "value"@), seq![]),
                ));
                assert(acc.pins@[i as int].0@ == parent@);
                acc.pins.set(i, (parent, pin));
                assert(pins_model(acc.pins@) =~= m.3.update(i as int, (parent@, pin_model(pin))));
            }
        }
    } else {
        proof {
            reveal_strlit("ATTR");
            reveal_strlit("PIN");
            reveal_strlit("RECT");
            reveal_strlit("ELLIPSE");
            reveal_strlit("POLY");
        }
        match symbol_shape_line(kind, p) {
            Some(l) => {
                let ghost prev = acc.lines@;
                acc.lines.push(l);
                assert(views_of(acc.lines@) =~= views_of(prev).push(l@));
            },
            None => {},
        }
    }
}

/// Replays one line of the event log (see `replay_step`).
pub fn apply_event_line(acc: &mut ElibuDocAccumulator, docs: &mut Vec<ElibuDocument>, raw: &String)
    requires
        old(acc).wf(),
    ensures
        final(acc).wf(),
        (final(acc).model(), docs_model(final(docs)@)) == replay_step(
            (old(acc).model(), docs_model(old(docs)@)),
            raw@,
        ),
{
    match decode_event_line(raw) {
        None => {},
        Some((kind, id, p)) => {
            if crate::footprint::is_text(&kind, "DOCHEAD") {
                flush_elibu_doc(acc, docs);
                acc.doc_type = match get_str(&p, "docType") {
                    Some(v) => v.clone(),
                    None => String::new(),
                };
                acc.uuid = match get_str(&p, "uuid") {
                    Some(v) => v.clone(),
                    None => String::new(),
                };
            } else if is_ascii_ci(&acc.doc_type, "symbol") {
                apply_symbol_event(acc, &kind, &id, &p);
            } else if is_ascii_ci(&acc.doc_type, "footprint") {
                match footprint_shape_line(&kind, &p) {
                    Some(l) => {
                        let ghost prev = acc.lines@;
                        acc.lines.push(l);
                        assert(views_of(acc.lines@) =~= views_of(prev).push(l@));
                    },
                    None => {},
                }
            }
        },
    }
}

/// The documents of an event log (see `replayed_documents`).
pub fn replay_event_log(content: &str) -> (r: Vec<ElibuDocument>)
    ensures
        docs_model(r@) == replayed_documents(content@),
{
    let c = chars_of(content);
    let raw = split_nonempty(&c, '\n');
    let ghost lines = views(raw@);
    let mut acc = ElibuDocAccumulator::new();
    let mut docs: Vec<ElibuDocument> = Vec::new();
    let mut i: usize = 0;
    assert(docs_model(docs@) =~= Seq::<DocModel>::empty());
    while i < raw.len()
        invariant
            0 <= i <= raw@.len(),
            lines == views(raw@),
            acc.wf(),
            (acc.model(), docs_model(docs@)) == replay_lines(
                (empty_acc(), seq![]),
                lines.take(i as int),
            ),
        decreases raw@.len() - i,
    {
        assert(lines.take(i + 1).drop_last() =~= lines.take(i as int));
        let line = string_of(&raw[i]);
        apply_event_line(&mut acc, &mut docs, &line);
        i = i + 1;
    }
    assert(lines.take(i as int) =~= lines);
    flush_elibu_doc(&mut acc, &mut docs);
    docs
}

/// A document head ends the document being replayed: the next one starts with
/// no lines and no pins, whatever the previous one held, and only the previous
/// one is flushed, under its own UUID.
pub proof fn lemma_document_head_resets(st: (AccModel, Seq<DocModel>), raw: Seq<char>)
    requires
        decode_line(raw) is Some,
        decode_line(raw).unwrap().0 == "DOCHEAD"@,
    ensures
        replay_step(st, raw).0.2.len() == 0,
        replay_step(st, raw).0.3.len() == 0,
        replay_step(st, raw).1 == match flushed(st.0) {
            Some(d) => st.1.push(d),
            None => st.1,
        },
        flushed(st.0) matches Some(d) ==> d.1 == st.0.1,
{
}

proof fn lemma_pin_index_found(pins: Seq<(Seq<char>, PinModel)>, k: Seq<char>)
    ensures
        pin_index(pins, k) <= pins.len(),
        pin_index(pins, k) < pins.len() ==> pins[pin_index(pins, k) as int].0 == k,
    decreases pins.len(),
{
    if pins.len() > 0 && pins[0].0 != k {
        lemma_pin_index_found(pins.drop_first(), k);
    }
}

proof fn lemma_step_keeps_order(st: (AccModel, Seq<DocModel>), raw: Seq<char>)
    requires
        keys_in_order(st.0.3),
    ensures
        keys_in_order(replay_step(st, raw).0.3),
{
    match decode_line(raw) {
        None => {},
        Some(ev) => {
            if ev.0 != "DOCHEAD"@ && lower(st.0.0) == "symbol"@ {
                let acc = st.0;
                let p = ev.2;
                if ev.0 == "PIN"@ {
                    if ev.1.len() > 0 {
                        lemma_pin_put_in_order(
                            acc.3,
                            ev.1,
                            (
                                or_int(json_number(field(p, "x"@)), 0),
                                or_int(json_number(field(p, "y"@)), 0),
                                or_int(json_number(field(p, "rotation"@)), 0),
                                seq![],
                                seq![],
                                seq![],
                            ),
                        );
                    }
                } else if ev.0 == "ATTR"@ {
                    let parent = or_text(str_field(p, "parentId"@), seq![]);
                    lemma_pin_index_found(acc.3, parent);
                    let i = pin_index(acc.3, parent);
                    if parent.len() > 0 && i < acc.3.len() {
                        let q = replay_step(st, raw).0.3;
                        assert forall|j: int| 0 <= j < q.len() - 1 implies key_lt(
                            #[trigger] q[j].0,
                            q[j + 1].0,
                        ) by {
                            assert(q[j].0 == acc.3[j].0 && q[j + 1].0 == acc.3[j + 1].0);
                        }
                    }
                }
            }
        },
    }
}

/// However the event log runs, the pins of the document being replayed stay
/// in key order of their ids, so a symbol's pin lines are written in that order.
pub proof fn lemma_replay_pins_in_order(lines: Seq<Seq<char>>)
    ensures
        keys_in_order(replay_lines((empty_acc(), seq![]), lines).0.3),
    decreases lines.len(),
{
    if lines.len() > 0 {
        lemma_replay_pins_in_order(lines.drop_last());
        lemma_step_keeps_order(replay_lines((empty_acc(), seq![]), lines.drop_last()), lines.last());
    }
}

} // verus!
