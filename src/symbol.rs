//! Symbol records of the shape language rendered as symbol library text.
use vstd::prelude::*;

use crate::chars::{chars_of, push_chars, push_str, string_of};
use crate::footprint::{is_text, number_or, record_args, split_record, views_of};
use crate::num::{
    decimal_value, int_text, integer_value, mil2mm, mm_of, mm_text, parse_decimal, parse_integer,
    push_fixed, MAX_MAGNITUDE,
};
use crate::text::{pieces, split_nonempty, views};

verus! {

pub open spec fn num_or0(t: Seq<char>) -> int {
    match decimal_value(t) {
        Some(v) => v,
        None => 0,
    }
}

/// Millimetres (nanometres) of a value relative to the origin coordinate `o`.
pub open spec fn rel_mm(v: int, o: int) -> int {
    mm_of(v - o)
}

/// Remainder of `a` by `m` with the sign of `a`, as Rust's `%` gives it.
pub open spec fn trunc_rem(a: int, m: int) -> int {
    if a >= 0 {
        a % m
    } else {
        -((-a) % m)
    }
}

/// A rotation token turned by 180 degrees, as an integer of degrees.
pub open spec fn turned(t: Seq<char>) -> int {
    trunc_rem(
        match integer_value(t) {
            Some(v) => v,
            None => 0,
        } + 180,
        360,
    )
}

pub open spec fn pin_type_name(code: Seq<char>) -> Seq<char> {
    if code == "1"@ {
        "input"@
    } else if code == "2"@ {
        "output"@
    } else if code == "3"@ {
        "bidirectional"@
    } else if code == "4"@ {
        "power_in"@
    } else {
        "unspecified"@
    }
}

pub open spec fn origin_ok(ox: i64, oy: i64) -> bool {
    -MAX_MAGNITUDE <= ox <= MAX_MAGNITUDE && -MAX_MAGNITUDE <= oy <= MAX_MAGNITUDE
}

/// Text of a pin record with arguments `a` (at least fourteen): its electrical
/// type, position relative to the origin with the vertical axis inverted,
/// direction turned by 180 degrees, name and number.
#[verifier::opaque]
pub open spec fn pin_text(a: Seq<Seq<char>>, ox: int, oy: int) -> Seq<char> {
    "    (pin "@ + pin_type_name(a[1]) + " line (at "@ + mm_text(rel_mm(num_or0(a[3]), ox)) + " "@
        + mm_text(-rel_mm(num_or0(a[4]), oy)) + " "@ + int_text(turned(a[5]))
        + ") (length 2.54)\n      (name \""@ + a[13] + "\" (effects (font (size 1 1))))\n      (number \""@
        + a[2] + "\" (effects (font (size 1 1))))\n    )\n"@
}

fn rel_number(t: &String, o: i64) -> (r: i64)
    requires
        -MAX_MAGNITUDE <= o <= MAX_MAGNITUDE,
    ensures
        r == rel_mm(num_or0(t@), o as int),
        -300_000_000_000_000 <= r <= 300_000_000_000_000,
{
    let v = number_or(t, 0);
    mil2mm(v - o)
}

fn turned_of(t: &String) -> (r: i64)
    ensures
        r == turned(t@),
        -360 < r < 360,
{
    let c = chars_of(t.as_str());
    let v: i64 = match parse_integer(&c) {
        Some(v) => v,
        None => 0,
    };
    let a = v + 180;
    if a >= 0 {
        a % 360
    } else {
        -((-a) % 360)
    }
}

/// Renders a pin record.
pub fn parse_symbol_pin(args: &Vec<String>, origin_x: i64, origin_y: i64) -> (r: Option<String>)
    requires
        origin_ok(origin_x, origin_y),
    ensures
        args@.len() < 14 ==> r is None,
        args@.len() >= 14 ==> (r matches Some(s) && s@ == pin_text(
            views_of(args@),
            origin_x as int,
            origin_y as int,
        )),
{
    if args.len() < 14 {
        return None;
    }
    let ghost a = views_of(args@);
    let code = &args[1];
    let kind = if is_text(code, "1") {
        "input"
    } else if is_text(code, "2") {
        "output"
    } else if is_text(code, "3") {
        "bidirectional"
    } else if is_text(code, "4") {
        "power_in"
    } else {
        "unspecified"
    };
    let x = rel_number(&args[3], origin_x);
    let y = -rel_number(&args[4], origin_y);
    let rot = turned_of(&args[5]);
    let mut out = chars_of("    (pin ");
    push_str(&mut out, kind);
    push_str(&mut out, " line (at ");
    push_fixed(&mut out, x, 6);
    push_str(&mut out, " ");
    push_fixed(&mut out, y, 6);
    push_str(&mut out, " ");
    push_fixed(&mut out, rot, 0);
    push_str(&mut out, ") (length 2.54)\n      (name \"");
    let name = chars_of(args[13].as_str());
    push_chars(&mut out, &name);
    push_str(&mut out, "\" (effects (font (size 1 1))))\n      (number \"");
    let num = chars_of(args[2].as_str());
    push_chars(&mut out, &num);
    push_str(&mut out, "\" (effects (font (size 1 1))))\n    )\n");
    reveal(pin_text);
    assert(out@ =~= pin_text(a, origin_x as int, origin_y as int));
    Some(string_of(&out))
}

/// Text of a rectangle record with arguments `a` (at least six): a filled
/// rectangle from its corner, extending right and down.
#[verifier::opaque]
pub open spec fn symbol_rect_text(a: Seq<Seq<char>>, ox: int, oy: int) -> Seq<char> {
    let x1 = rel_mm(num_or0(a[0]), ox);
    let y1 = -rel_mm(num_or0(a[1]), oy);
    "    (rectangle (start "@ + mm_text(x1) + " "@ + mm_text(y1) + ") (end "@ + mm_text(
        x1 + mm_of(num_or0(a[4])),
    ) + " "@ + mm_text(y1 - mm_of(num_or0(a[5])))
        + ") (stroke (width 0) (type default)) (fill (type background)))\n"@
}

/// Renders a rectangle record.
pub fn parse_symbol_rect(args: &Vec<String>, origin_x: i64, origin_y: i64) -> (r: Option<String>)
    requires
        origin_ok(origin_x, origin_y),
    ensures
        args@.len() < 6 ==> r is None,
        args@.len() >= 6 ==> (r matches Some(s) && s@ == symbol_rect_text(
            views_of(args@),
            origin_x as int,
            origin_y as int,
        )),
{
    if args.len() < 6 {
        return None;
    }
    let ghost a = views_of(args@);
    let x1 = rel_number(&args[0], origin_x);
    let y1 = -rel_number(&args[1], origin_y);
    let w = rel_number(&args[4], 0);
    let l = rel_number(&args[5], 0);
    let mut out = chars_of("    (rectangle (start ");
    push_fixed(&mut out, x1, 6);
    push_str(&mut out, " ");
    push_fixed(&mut out, y1, 6);
    push_str(&mut out, ") (end ");
    push_fixed(&mut out, x1 + w, 6);
    push_str(&mut out, " ");
    push_fixed(&mut out, y1 - l, 6);
    push_str(&mut out, ") (stroke (width 0) (type default)) (fill (type background)))\n");
    reveal(symbol_rect_text);
    assert(out@ =~= symbol_rect_text(a, origin_x as int, origin_y as int));
    Some(string_of(&out))
}

/// Text of a circle record with arguments `a` (at least three).
#[verifier::opaque]
pub open spec fn symbol_circle_text(a: Seq<Seq<char>>, ox: int, oy: int) -> Seq<char> {
    "    (circle (center "@ + mm_text(rel_mm(num_or0(a[0]), ox)) + " "@ + mm_text(
        -rel_mm(num_or0(a[1]), oy),
    ) + ") (radius "@ + mm_text(mm_of(num_or0(a[2])))
        + ") (stroke (width 0) (type default)) (fill (type background)))\n"@
}

/// Renders a circle record.
pub fn parse_symbol_circle(args: &Vec<String>, origin_x: i64, origin_y: i64) -> (r: Option<String>)
    requires
        origin_ok(origin_x, origin_y),
    ensures
        args@.len() < 3 ==> r is None,
        args@.len() >= 3 ==> (r matches Some(s) && s@ == symbol_circle_text(
            views_of(args@),
            origin_x as int,
            origin_y as int,
        )),
{
    if args.len() < 3 {
        return None;
    }
    let ghost a = views_of(args@);
    let x = rel_number(&args[0], origin_x);
    let y = -rel_number(&args[1], origin_y);
    let rad = rel_number(&args[2], 0);
    let mut out = chars_of("    (circle (center ");
    push_fixed(&mut out, x, 6);
    push_str(&mut out, " ");
    push_fixed(&mut out, y, 6);
    push_str(&mut out, ") (radius ");
    push_fixed(&mut out, rad, 6);
    push_str(&mut out, ") (stroke (width 0) (type default)) (fill (type background)))\n");
    reveal(symbol_circle_text);
    assert(out@ =~= symbol_circle_text(a, origin_x as int, origin_y as int));
    Some(string_of(&out))
}

/// Text of a text record with arguments `a` (at least twelve): the twelfth
/// argument at its position, its rotation turned by 180 degrees and times ten.
#[verifier::opaque]
pub open spec fn symbol_text_text(a: Seq<Seq<char>>, ox: int, oy: int) -> Seq<char> {
    "    (text \""@ + a[11] + "\" (at "@ + mm_text(rel_mm(num_or0(a[1]), ox)) + " "@ + mm_text(
        -rel_mm(num_or0(a[2]), oy),
    ) + " "@ + int_text(turned(a[3]) * 10) + ") (effects (font (size 1.27 1.27))))\n"@
}

/// Renders a text record.
pub fn parse_symbol_text(args: &Vec<String>, origin_x: i64, origin_y: i64) -> (r: Option<String>)
    requires
        origin_ok(origin_x, origin_y),
    ensures
        args@.len() < 12 ==> r is None,
        args@.len() >= 12 ==> (r matches Some(s) && s@ == symbol_text_text(
            views_of(args@),
            origin_x as int,
            origin_y as int,
        )),
{
    if args.len() < 12 {
        return None;
    }
    let ghost a = views_of(args@);
    let x = rel_number(&args[1], origin_x);
    let y = -rel_number(&args[2], origin_y);
    let rot = turned_of(&args[3]) * 10;
    let mut out = chars_of("    (text \"");
    let t = chars_of(args[11].as_str());
    push_chars(&mut out, &t);
    push_str(&mut out, "\" (at ");
    push_fixed(&mut out, x, 6);
    push_str(&mut out, " ");
    push_fixed(&mut out, y, 6);
    push_str(&mut out, " ");
    push_fixed(&mut out, rot, 0);
    push_str(&mut out, ") (effects (font (size 1.27 1.27))))\n");
    reveal(symbol_text_text);
    assert(out@ =~= symbol_text_text(a, origin_x as int, origin_y as int));
    Some(string_of(&out))
}

/// Values of the tokens of `toks` that are numbers, in order.
pub open spec fn numbers_of(toks: Seq<Seq<char>>) -> Seq<int>
    decreases toks.len(),
{
    if toks.len() == 0 {
        seq![]
    } else {
        let p = numbers_of(toks.drop_last());
        match decimal_value(toks.last()) {
            Some(v) => p.push(v),
            None => p,
        }
    }
}

/// Text of the first `k` points of a polyline through the numbers `p`.
pub open spec fn poly_points_text(p: Seq<int>, ox: int, oy: int, k: int) -> Seq<char>
    decreases k,
{
    if k <= 0 {
        seq![]
    } else {
        poly_points_text(p, ox, oy, k - 1) + "(xy "@ + mm_text(rel_mm(p[2 * (k - 1)], ox)) + " "@
            + mm_text(-rel_mm(p[2 * (k - 1) + 1], oy)) + ") "@
    }
}

pub open spec fn poly_numbers(a: Seq<Seq<char>>) -> Seq<int> {
    numbers_of(pieces(a[0], ' '))
}

/// Text of a polyline record with arguments `a`: one point per pair of numbers
/// of its first argument; a trailing unpaired number is ignored.
pub open spec fn poly_text(a: Seq<Seq<char>>, ox: int, oy: int) -> Seq<char> {
    let p = poly_numbers(a);
    "    (polyline (pts "@ + poly_points_text(p, ox, oy, p.len() as int / 2)
        + ") (stroke (width 0) (type default)) (fill (type none)))\n"@
}

fn numbers_in(t: &String) -> (r: Vec<i64>)
    ensures
        r@.map_values(|v: i64| v as int) == numbers_of(pieces(t@, ' ')),
        forall|i: int| 0 <= i < r@.len() ==> -MAX_MAGNITUDE <= #[trigger] r@[i] <= MAX_MAGNITUDE,
{
    let c = chars_of(t.as_str());
    let toks = split_nonempty(&c, ' ');
    let ghost tv = views(toks@);
    let mut out: Vec<i64> = Vec::new();
    let mut i: usize = 0;
    while i < toks.len()
        invariant
            0 <= i <= toks@.len(),
            tv == views(toks@),
            out@.map_values(|v: i64| v as int) == numbers_of(tv.take(i as int)),
            forall|j: int| 0 <= j < out@.len() ==> -MAX_MAGNITUDE <= #[trigger] out@[j] <= MAX_MAGNITUDE,
        decreases toks@.len() - i,
    {
        assert(tv.take(i + 1).drop_last() =~= tv.take(i as int));
        assert(tv[i as int] == toks@[i as int]@);
        match parse_decimal(&toks[i]) {
            Some(v) => {
                out.push(v);
                assert(out@.map_values(|v: i64| v as int) =~= numbers_of(tv.take(i as int)).push(
                    v as int,
                ));
            },
            None => {},
        }
        i = i + 1;
    }
    assert(tv.take(i as int) =~= tv);
    out
}

/// Renders a polyline or polygon record.
pub fn parse_symbol_poly(args: &Vec<String>, origin_x: i64, origin_y: i64) -> (r: Option<String>)
    requires
        origin_ok(origin_x, origin_y),
    ensures
        args@.len() == 0 || poly_numbers(views_of(args@)).len() < 4 ==> r is None,
        args@.len() > 0 && poly_numbers(views_of(args@)).len() >= 4 ==> (r matches Some(s) && s@
            == poly_text(views_of(args@), origin_x as int, origin_y as int)),
{
    if args.len() == 0 {
        return None;
    }
    let pts = numbers_in(&args[0]);
    let ghost p = pts@.map_values(|v: i64| v as int);
    if pts.len() < 4 {
        return None;
    }
    let mut out = chars_of("    (polyline (pts ");
    let ghost head = out@;
    let mut k: usize = 0;
    while k < pts.len() / 2
        invariant
            2 * k <= pts@.len(),
            p == pts@.map_values(|v: i64| v as int),
            forall|j: int| 0 <= j < pts@.len() ==> -MAX_MAGNITUDE <= #[trigger] pts@[j] <= MAX_MAGNITUDE,
            origin_ok(origin_x, origin_y),
            out@ == head + poly_points_text(p, origin_x as int, origin_y as int, k as int),
        decreases pts@.len() - 2 * k,
    {
        proof {
            assert(0 <= 2 * k + 1 < pts@.len());
        }
        let x = mil2mm(pts[2 * k] - origin_x);
        let y = -mil2mm(pts[2 * k + 1] - origin_y);
        push_str(&mut out, "(xy ");
        push_fixed(&mut out, x, 6);
        push_str(&mut out, " ");
        push_fixed(&mut out, y, 6);
        push_str(&mut out, ") ");
        k = k + 1;
    }
    assert(k as int == p.len() as int / 2);
    assert(out@ =~= head + poly_points_text(p, origin_x as int, origin_y as int, p.len() as int / 2));
    push_str(&mut out, ") (stroke (width 0) (type default)) (fill (type none)))\n");
    Some(string_of(&out))
}

/// Text of one symbol record, relative to the origin `(ox, oy)`.
pub open spec fn symbol_record_text(line: Seq<char>, ox: int, oy: int) -> Seq<char> {
    let t = pieces(line, '~');
    if t.len() == 0 {
        seq![]
    } else {
        let k = t[0];
        let a = t.drop_first();
        if k == "P"@ {
            if a.len() >= 14 {
                pin_text(a, ox, oy)
            } else {
                seq![]
            }
        } else if k == "R"@ {
            if a.len() >= 6 {
                symbol_rect_text(a, ox, oy)
            } else {
                seq![]
            }
        } else if k == "E"@ {
            if a.len() >= 3 {
                symbol_circle_text(a, ox, oy)
            } else {
                seq![]
            }
        } else if k == "T"@ {
            if a.len() >= 12 {
                symbol_text_text(a, ox, oy)
            } else {
                seq![]
            }
        } else if k == "PL"@ || k == "PG"@ {
            if a.len() > 0 && poly_numbers(a).len() >= 4 {
                poly_text(a, ox, oy)
            } else {
                seq![]
            }
        } else {
            seq![]
        }
    }
}

/// Text of a run of symbol records, in order.
pub open spec fn symbol_records_text(lines: Seq<Seq<char>>, ox: int, oy: int) -> Seq<char>
    decreases lines.len(),
{
    if lines.len() == 0 {
        seq![]
    } else {
        symbol_records_text(lines.drop_last(), ox, oy) + symbol_record_text(lines.last(), ox, oy)
    }
}

fn render_symbol_record(line: &String, origin_x: i64, origin_y: i64) -> (r: Option<String>)
    requires
        origin_ok(origin_x, origin_y),
    ensures
        match r {
            Some(s) => s@ == symbol_record_text(line@, origin_x as int, origin_y as int),
            None => symbol_record_text(line@, origin_x as int, origin_y as int)
                == Seq::<char>::empty(),
        },
{
    let toks = split_record(line.as_str());
    if toks.len() == 0 {
        return None;
    }
    let args = record_args(&toks);
    let kind = &toks[0];
    if is_text(kind, "P") {
        parse_symbol_pin(&args, origin_x, origin_y)
    } else if is_text(kind, "R") {
        parse_symbol_rect(&args, origin_x, origin_y)
    } else if is_text(kind, "E") {
        parse_symbol_circle(&args, origin_x, origin_y)
    } else if is_text(kind, "T") {
        parse_symbol_text(&args, origin_x, origin_y)
    } else if is_text(kind, "PL") || is_text(kind, "PG") {
        parse_symbol_poly(&args, origin_x, origin_y)
    } else {
        None
    }
}

/// Properties written at the head of a symbol entry; the optional ones are
/// written only when present.
pub struct SymbolProperties {
    pub name: String,
    pub reference: String,
    pub value: String,
    pub footprint: Option<String>,
    pub datasheet: Option<String>,
    pub keywords: Option<String>,
    pub lcsc: String,
}

/// Properties as (name, reference, value, footprint, datasheet, keywords, LCSC code).
pub type PropsModel = (
    Seq<char>,
    Seq<char>,
    Seq<char>,
    Option<Seq<char>>,
    Option<Seq<char>>,
    Option<Seq<char>>,
    Seq<char>,
);

pub open spec fn opt_string(v: Option<String>) -> Option<Seq<char>> {
    match v {
        Some(s) => Some(s@),
        None => None,
    }
}

pub open spec fn props_model(p: SymbolProperties) -> PropsModel {
    (
        p.name@,
        p.reference@,
        p.value@,
        opt_string(p.footprint),
        opt_string(p.datasheet),
        opt_string(p.keywords),
        p.lcsc@,
    )
}

pub open spec fn opt_text(v: Option<Seq<char>>, before: Seq<char>, after: Seq<char>) -> Seq<char> {
    match v {
        Some(s) => before + s + after,
        None => seq![],
    }
}

#[verifier::opaque]
pub open spec fn properties_text(p: PropsModel) -> Seq<char> {
    "  (symbol \""@ + p.0 + "\" (pin_names hide) (pin_numbers hide) (in_bom yes) (on_board yes)\n"@
        + "    (property \"Reference\" \""@ + p.1
        + "\" (id 0) (at 0 1.27 0)\n      (effects (font (size 1.27 1.27)))\n    )\n"@
        + "    (property \"Value\" \""@ + p.2
        + "\" (id 1) (at 0 -2.54 0)\n      (effects (font (size 1.27 1.27)))\n    )\n"@ + opt_text(
        p.3,
        "    (property \"Footprint\" \""@,
        "\" (id 2) (at 0 -10.16 0)\n      (effects (font (size 1.27 1.27) italic) hide)\n    )\n"@,
    ) + opt_text(
        p.4,
        "    (property \"Datasheet\" \""@,
        "\" (id 3) (at -2.286 0.127 0)\n      (effects (font (size 1.27 1.27)) (justify left) hide)\n    )\n"@,
    ) + opt_text(
        p.5,
        "    (property \"ki_keywords\" \""@,
        "\" (id 4) (at 0 0 0)\n      (effects (font (size 1.27 1.27)) hide)\n    )\n"@,
    ) + "    (property \"LCSC\" \""@ + p.6
        + "\" (id 5) (at 0 0 0)\n      (effects (font (size 1.27 1.27)) hide)\n    )\n"@
}

fn push_opt(out: &mut Vec<char>, v: &Option<String>, before: &str, after: &str)
    ensures
        final(out)@ == old(out)@ + opt_text(opt_string(*v), before@, after@),
{
    match v {
        Some(s) => {
            let ghost start = out@;
            push_str(out, before);
            push_str(out, s.as_str());
            push_str(out, after);
            assert(out@ =~= start + opt_text(opt_string(*v), before@, after@));
        },
        None => {
            assert(out@ =~= old(out)@ + opt_text(opt_string(*v), before@, after@));
        },
    }
}

fn push_properties(out: &mut Vec<char>, p: &SymbolProperties)
    ensures
        final(out)@ == old(out)@ + properties_text(props_model(*p)),
{
    reveal(properties_text);
    let ghost start = out@;
    push_str(out, "  (symbol \"");
    push_str(out, p.name.as_str());
    push_str(out, "\" (pin_names hide) (pin_numbers hide) (in_bom yes) (on_board yes)\n");
    push_str(out, "    (property \"Reference\" \"");
    push_str(out, p.reference.as_str());
    push_str(out, "\" (id 0) (at 0 1.27 0)\n      (effects (font (size 1.27 1.27)))\n    )\n");
    push_str(out, "    (property \"Value\" \"");
    push_str(out, p.value.as_str());
    push_str(out, "\" (id 1) (at 0 -2.54 0)\n      (effects (font (size 1.27 1.27)))\n    )\n");
    push_opt(
        out,
        &p.footprint,
        "    (property \"Footprint\" \"",
        "\" (id 2) (at 0 -10.16 0)\n      (effects (font (size 1.27 1.27) italic) hide)\n    )\n",
    );
    push_opt(
        out,
        &p.datasheet,
        "    (property \"Datasheet\" \"",
        "\" (id 3) (at -2.286 0.127 0)\n      (effects (font (size 1.27 1.27)) (justify left) hide)\n    )\n",
    );
    push_opt(
        out,
        &p.keywords,
        "    (property \"ki_keywords\" \"",
        "\" (id 4) (at 0 0 0)\n      (effects (font (size 1.27 1.27)) hide)\n    )\n",
    );
    push_str(out, "    (property \"LCSC\" \"");
    push_str(out, p.lcsc.as_str());
    push_str(out, "\" (id 5) (at 0 0 0)\n      (effects (font (size 1.27 1.27)) hide)\n    )\n");
    assert(out@ =~= start + properties_text(props_model(*p)));
}

/// Text of one symbol entry: its properties, its records relative to the origin, and its closing.
pub open spec fn symbol_entry_text(
    p: PropsModel,
    lines: Seq<Seq<char>>,
    ox: int,
    oy: int,
) -> Seq<char> {
    properties_text(p) + symbol_records_text(lines, ox, oy) + "  )\n"@
}

/// Renders one symbol entry of a symbol library from its properties and the
/// records `shape`, placed relative to the origin `(origin_x, origin_y)`.
pub fn render_symbol_entry(
    props: &SymbolProperties,
    shape: &Vec<String>,
    origin_x: i64,
    origin_y: i64,
) -> (r: String)
    requires
        origin_ok(origin_x, origin_y),
    ensures
        r@ == symbol_entry_text(props_model(*props), views_of(shape@), origin_x as int, origin_y as int),
{
    let ghost lines = views_of(shape@);
    let mut out: Vec<char> = Vec::new();
    push_properties(&mut out, props);
    let ghost head = out@;
    assert(head =~= properties_text(props_model(*props)));
    let mut i: usize = 0;
    while i < shape.len()
        invariant
            0 <= i <= shape@.len(),
            lines == views_of(shape@),
            origin_ok(origin_x, origin_y),
            out@ == head + symbol_records_text(lines.take(i as int), origin_x as int, origin_y as int),
        decreases shape@.len() - i,
    {
        assert(lines.take(i + 1).drop_last() =~= lines.take(i as int));
        assert(lines[i as int] == shape@[i as int]@);
        let ghost before = out@;
        match render_symbol_record(&shape[i], origin_x, origin_y) {
            Some(t) => {
                push_str(&mut out, t.as_str());
            },
            None => {},
        }
        assert(out@ =~= head + symbol_records_text(lines.take(i + 1), origin_x as int, origin_y as int));
        i = i + 1;
    }
    assert(lines.take(i as int) =~= lines);
    push_str(&mut out, "  )\n");
    string_of(&out)
}

pub open spec fn concat_all(v: Seq<Seq<char>>) -> Seq<char>
    decreases v.len(),
{
    if v.len() == 0 {
        seq![]
    } else {
        concat_all(v.drop_last()) + v.last()
    }
}

/// A symbol library file holding `entries`, in order.
pub open spec fn library_text(entries: Seq<Seq<char>>) -> Seq<char> {
    "(kicad_symbol_lib (version 20210201) (generator JLC2KiCad)\n"@ + concat_all(entries) + ")\n"@
}

/// Wraps rendered symbol entries into a symbol library file.
pub fn render_symbol_library(entries: &Vec<String>) -> (r: String)
    ensures
        r@ == library_text(views_of(entries@)),
{
    let ghost ev = views_of(entries@);
    let mut out = chars_of("(kicad_symbol_lib (version 20210201) (generator JLC2KiCad)\n");
    let ghost head = out@;
    let mut i: usize = 0;
    while i < entries.len()
        invariant
            0 <= i <= entries@.len(),
            ev == views_of(entries@),
            out@ == head + concat_all(ev.take(i as int)),
        decreases entries@.len() - i,
    {
        assert(ev.take(i + 1).drop_last() =~= ev.take(i as int));
        push_str(&mut out, entries[i].as_str());
        assert(out@ =~= head + concat_all(ev.take(i + 1)));
        i = i + 1;
    }
    assert(ev.take(i as int) =~= ev);
    push_str(&mut out, ")\n");
    string_of(&out)
}

pub open spec fn escaped_char(c: char) -> Seq<char> {
    if c == ' ' || c == '.' {
        "_"@
    } else if c == '/' {
        "{slash}"@
    } else if c == '\\' {
        "{backslash}"@
    } else if c == '<' {
        "{lt}"@
    } else if c == '>' {
        "{gt}"@
    } else if c == ':' {
        "{colon}"@
    } else if c == '"' {
        "{dblquote}"@
    } else {
        seq![c]
    }
}

/// A title with the characters that symbol names cannot hold spelled out.
pub open spec fn escaped_name(s: Seq<char>) -> Seq<char>
    decreases s.len(),
{
    if s.len() == 0 {
        seq![]
    } else {
        escaped_name(s.drop_last()) + escaped_char(s.last())
    }
}

/// Turns a title into a symbol name: spaces and dots become `_`, and slashes,
/// backslashes, angle brackets, colons and double quotes are spelled out in braces.
pub fn symbol_component_name(title: &str) -> (r: String)
    ensures
        r@ == escaped_name(title@),
{
    let s = chars_of(title);
    let mut out: Vec<char> = Vec::new();
    let mut i: usize = 0;
    while i < s.len()
        invariant
            0 <= i <= s@.len(),
            out@ == escaped_name(s@.take(i as int)),
        decreases s@.len() - i,
    {
        assert(s@.take(i + 1).drop_last() =~= s@.take(i as int));
        let c = s[i];
        if c == ' ' || c == '.' {
            push_str(&mut out, "_");
        } else if c == '/' {
            push_str(&mut out, "{slash}");
        } else if c == '\\' {
            push_str(&mut out, "{backslash}");
        } else if c == '<' {
            push_str(&mut out, "{lt}");
        } else if c == '>' {
            push_str(&mut out, "{gt}");
        } else if c == ':' {
            push_str(&mut out, "{colon}");
        } else if c == '"' {
            push_str(&mut out, "{dblquote}");
        } else {
            out.push(c);
            assert(seq![c] =~= escaped_char(c));
        }
        i = i + 1;
    }
    assert(s@.take(i as int) =~= s@);
    string_of(&out)
}

} // verus!
