//! Footprint records of the shape language rendered as footprint text.
use vstd::prelude::*;

use crate::chars::{chars_of, push_chars, push_str, seq_eq, string_of};
use crate::num::{
    decimal_value, mil2mm, mm_of, mm_text, parse_decimal, push_fixed, units_text, MAX_MAGNITUDE,
    MAX_NM,
};

verus! {

/// Largest magnitude, in nanometres, of a bounding-box coordinate.
pub const MAX_COORD: i64 = 1_000_000_000_000_000;

/// Sentinel that the bounding box starts from, in nanometres (10000 mm).
pub const BOUNDS_SENTINEL: i64 = 10_000_000_000;

/// Render context of one footprint: its bounding box (nanometres), names and
/// paths, origin (ten-thousandths of a unit) and the requested model kinds.
pub struct FootprintInfo {
    pub max_x: i64,
    pub max_y: i64,
    pub min_x: i64,
    pub min_y: i64,
    pub footprint_name: String,
    pub output_dir: String,
    pub footprint_lib: String,
    pub model_base_variable: String,
    pub model_dir: String,
    pub origin: (i64, i64),
    pub models: Vec<String>,
}

/// Bounding box as (min x, max x, min y, max y).
pub type Bounds = (int, int, int, int);

impl FootprintInfo {
    pub open spec fn bounds(&self) -> Bounds {
        (self.min_x as int, self.max_x as int, self.min_y as int, self.max_y as int)
    }

    /// Every coordinate of the bounding box is within `MAX_COORD`.
    pub open spec fn wf(&self) -> bool {
        -MAX_COORD <= self.min_x <= MAX_COORD && -MAX_COORD <= self.max_x <= MAX_COORD
            && -MAX_COORD <= self.min_y <= MAX_COORD && -MAX_COORD <= self.max_y <= MAX_COORD
    }

    /// The same context with another bounding box.
    pub open spec fn with_bounds(&self, b: Bounds) -> FootprintInfo {
        FootprintInfo {
            min_x: b.0 as i64,
            max_x: b.1 as i64,
            min_y: b.2 as i64,
            max_y: b.3 as i64,
            ..*self
        }
    }
}

pub open spec fn min(a: int, b: int) -> int {
    if a <= b {
        a
    } else {
        b
    }
}

pub open spec fn max(a: int, b: int) -> int {
    if a >= b {
        a
    } else {
        b
    }
}

/// The bounding box grown to hold the point `(x, y)`.
pub open spec fn grow(b: Bounds, x: int, y: int) -> Bounds {
    (min(b.0, x), max(b.1, x), min(b.2, y), max(b.3, y))
}

/// The bounding box before any point: the sentinels.
pub open spec fn initial_bounds() -> Bounds {
    (BOUNDS_SENTINEL as int, -BOUNDS_SENTINEL as int, BOUNDS_SENTINEL as int, -BOUNDS_SENTINEL as int)
}

pub open spec fn in_coord_range(v: int) -> bool {
    -MAX_COORD <= v <= MAX_COORD
}

impl FootprintInfo {
    /// A context with the sentinel bounding box and the default names: output
    /// directory `.`, library `footprint`, model directory `packages3d`, origin
    /// at zero, models `STEP`.
    pub fn new() -> (r: FootprintInfo)
        ensures
            r.bounds() == initial_bounds(),
            r.wf(),
            r.footprint_name@ == Seq::<char>::empty(),
            r.output_dir@ == "."@,
            r.footprint_lib@ == "footprint"@,
            r.model_base_variable@ == Seq::<char>::empty(),
            r.model_dir@ == "packages3d"@,
            r.origin == (0i64, 0i64),
            r.models@.len() == 1,
            r.models@[0]@ == "STEP"@,
    {
        let mut models: Vec<String> = Vec::new();
        models.push(String::from_str("STEP"));
        FootprintInfo {
            max_x: -BOUNDS_SENTINEL,
            max_y: -BOUNDS_SENTINEL,
            min_x: BOUNDS_SENTINEL,
            min_y: BOUNDS_SENTINEL,
            footprint_name: String::new(),
            output_dir: String::from_str("."),
            footprint_lib: String::from_str("footprint"),
            model_base_variable: String::new(),
            model_dir: String::from_str("packages3d"),
            origin: (0, 0),
            models,
        }
    }
}

impl Default for FootprintInfo {
    /// The sentinel bounding box and the default names (see `FootprintInfo::new`).
    fn default() -> (r: FootprintInfo)
        ensures
            r.bounds() == initial_bounds(),
            r.wf(),
            r.output_dir@ == "."@,
            r.footprint_lib@ == "footprint"@,
            r.model_dir@ == "packages3d"@,
    {
        FootprintInfo::new()
    }
}

/// Grows the bounding box of `info` to hold the point `(x, y)` (nanometres).
pub fn calculate_footprint_bounds(info: &mut FootprintInfo, x: i64, y: i64)
    requires
        old(info).wf(),
        in_coord_range(x as int),
        in_coord_range(y as int),
    ensures
        *final(info) == old(info).with_bounds(grow(old(info).bounds(), x as int, y as int)),
        final(info).wf(),
{
    if x > info.max_x {
        info.max_x = x;
    }
    if x < info.min_x {
        info.min_x = x;
    }
    if y > info.max_y {
        info.max_y = y;
    }
    if y < info.min_y {
        info.min_y = y;
    }
}

pub open spec fn views_of(v: Seq<String>) -> Seq<Seq<char>> {
    v.map_values(|s: String| s@)
}

/// The value of a number token, or `d` when it is not one.
pub open spec fn num_or(t: Seq<char>, d: int) -> int {
    match decimal_value(t) {
        Some(v) => v,
        None => d,
    }
}

/// Millimetres (nanometres) of a number token, with `d` (ten-thousandths) for a token that is not a number.
pub open spec fn mm_or(t: Seq<char>, d: int) -> int {
    mm_of(num_or(t, d))
}

pub open spec fn is_mm(v: int) -> bool {
    -MAX_NM <= v <= MAX_NM
}

pub fn number_or(t: &String, d: i64) -> (r: i64)
    requires
        -MAX_MAGNITUDE <= d <= MAX_MAGNITUDE,
    ensures
        r == num_or(t@, d as int),
        -MAX_MAGNITUDE <= r <= MAX_MAGNITUDE,
{
    let c = chars_of(t.as_str());
    match parse_decimal(&c) {
        Some(v) => v,
        None => d,
    }
}

pub fn mm_number_or(t: &String, d: i64) -> (r: i64)
    requires
        -MAX_MAGNITUDE <= d <= MAX_MAGNITUDE,
    ensures
        r == mm_or(t@, d as int),
        is_mm(r as int),
{
    mil2mm(number_or(t, d))
}

/// Whether the characters of `t` are those of `s`.
pub fn is_text(t: &String, s: &str) -> (r: bool)
    ensures
        r == (t@ == s@),
{
    let a = chars_of(t.as_str());
    let b = chars_of(s);
    seq_eq(&a, &b)
}

/// Layer name of a layer id.
pub open spec fn layer_name(id: Seq<char>) -> Seq<char> {
    if id == "1"@ {
        "F.Cu"@
    } else if id == "2"@ {
        "B.Cu"@
    } else if id == "3"@ {
        "F.SilkS"@
    } else if id == "4"@ {
        "B.SilkS"@
    } else if id == "5"@ {
        "F.Paste"@
    } else if id == "6"@ {
        "B.Paste"@
    } else if id == "7"@ {
        "F.Mask"@
    } else if id == "8"@ {
        "B.Mask"@
    } else if id == "10"@ {
        "Edge.Cuts"@
    } else if id == "11"@ || id == "12"@ || id == "99"@ || id == "100"@ || id == "101"@ {
        "F.Fab"@
    } else {
        "F.SilkS"@
    }
}

/// Maps a layer id of the shape language to a layer name.
pub fn layer_map(layer_id: &String) -> (r: &'static str)
    ensures
        r@ == layer_name(layer_id@),
{
    if is_text(layer_id, "1") {
        "F.Cu"
    } else if is_text(layer_id, "2") {
        "B.Cu"
    } else if is_text(layer_id, "3") {
        "F.SilkS"
    } else if is_text(layer_id, "4") {
        "B.SilkS"
    } else if is_text(layer_id, "5") {
        "F.Paste"
    } else if is_text(layer_id, "6") {
        "B.Paste"
    } else if is_text(layer_id, "7") {
        "F.Mask"
    } else if is_text(layer_id, "8") {
        "B.Mask"
    } else if is_text(layer_id, "10") {
        "Edge.Cuts"
    } else if is_text(layer_id, "11") || is_text(layer_id, "12") || is_text(layer_id, "99")
        || is_text(layer_id, "100") || is_text(layer_id, "101") {
        "F.Fab"
    } else {
        "F.SilkS"
    }
}

pub open spec fn pad_shape_name(s: Seq<char>) -> Seq<char> {
    if s == "RECT"@ {
        "rect"@
    } else if s == "ELLIPSE"@ || s == "CIRCLE"@ {
        "circle"@
    } else {
        "oval"@
    }
}

pub open spec fn pad_layers(layer: Seq<char>) -> Seq<char> {
    if layer == "11"@ {
        "*.Cu *.Mask"@
    } else if layer == "1"@ {
        "F.Cu F.Paste F.Mask"@
    } else {
        "B.Cu B.Paste B.Mask"@
    }
}

pub open spec fn pad_kind(layer: Seq<char>) -> Seq<char> {
    if layer == "11"@ {
        "thru_hole"@
    } else {
        "smd"@
    }
}

/// Drill diameter of a pad, in nanometres: twice the converted radius field.
pub open spec fn pad_drill(a: Seq<Seq<char>>) -> int {
    mm_or(a[8], 0) * 2
}

pub open spec fn pad_rotation(a: Seq<Seq<char>>) -> int {
    if a.len() > 10 {
        num_or(a[10], 0)
    } else {
        0
    }
}

pub open spec fn drill_text(a: Seq<Seq<char>>) -> Seq<char> {
    if a[5] == "11"@ && pad_drill(a) > 0 {
        " (drill "@ + mm_text(pad_drill(a)) + ")"@
    } else {
        seq![]
    }
}

/// Text of a pad record with arguments `a` (at least nine): number, kind,
/// shape, position, rotation, size, drill and layers.
#[verifier::opaque]
pub open spec fn pad_text(a: Seq<Seq<char>>) -> Seq<char> {
    "  (pad "@ + a[7] + " "@ + pad_kind(a[5]) + " "@ + pad_shape_name(a[0]) + " (at "@ + mm_text(
        mm_or(a[1], 0),
    ) + " "@ + mm_text(mm_or(a[2], 0)) + " "@ + units_text(pad_rotation(a)) + ") (size "@
        + mm_text(mm_or(a[3], 10000)) + " "@ + mm_text(mm_or(a[4], 10000)) + ")"@ + drill_text(a)
        + " (layers "@ + pad_layers(a[5]) + "))\n"@
}

/// Renders a pad record and grows the bounding box to hold its centre.
pub fn parse_pad(args: &Vec<String>, info: &mut FootprintInfo) -> (r: Option<String>)
    requires
        old(info).wf(),
    ensures
        final(info).wf(),
        args@.len() < 9 ==> r is None && *final(info) == *old(info),
        args@.len() >= 9 ==> (r matches Some(s) && s@ == pad_text(views_of(args@))),
        args@.len() >= 9 ==> final(info).bounds() == grow(
            old(info).bounds(),
            mm_or(args@[1]@, 0),
            mm_or(args@[2]@, 0),
        ),
        *final(info) == old(info).with_bounds(final(info).bounds()),
{
    if args.len() < 9 {
        return None;
    }
    let ghost a = views_of(args@);
    let x = mm_number_or(&args[1], 0);
    let y = mm_number_or(&args[2], 0);
    let sx = mm_number_or(&args[3], 10000);
    let sy = mm_number_or(&args[4], 10000);
    let layer = &args[5];
    let drill = mm_number_or(&args[8], 0) * 2;
    let rotation = if args.len() > 10 {
        number_or(&args[10], 0)
    } else {
        0
    };
    calculate_footprint_bounds(info, x, y);
    let through = is_text(layer, "11");
    let mut out = chars_of("  (pad ");
    let num = chars_of(args[7].as_str());
    push_chars(&mut out, &num);
    push_str(&mut out, " ");
    if through {
        push_str(&mut out, "thru_hole");
    } else {
        push_str(&mut out, "smd");
    }
    push_str(&mut out, " ");
    let shape = &args[0];
    if is_text(shape, "RECT") {
        push_str(&mut out, "rect");
    } else if is_text(shape, "ELLIPSE") || is_text(shape, "CIRCLE") {
        push_str(&mut out, "circle");
    } else {
        push_str(&mut out, "oval");
    }
    push_str(&mut out, " (at ");
    push_fixed(&mut out, x, 6);
    push_str(&mut out, " ");
    push_fixed(&mut out, y, 6);
    push_str(&mut out, " ");
    push_fixed(&mut out, rotation, 4);
    push_str(&mut out, ") (size ");
    push_fixed(&mut out, sx, 6);
    push_str(&mut out, " ");
    push_fixed(&mut out, sy, 6);
    push_str(&mut out, ")");
    let ghost before_drill = out@;
    if through && drill > 0 {
        push_str(&mut out, " (drill ");
        push_fixed(&mut out, drill, 6);
        push_str(&mut out, ")");
        assert(out@ =~= before_drill + drill_text(a));
    } else {
        assert(out@ =~= before_drill + drill_text(a));
    }
    push_str(&mut out, " (layers ");
    if through {
        push_str(&mut out, "*.Cu *.Mask");
    } else if is_text(layer, "1") {
        push_str(&mut out, "F.Cu F.Paste F.Mask");
    } else {
        push_str(&mut out, "B.Cu B.Paste B.Mask");
    }
    push_str(&mut out, "))\n");
    reveal(pad_text);
    assert(out@ =~= pad_text(a));
    Some(string_of(&out))
}

/// Millimetre values (nanometres) of the tokens of `toks` that are numbers, in order.
pub open spec fn mm_points(toks: Seq<Seq<char>>) -> Seq<int>
    decreases toks.len(),
{
    if toks.len() == 0 {
        seq![]
    } else {
        let p = mm_points(toks.drop_last());
        match decimal_value(toks.last()) {
            Some(v) => p.push(mm_of(v)),
            None => p,
        }
    }
}

/// Number of segments a track draws through `n` coordinates: one per
/// consecutive pair of points; a trailing unpaired coordinate is ignored.
pub open spec fn segment_count(n: int) -> int {
    if n >= 4 {
        (n - 2) / 2
    } else {
        0
    }
}

#[verifier::opaque]
pub open spec fn line_text(
    x1: int,
    y1: int,
    x2: int,
    y2: int,
    layer: Seq<char>,
    width: int,
) -> Seq<char> {
    "  (fp_line (start "@ + mm_text(x1) + " "@ + mm_text(y1) + ") (end "@ + mm_text(x2) + " "@
        + mm_text(y2) + ") (layer "@ + layer + ") (width "@ + mm_text(width) + "))\n"@
}

pub open spec fn segment_text(p: Seq<int>, i: int, layer: Seq<char>, width: int) -> Seq<char> {
    line_text(p[i], p[i + 1], p[i + 2], p[i + 3], layer, width)
}

fn push_line(out: &mut Vec<char>, x1: i64, y1: i64, x2: i64, y2: i64, layer: &str, width: i64)
    requires
        x1 > i64::MIN && y1 > i64::MIN && x2 > i64::MIN && y2 > i64::MIN && width > i64::MIN,
    ensures
        final(out)@ == old(out)@ + line_text(x1 as int, y1 as int, x2 as int, y2 as int, layer@, width as int),
{
    let ghost start = out@;
    reveal(line_text);
    push_str(out, "  (fp_line (start ");
    push_fixed(out, x1, 6);
    push_str(out, " ");
    push_fixed(out, y1, 6);
    push_str(out, ") (end ");
    push_fixed(out, x2, 6);
    push_str(out, " ");
    push_fixed(out, y2, 6);
    push_str(out, ") (layer ");
    push_str(out, layer);
    push_str(out, ") (width ");
    push_fixed(out, width, 6);
    push_str(out, "))\n");
    assert(out@ =~= start + line_text(x1 as int, y1 as int, x2 as int, y2 as int, layer@, width as int));
}

/// Text of the first `k` segments of a track through the coordinates `p`.
pub open spec fn track_text(p: Seq<int>, layer: Seq<char>, width: int, k: int) -> Seq<char>
    decreases k,
{
    if k <= 0 {
        seq![]
    } else {
        track_text(p, layer, width, k - 1) + segment_text(p, 2 * (k - 1), layer, width)
    }
}

/// The bounding box grown by both ends of the first `k` segments through `p`.
pub open spec fn track_bounds(b: Bounds, p: Seq<int>, k: int) -> Bounds
    decreases k,
{
    if k <= 0 {
        b
    } else {
        let i = 2 * (k - 1);
        grow(grow(track_bounds(b, p, k - 1), p[i], p[i + 1]), p[i + 2], p[i + 3])
    }
}

pub open spec fn track_points(a: Seq<Seq<char>>) -> Seq<int> {
    mm_points(crate::text::pieces(a[3], ' '))
}

fn points_of(t: &String) -> (r: Vec<i64>)
    ensures
        r@.map_values(|v: i64| v as int) == mm_points(crate::text::pieces(t@, ' ')),
        forall|i: int| 0 <= i < r@.len() ==> is_mm(#[trigger] r@[i] as int),
{
    let c = chars_of(t.as_str());
    let toks = crate::text::split_nonempty(&c, ' ');
    let ghost tv = crate::text::views(toks@);
    let mut pts: Vec<i64> = Vec::new();
    let mut i: usize = 0;
    while i < toks.len()
        invariant
            0 <= i <= toks@.len(),
            tv == crate::text::views(toks@),
            pts@.map_values(|v: i64| v as int) == mm_points(tv.take(i as int)),
            forall|j: int| 0 <= j < pts@.len() ==> is_mm(#[trigger] pts@[j] as int),
        decreases toks@.len() - i,
    {
        assert(tv.take(i + 1).drop_last() =~= tv.take(i as int));
        assert(tv[i as int] == toks@[i as int]@);
        match parse_decimal(&toks[i]) {
            Some(v) => {
                let m = mil2mm(v);
                pts.push(m);
                assert(pts@.map_values(|v: i64| v as int) =~= mm_points(tv.take(i as int)).push(
                    m as int,
                ));
            },
            None => {},
        }
        i = i + 1;
    }
    assert(tv.take(i as int) =~= tv);
    pts
}

proof fn lemma_track_bounds_wf(b: Bounds, p: Seq<int>, k: int)
    requires
        in_coord_range(b.0) && in_coord_range(b.1) && in_coord_range(b.2) && in_coord_range(b.3),
        0 <= k,
        2 * k + 2 <= p.len(),
        forall|i: int| 0 <= i < p.len() ==> is_mm(#[trigger] p[i]),
    ensures
        ({
            let r = track_bounds(b, p, k);
            in_coord_range(r.0) && in_coord_range(r.1) && in_coord_range(r.2) && in_coord_range(r.3)
        }),
    decreases k,
{
    if k > 0 {
        lemma_track_bounds_wf(b, p, k - 1);
        let i = 2 * (k - 1);
        assert(is_mm(p[i]) && is_mm(p[i + 1]) && is_mm(p[i + 2]) && is_mm(p[i + 3]));
    }
}

/// Renders a track record as one line segment per consecutive pair of points,
/// growing the bounding box by every vertex drawn.
pub fn parse_track(args: &Vec<String>, info: &mut FootprintInfo) -> (r: Option<String>)
    requires
        old(info).wf(),
    ensures
        final(info).wf(),
        args@.len() < 4 || track_points(views_of(args@)).len() < 4 ==> r is None && *final(info)
            == *old(info),
        args@.len() >= 4 && track_points(views_of(args@)).len() >= 4 ==> (r matches Some(s) && s@
            == track_text(
            track_points(views_of(args@)),
            layer_name(args@[1]@),
            mm_or(args@[0]@, 2000),
            segment_count(track_points(views_of(args@)).len() as int),
        )),
        args@.len() >= 4 && track_points(views_of(args@)).len() >= 4 ==> final(info).bounds()
            == track_bounds(
            old(info).bounds(),
            track_points(views_of(args@)),
            segment_count(track_points(views_of(args@)).len() as int),
        ),
        *final(info) == old(info).with_bounds(final(info).bounds()),
{
    if args.len() < 4 {
        return None;
    }
    let ghost a = views_of(args@);
    let width = mm_number_or(&args[0], 2000);
    let layer = layer_map(&args[1]);
    let pts = points_of(&args[3]);
    let ghost p = pts@.map_values(|v: i64| v as int);
    assert(p == track_points(a));
    if pts.len() < 4 {
        return None;
    }
    let n = pts.len();
    let ghost b0 = info.bounds();
    let mut out: Vec<char> = Vec::new();
    let mut k: usize = 0;
    while 2 * k + 3 < n
        invariant
            n == pts@.len(),
            n >= 4,
            2 * k + 2 <= n,
            p == pts@.map_values(|v: i64| v as int),
            forall|i: int| 0 <= i < n ==> is_mm(#[trigger] pts@[i] as int),
            info.wf(),
            b0 == old(info).bounds(),
            in_coord_range(b0.0) && in_coord_range(b0.1) && in_coord_range(b0.2) && in_coord_range(
                b0.3,
            ),
            info.bounds() == track_bounds(b0, p, k as int),
            *info == old(info).with_bounds(info.bounds()),
            out@ == track_text(p, layer@, width as int, k as int),
            is_mm(width as int),
        decreases n - k,
    {
        let i = 2 * k;
        let x1 = pts[i];
        let y1 = pts[i + 1];
        let x2 = pts[i + 2];
        let y2 = pts[i + 3];
        assert(is_mm(pts@[i as int] as int) && is_mm(pts@[i + 1] as int) && is_mm(pts@[i + 2] as int)
            && is_mm(pts@[i + 3] as int));
        proof {
            lemma_track_bounds_wf(b0, p, k as int);
            assert(p[i as int] == x1 as int && p[i + 1] == y1 as int && p[i + 2] == x2 as int
                && p[i + 3] == y2 as int);
        }
        let ghost tb = track_bounds(b0, p, k as int);
        calculate_footprint_bounds(info, x1, y1);
        assert(info.bounds() == grow(tb, x1 as int, y1 as int));
        calculate_footprint_bounds(info, x2, y2);
        assert(info.bounds() == track_bounds(b0, p, k + 1));
        push_line(&mut out, x1, y1, x2, y2, layer, width);
        k = k + 1;
    }
    assert(k as int == segment_count(n as int));
    Some(string_of(&out))
}

pub open spec fn circle_layer_id(a: Seq<Seq<char>>) -> Seq<char> {
    if a.len() > 4 {
        a[4]
    } else {
        "3"@
    }
}

/// Text of a circle record with arguments `a` (at least four): centre and a point on the rim.
#[verifier::opaque]
pub open spec fn circle_text(a: Seq<Seq<char>>) -> Seq<char> {
    "  (fp_circle (center "@ + mm_text(mm_or(a[0], 0)) + " "@ + mm_text(mm_or(a[1], 0))
        + ") (end "@ + mm_text(mm_or(a[0], 0) + mm_or(a[2], 0)) + " "@ + mm_text(mm_or(a[1], 0))
        + ") (layer "@ + layer_name(circle_layer_id(a)) + ") (width "@ + mm_text(mm_or(a[3], 2000))
        + "))\n"@
}

/// Renders a circle record; a circle on layer `100` decorates a pad and is skipped.
pub fn parse_circle(args: &Vec<String>) -> (r: Option<String>)
    ensures
        args@.len() < 4 || (args@.len() > 4 && args@[4]@ == "100"@) ==> r is None,
        args@.len() >= 4 && !(args@.len() > 4 && args@[4]@ == "100"@) ==> (r matches Some(s)
            && s@ == circle_text(views_of(args@))),
{
    if args.len() < 4 {
        return None;
    }
    let ghost a = views_of(args@);
    let cx = mm_number_or(&args[0], 0);
    let cy = mm_number_or(&args[1], 0);
    let rad = mm_number_or(&args[2], 0);
    let width = mm_number_or(&args[3], 2000);
    let three = String::from_str("3");
    let layer = if args.len() > 4 {
        if is_text(&args[4], "100") {
            return None;
        }
        layer_map(&args[4])
    } else {
        layer_map(&three)
    };
    let mut out = chars_of("  (fp_circle (center ");
    push_fixed(&mut out, cx, 6);
    push_str(&mut out, " ");
    push_fixed(&mut out, cy, 6);
    push_str(&mut out, ") (end ");
    push_fixed(&mut out, cx + rad, 6);
    push_str(&mut out, " ");
    push_fixed(&mut out, cy, 6);
    push_str(&mut out, ") (layer ");
    push_str(&mut out, layer);
    push_str(&mut out, ") (width ");
    push_fixed(&mut out, width, 6);
    push_str(&mut out, "))\n");
    reveal(circle_text);
    assert(out@ =~= circle_text(a));
    Some(string_of(&out))
}

/// An arc record is accepted and draws nothing.
pub fn parse_arc(args: &Vec<String>) -> (r: Option<String>)
    ensures
        args@.len() < 4 ==> r is None,
        args@.len() >= 4 ==> (r matches Some(s) && s@ == Seq::<char>::empty()),
{
    if args.len() < 4 {
        return None;
    }
    Some(String::new())
}

pub open spec fn rect_x2(a: Seq<Seq<char>>) -> int {
    mm_or(a[0], 0) + mm_or(a[2], 0)
}

pub open spec fn rect_y2(a: Seq<Seq<char>>) -> int {
    mm_or(a[1], 0) + mm_or(a[3], 0)
}

/// Text of a rectangle record with arguments `a` (at least eight): a filled
/// rectangle when the stroke width is zero, otherwise its top edge only.
#[verifier::opaque]
pub open spec fn rect_text(a: Seq<Seq<char>>) -> Seq<char> {
    if mm_or(a[7], 2000) == 0 {
        "  (fp_rect (start "@ + mm_text(mm_or(a[0], 0)) + " "@ + mm_text(mm_or(a[1], 0))
            + ") (end "@ + mm_text(rect_x2(a)) + " "@ + mm_text(rect_y2(a)) + ") (layer "@
            + layer_name(a[4]) + "))\n"@
    } else {
        "  (fp_line (start "@ + mm_text(mm_or(a[0], 0)) + " "@ + mm_text(mm_or(a[1], 0))
            + ") (end "@ + mm_text(rect_x2(a)) + " "@ + mm_text(mm_or(a[1], 0)) + ") (layer "@
            + layer_name(a[4]) + ") (width "@ + mm_text(mm_or(a[7], 2000)) + "))\n"@
    }
}

/// Renders a rectangle record and grows the bounding box by both corners.
pub fn parse_rect(args: &Vec<String>, info: &mut FootprintInfo) -> (r: Option<String>)
    requires
        old(info).wf(),
    ensures
        final(info).wf(),
        args@.len() < 8 ==> r is None && *final(info) == *old(info),
        args@.len() >= 8 ==> (r matches Some(s) && s@ == rect_text(views_of(args@))),
        args@.len() >= 8 ==> final(info).bounds() == grow(
            grow(old(info).bounds(), mm_or(args@[0]@, 0), mm_or(args@[1]@, 0)),
            rect_x2(views_of(args@)),
            rect_y2(views_of(args@)),
        ),
        *final(info) == old(info).with_bounds(final(info).bounds()),
{
    if args.len() < 8 {
        return None;
    }
    let ghost a = views_of(args@);
    let x1 = mm_number_or(&args[0], 0);
    let y1 = mm_number_or(&args[1], 0);
    let dx = mm_number_or(&args[2], 0);
    let dy = mm_number_or(&args[3], 0);
    let x2 = x1 + dx;
    let y2 = y1 + dy;
    let layer = layer_map(&args[4]);
    let width = mm_number_or(&args[7], 2000);
    calculate_footprint_bounds(info, x1, y1);
    calculate_footprint_bounds(info, x2, y2);
    let mut out: Vec<char>;
    if width == 0 {
        out = chars_of("  (fp_rect (start ");
        push_fixed(&mut out, x1, 6);
        push_str(&mut out, " ");
        push_fixed(&mut out, y1, 6);
        push_str(&mut out, ") (end ");
        push_fixed(&mut out, x2, 6);
        push_str(&mut out, " ");
        push_fixed(&mut out, y2, 6);
        push_str(&mut out, ") (layer ");
        push_str(&mut out, layer);
        push_str(&mut out, "))\n");
    } else {
        out = chars_of("  (fp_line (start ");
        push_fixed(&mut out, x1, 6);
        push_str(&mut out, " ");
        push_fixed(&mut out, y1, 6);
        push_str(&mut out, ") (end ");
        push_fixed(&mut out, x2, 6);
        push_str(&mut out, " ");
        push_fixed(&mut out, y1, 6);
        push_str(&mut out, ") (layer ");
        push_str(&mut out, layer);
        push_str(&mut out, ") (width ");
        push_fixed(&mut out, width, 6);
        push_str(&mut out, "))\n");
    }
    reveal(rect_text);
    assert(out@ =~= rect_text(a));
    Some(string_of(&out))
}

/// Text of a hole record with arguments `a` (at least three): a non-plated pad
/// whose size and drill are twice the converted radius.
#[verifier::opaque]
pub open spec fn hole_text(a: Seq<Seq<char>>) -> Seq<char> {
    "  (pad \"\" np_thru_hole circle (at "@ + mm_text(mm_or(a[0], 0)) + " "@ + mm_text(
        mm_or(a[1], 0),
    ) + ") (size "@ + mm_text(mm_or(a[2], 0) * 2) + " "@ + mm_text(mm_or(a[2], 0) * 2)
        + ") (drill "@ + mm_text(mm_or(a[2], 0) * 2) + "))\n"@
}

/// Renders a hole record as a non-plated through-hole pad.
pub fn parse_hole(args: &Vec<String>) -> (r: Option<String>)
    ensures
        args@.len() < 3 ==> r is None,
        args@.len() >= 3 ==> (r matches Some(s) && s@ == hole_text(views_of(args@))),
{
    if args.len() < 3 {
        return None;
    }
    let ghost a = views_of(args@);
    let x = mm_number_or(&args[0], 0);
    let y = mm_number_or(&args[1], 0);
    let d = mm_number_or(&args[2], 0) * 2;
    let mut out = chars_of("  (pad \"\" np_thru_hole circle (at ");
    push_fixed(&mut out, x, 6);
    push_str(&mut out, " ");
    push_fixed(&mut out, y, 6);
    push_str(&mut out, ") (size ");
    push_fixed(&mut out, d, 6);
    push_str(&mut out, " ");
    push_fixed(&mut out, d, 6);
    push_str(&mut out, ") (drill ");
    push_fixed(&mut out, d, 6);
    push_str(&mut out, "))\n");
    reveal(hole_text);
    assert(out@ =~= hole_text(a));
    Some(string_of(&out))
}

/// A solid region draws nothing.
pub fn parse_solid_region(args: &Vec<String>) -> (r: Option<String>)
    ensures
        r matches Some(s) && s@ == Seq::<char>::empty(),
{
    Some(String::new())
}

/// Text of a text record with arguments `a` (at least twelve): the twelfth
/// argument as user text at the converted position.
#[verifier::opaque]
pub open spec fn text_text(a: Seq<Seq<char>>) -> Seq<char> {
    "  (fp_text user "@ + a[11] + " (at "@ + mm_text(mm_or(a[1], 0)) + " "@ + mm_text(
        mm_or(a[2], 0),
    ) + ") (layer F.SilkS)\n    (effects (font (size 1 1)))\n  )\n"@
}

/// Renders a text record as user text on the front silkscreen.
pub fn parse_text(args: &Vec<String>) -> (r: Option<String>)
    ensures
        args@.len() < 12 ==> r is None,
        args@.len() >= 12 ==> (r matches Some(s) && s@ == text_text(views_of(args@))),
{
    if args.len() < 12 {
        return None;
    }
    let ghost a = views_of(args@);
    let x = mm_number_or(&args[1], 0);
    let y = mm_number_or(&args[2], 0);
    let mut out = chars_of("  (fp_text user ");
    let t = chars_of(args[11].as_str());
    push_chars(&mut out, &t);
    push_str(&mut out, " (at ");
    push_fixed(&mut out, x, 6);
    push_str(&mut out, " ");
    push_fixed(&mut out, y, 6);
    push_str(&mut out, ") (layer F.SilkS)\n    (effects (font (size 1 1)))\n  )\n");
    reveal(text_text);
    assert(out@ =~= text_text(a));
    Some(string_of(&out))
}

/// The tokens of a shape-language record: its non-empty `~`-separated pieces.
pub fn split_record(line: &str) -> (r: Vec<String>)
    ensures
        views_of(r@) == crate::text::pieces(line@, '~'),
{
    let c = chars_of(line);
    let toks = crate::text::split_nonempty(&c, '~');
    let mut out: Vec<String> = Vec::new();
    let mut i: usize = 0;
    while i < toks.len()
        invariant
            0 <= i <= toks@.len(),
            views_of(out@) == crate::text::views(toks@).take(i as int),
        decreases toks@.len() - i,
    {
        let piece = string_of(&toks[i]);
        let ghost prev = out@;
        out.push(piece);
        assert(views_of(out@) =~= views_of(prev).push(piece@));
        assert(views_of(out@) =~= crate::text::views(toks@).take(i + 1));
        i = i + 1;
    }
    assert(crate::text::views(toks@).take(i as int) =~= crate::text::views(toks@));
    out
}

/// The tokens after the first.
pub fn record_args(toks: &Vec<String>) -> (r: Vec<String>)
    requires
        toks@.len() > 0,
    ensures
        views_of(r@) == views_of(toks@).drop_first(),
{
    let mut out: Vec<String> = Vec::new();
    let mut i: usize = 1;
    while i < toks.len()
        invariant
            1 <= i <= toks@.len(),
            views_of(out@) == views_of(toks@).subrange(1, i as int),
        decreases toks@.len() - i,
    {
        let piece = toks[i].clone();
        let ghost prev = out@;
        out.push(piece);
        assert(views_of(out@) =~= views_of(prev).push(piece@));
        assert(views_of(out@) =~= views_of(toks@).subrange(1, i + 1));
        i = i + 1;
    }
    assert(views_of(toks@).subrange(1, i as int) =~= views_of(toks@).drop_first());
    out
}

/// Text and bounding box of a pad, track or rectangle record with arguments `a`.
pub open spec fn sized_step(b: Bounds, kind: Seq<char>, a: Seq<Seq<char>>) -> (Seq<char>, Bounds) {
    if kind == "PAD"@ {
        if a.len() >= 9 {
            (pad_text(a), grow(b, mm_or(a[1], 0), mm_or(a[2], 0)))
        } else {
            (seq![], b)
        }
    } else if kind == "TRACK"@ {
        let p = track_points(a);
        if a.len() >= 4 && p.len() >= 4 {
            (
                track_text(p, layer_name(a[1]), mm_or(a[0], 2000), segment_count(p.len() as int)),
                track_bounds(b, p, segment_count(p.len() as int)),
            )
        } else {
            (seq![], b)
        }
    } else {
        if a.len() >= 8 {
            (rect_text(a), grow(grow(b, mm_or(a[0], 0), mm_or(a[1], 0)), rect_x2(a), rect_y2(a)))
        } else {
            (seq![], b)
        }
    }
}

/// Text of a record of another kind with arguments `a`; these leave the bounding box alone.
pub open spec fn plain_text(kind: Seq<char>, a: Seq<Seq<char>>) -> Seq<char> {
    if kind == "CIRCLE"@ {
        if a.len() >= 4 && !(a.len() > 4 && a[4] == "100"@) {
            circle_text(a)
        } else {
            seq![]
        }
    } else if kind == "HOLE"@ {
        if a.len() >= 3 {
            hole_text(a)
        } else {
            seq![]
        }
    } else if kind == "TEXT"@ {
        if a.len() >= 12 {
            text_text(a)
        } else {
            seq![]
        }
    } else {
        seq![]
    }
}

pub open spec fn is_sized_kind(kind: Seq<char>) -> bool {
    kind == "PAD"@ || kind == "TRACK"@ || kind == "RECT"@
}

/// Text and bounding box of one footprint record, from the bounding box before it.
pub open spec fn record_step(b: Bounds, line: Seq<char>) -> (Seq<char>, Bounds) {
    let t = crate::text::pieces(line, '~');
    if t.len() == 0 {
        (seq![], b)
    } else if is_sized_kind(t[0]) {
        sized_step(b, t[0], t.drop_first())
    } else {
        (plain_text(t[0], t.drop_first()), b)
    }
}

fn sized_record(kind: &String, args: &Vec<String>, info: &mut FootprintInfo) -> (r: Option<String>)
    requires
        old(info).wf(),
        is_sized_kind(kind@),
    ensures
        final(info).wf(),
        final(info).bounds() == sized_step(old(info).bounds(), kind@, views_of(args@)).1,
        *final(info) == old(info).with_bounds(final(info).bounds()),
        match r {
            Some(s) => s@ == sized_step(old(info).bounds(), kind@, views_of(args@)).0,
            None => sized_step(old(info).bounds(), kind@, views_of(args@)).0 == Seq::<char>::empty(),
        },
{
    if is_text(kind, "PAD") {
        parse_pad(args, info)
    } else if is_text(kind, "TRACK") {
        parse_track(args, info)
    } else {
        parse_rect(args, info)
    }
}

fn plain_record(kind: &String, args: &Vec<String>) -> (r: Option<String>)
    ensures
        match r {
            Some(s) => s@ == plain_text(kind@, views_of(args@)),
            None => plain_text(kind@, views_of(args@)) == Seq::<char>::empty(),
        },
{
    if is_text(kind, "CIRCLE") {
        parse_circle(args)
    } else if is_text(kind, "ARC") {
        proof {
            reveal_strlit("ARC");
            reveal_strlit("CIRCLE");
            reveal_strlit("HOLE");
            reveal_strlit("TEXT");
            assert(kind@.len() == 3);
            assert("CIRCLE"@.len() == 6 && "HOLE"@.len() == 4 && "TEXT"@.len() == 4);
        }
        parse_arc(args)
    } else if is_text(kind, "HOLE") {
        parse_hole(args)
    } else if is_text(kind, "SOLIDREGION") {
        proof {
            reveal_strlit("SOLIDREGION");
            reveal_strlit("CIRCLE");
            reveal_strlit("HOLE");
            reveal_strlit("TEXT");
            assert(kind@.len() == 11);
            assert("CIRCLE"@.len() == 6 && "HOLE"@.len() == 4 && "TEXT"@.len() == 4);
        }
        parse_solid_region(args)
    } else if is_text(kind, "TEXT") {
        parse_text(args)
    } else {
        None
    }
}

/// Text and bounding box of a run of footprint records, in order.
pub open spec fn records(b: Bounds, lines: Seq<Seq<char>>) -> (Seq<char>, Bounds)
    decreases lines.len(),
{
    if lines.len() == 0 {
        (seq![], b)
    } else {
        let prev = records(b, lines.drop_last());
        let st = record_step(prev.1, lines.last());
        (prev.0 + st.0, st.1)
    }
}

/// Renders one record into `out` and grows the bounding box of `info`.
pub fn render_record(line: &String, info: &mut FootprintInfo, out: &mut Vec<char>)
    requires
        old(info).wf(),
    ensures
        final(info).wf(),
        final(info).bounds() == record_step(old(info).bounds(), line@).1,
        *final(info) == old(info).with_bounds(final(info).bounds()),
        final(out)@ == old(out)@ + record_step(old(info).bounds(), line@).0,
{
    let toks = split_record(line.as_str());
    if toks.len() == 0 {
        assert(out@ =~= old(out)@ + Seq::<char>::empty());
        return;
    }
    let args = record_args(&toks);
    let kind = &toks[0];
    let sized = is_text(kind, "PAD") || is_text(kind, "TRACK") || is_text(kind, "RECT");
    let text = if sized {
        sized_record(kind, &args, info)
    } else {
        plain_record(kind, &args)
    };
    match text {
        Some(t) => {
            let c = chars_of(t.as_str());
            push_chars(out, &c);
        },
        None => {
            assert(out@ =~= old(out)@ + Seq::<char>::empty());
        },
    }
}

#[verifier::opaque]
pub open spec fn header_text(name: Seq<char>) -> Seq<char> {
    "(kicad_mod (version 20220214)\n"@ + "  (footprint "@ + name + " (identifier "@ + name
        + ") (user "@ + name + ")\n"@
}

pub open spec fn model_text(model_ref: Option<Seq<char>>) -> Seq<char> {
    match model_ref {
        Some(m) => "  (model "@ + m + " (at (xyz 0 0 0)) (rotate (xyz 0 0 0)))\n"@,
        None => seq![],
    }
}

/// Reference, value and reference-token texts placed from the bounding box:
/// the reference 2 mm above its top edge, the value 2 mm below its bottom edge,
/// the hidden token at its centre; then the closing of the footprint.
#[verifier::opaque]
pub open spec fn trailer_text(name: Seq<char>, b: Bounds) -> Seq<char> {
    let cx = (b.0 + b.1) / 2;
    let cy = (b.2 + b.3) / 2;
    "  (fp_text reference REF** (at "@ + mm_text(cx) + " "@ + mm_text(b.2 - 2000000)
        + ") (layer F.SilkS)\n    (effects (font (size 1 1)))\n  )\n"@ + "  (fp_text value "@
        + name + " (at "@ + mm_text(cx) + " "@ + mm_text(b.3 + 2000000)
        + ") (layer F.Fab)\n    (effects (font (size 1 1)))\n  )\n"@
        + "  (fp_text user ${REFERENCE} (at "@ + mm_text(cx) + " "@ + mm_text(cy)
        + ") (layer F.Fab)\n    (effects (font (size 0.5 0.5)))\n  )\n"@ + "  )\n)\n"@
}

/// The footprint file for records `lines` under `name`, from bounding box `b`.
pub open spec fn footprint_text(
    name: Seq<char>,
    lines: Seq<Seq<char>>,
    b: Bounds,
    model_ref: Option<Seq<char>>,
) -> Seq<char> {
    let body = records(b, lines);
    header_text(name) + body.0 + model_text(model_ref) + trailer_text(name, body.1)
}

fn half(v: i64) -> (r: i64)
    ensures
        r == (v as int) / 2,
{
    if v >= 0 {
        v / 2
    } else {
        let u = -(v as i128);
        let q = (u + 1) / 2;
        (-q) as i64
    }
}

fn push_records(shape: &Vec<String>, info: &mut FootprintInfo, out: &mut Vec<char>)
    requires
        old(info).wf(),
    ensures
        final(info).wf(),
        final(info).bounds() == records(old(info).bounds(), views_of(shape@)).1,
        *final(info) == old(info).with_bounds(final(info).bounds()),
        final(out)@ == old(out)@ + records(old(info).bounds(), views_of(shape@)).0,
{
    let ghost lines = views_of(shape@);
    let ghost b0 = info.bounds();
    let ghost head = out@;
    let mut i: usize = 0;
    assert(head + records(b0, lines.take(0)).0 =~= head);
    while i < shape.len()
        invariant
            0 <= i <= shape@.len(),
            lines == views_of(shape@),
            info.wf(),
            info.bounds() == records(b0, lines.take(i as int)).1,
            *info == old(info).with_bounds(info.bounds()),
            out@ == head + records(b0, lines.take(i as int)).0,
            b0 == old(info).bounds(),
        decreases shape@.len() - i,
    {
        assert(lines.take(i + 1).drop_last() =~= lines.take(i as int));
        assert(lines[i as int] == shape@[i as int]@);
        render_record(&shape[i], info, out);
        assert(out@ =~= head + records(b0, lines.take(i + 1)).0);
        i = i + 1;
    }
    assert(lines.take(i as int) =~= lines);
}

fn push_mm_at(out: &mut Vec<char>, x: i64, y: i64)
    requires
        x > i64::MIN && y > i64::MIN,
    ensures
        final(out)@ == old(out)@ + mm_text(x as int) + " "@ + mm_text(y as int),
{
    push_fixed(out, x, 6);
    push_str(out, " ");
    push_fixed(out, y, 6);
}

fn push_trailer(out: &mut Vec<char>, name: &Vec<char>, info: &FootprintInfo)
    requires
        info.wf(),
    ensures
        final(out)@ == old(out)@ + trailer_text(name@, info.bounds()),
{
    reveal(trailer_text);
    let ghost start = out@;
    let cx = half(info.min_x + info.max_x);
    let cy = half(info.min_y + info.max_y);
    push_str(out, "  (fp_text reference REF** (at ");
    push_mm_at(out, cx, info.min_y - 2000000);
    push_str(out, ") (layer F.SilkS)\n    (effects (font (size 1 1)))\n  )\n");
    push_str(out, "  (fp_text value ");
    push_chars(out, name);
    push_str(out, " (at ");
    push_mm_at(out, cx, info.max_y + 2000000);
    push_str(out, ") (layer F.Fab)\n    (effects (font (size 1 1)))\n  )\n");
    push_str(out, "  (fp_text user ${REFERENCE} (at ");
    push_mm_at(out, cx, cy);
    push_str(out, ") (layer F.Fab)\n    (effects (font (size 0.5 0.5)))\n  )\n");
    push_str(out, "  )\n)\n");
    assert(out@ =~= start + trailer_text(name@, info.bounds()));
}

/// Renders the footprint file of the records `shape` under `info.footprint_name`,
/// with a model reference line when `model_ref` is given, growing the bounding
/// box of `info` by every record.
pub fn render_footprint(info: &mut FootprintInfo, shape: &Vec<String>, model_ref: Option<&str>) -> (r:
    String)
    requires
        old(info).wf(),
    ensures
        final(info).wf(),
        final(info).bounds() == records(old(info).bounds(), views_of(shape@)).1,
        *final(info) == old(info).with_bounds(final(info).bounds()),
        r@ == footprint_text(
            old(info).footprint_name@,
            views_of(shape@),
            old(info).bounds(),
            match model_ref {
                Some(m) => Some(m@),
                None => None,
            },
        ),
{
    reveal(header_text);
    let mut out = chars_of("(kicad_mod (version 20220214)\n");
    push_str(&mut out, "  (footprint ");
    let name = chars_of(info.footprint_name.as_str());
    push_chars(&mut out, &name);
    push_str(&mut out, " (identifier ");
    push_chars(&mut out, &name);
    push_str(&mut out, ") (user ");
    push_chars(&mut out, &name);
    push_str(&mut out, ")\n");
    let ghost head = out@;
    assert(head =~= header_text(old(info).footprint_name@));
    push_records(shape, info, &mut out);
    let ghost body = out@;
    match model_ref {
        Some(m) => {
            push_str(&mut out, "  (model ");
            push_str(&mut out, m);
            push_str(&mut out, " (at (xyz 0 0 0)) (rotate (xyz 0 0 0)))\n");
        },
        None => {},
    }
    let ghost mr = match model_ref {
        Some(m) => Some(m@),
        None => None::<Seq<char>>,
    };
    assert(out@ =~= body + model_text(mr));
    push_trailer(&mut out, &name, info);
    string_of(&out)
}

/// The bounding box grown by the points `pts`, in order.
pub open spec fn grown_by(b: Bounds, pts: Seq<(int, int)>) -> Bounds
    decreases pts.len(),
{
    if pts.len() == 0 {
        b
    } else {
        let p = grown_by(b, pts.drop_last());
        grow(p, pts.last().0, pts.last().1)
    }
}

/// Grown from the sentinels by any sequence of points, the box's minimum x is
/// the least of the sentinel and every x (and likewise for the other three
/// extremes); with no points it keeps the sentinels.
pub proof fn lemma_bounds_are_extremes(pts: Seq<(int, int)>)
    ensures
        pts.len() == 0 ==> grown_by(initial_bounds(), pts) == initial_bounds(),
        forall|i: int|
            0 <= i < pts.len() ==> grown_by(initial_bounds(), pts).0 <= (#[trigger] pts[i]).0
                <= grown_by(initial_bounds(), pts).1 && grown_by(initial_bounds(), pts).2 <= pts[i].1
                <= grown_by(initial_bounds(), pts).3,
        grown_by(initial_bounds(), pts).0 <= BOUNDS_SENTINEL,
        grown_by(initial_bounds(), pts).1 >= -BOUNDS_SENTINEL,
        grown_by(initial_bounds(), pts).2 <= BOUNDS_SENTINEL,
        grown_by(initial_bounds(), pts).3 >= -BOUNDS_SENTINEL,
        grown_by(initial_bounds(), pts).0 == BOUNDS_SENTINEL || exists|i: int|
            0 <= i < pts.len() && grown_by(initial_bounds(), pts).0 == (#[trigger] pts[i]).0,
        grown_by(initial_bounds(), pts).1 == -BOUNDS_SENTINEL || exists|i: int|
            0 <= i < pts.len() && grown_by(initial_bounds(), pts).1 == (#[trigger] pts[i]).0,
        grown_by(initial_bounds(), pts).2 == BOUNDS_SENTINEL || exists|i: int|
            0 <= i < pts.len() && grown_by(initial_bounds(), pts).2 == (#[trigger] pts[i]).1,
        grown_by(initial_bounds(), pts).3 == -BOUNDS_SENTINEL || exists|i: int|
            0 <= i < pts.len() && grown_by(initial_bounds(), pts).3 == (#[trigger] pts[i]).1,
    decreases pts.len(),
{
    if pts.len() > 0 {
        let q = pts.drop_last();
        lemma_bounds_are_extremes(q);
        let r = grown_by(initial_bounds(), pts);
        let last = pts.len() - 1;
        assert forall|i: int| 0 <= i < pts.len() implies r.0 <= (#[trigger] pts[i]).0 <= r.1 && r.2
            <= pts[i].1 <= r.3 by {
            if i < last {
                assert(pts[i] == q[i]);
            }
        }
        if r.0 != BOUNDS_SENTINEL && r.0 != pts[last].0 {
            let i = choose|i: int| 0 <= i < q.len() && grown_by(initial_bounds(), q).0 == (#[trigger] q[i]).0;
            assert(pts[i] == q[i]);
        }
        if r.1 != -BOUNDS_SENTINEL && r.1 != pts[last].0 {
            let i = choose|i: int| 0 <= i < q.len() && grown_by(initial_bounds(), q).1 == (#[trigger] q[i]).0;
            assert(pts[i] == q[i]);
        }
        if r.2 != BOUNDS_SENTINEL && r.2 != pts[last].1 {
            let i = choose|i: int| 0 <= i < q.len() && grown_by(initial_bounds(), q).2 == (#[trigger] q[i]).1;
            assert(pts[i] == q[i]);
        }
        if r.3 != -BOUNDS_SENTINEL && r.3 != pts[last].1 {
            let i = choose|i: int| 0 <= i < q.len() && grown_by(initial_bounds(), q).3 == (#[trigger] q[i]).1;
            assert(pts[i] == q[i]);
        }
    }
}

} // verus!
