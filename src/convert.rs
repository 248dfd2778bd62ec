//! Footprints and symbols generated from an offline bundle, and the decisions
//! around a conversion run.
use vstd::prelude::*;

use crate::bundle::{get_by_uuid, opt_view, uuid_lookup, OfflineBundle, OfflineDevice};
use crate::chars::{chars_of, push_str, string_of};
use crate::error::JlcError;
use crate::footprint::{footprint_text, render_footprint, views_of, FootprintInfo};
use crate::ident::{sanitize_footprint_name, sanitized_name};
use crate::json::{field, get, get_str, parse_json, parsed_json, Json};
use crate::num::{decimal_value, parse_decimal, MAX_MAGNITUDE};
use crate::symbol::{escaped_name, render_symbol_entry, symbol_component_name, symbol_entry_text, SymbolProperties};
use crate::text::{pieces, split_nonempty, trim, trim_chars, views};

verus! {

/// The strings among the items of a `shape` array, in order.
pub open spec fn shape_strings(items: Seq<Json>) -> Seq<Seq<char>>
    decreases items.len(),
{
    if items.len() == 0 {
        seq![]
    } else {
        let p = shape_strings(items.drop_last());
        match items.last() {
            Json::Str(s) => p.push(s@),
            _ => p,
        }
    }
}

pub open spec fn shape_field(v: Json) -> Seq<Seq<char>> {
    match field(v, "shape"@) {
        Some(Json::Array(a)) => shape_strings(a@),
        _ => seq![],
    }
}

/// A coordinate of the `head` of a data string: a JSON number, else zero.
pub open spec fn head_coord(v: Json, key: Seq<char>) -> int {
    match field(v, "head"@) {
        Some(h) => match field(h, key) {
            Some(Json::Number(n)) => match decimal_value(n@) {
                Some(x) => x,
                None => 0,
            },
            _ => 0,
        },
        None => 0,
    }
}

/// The trimmed lines of `lines` that are not empty and hold a `~`.
pub open spec fn record_lines(lines: Seq<Seq<char>>) -> Seq<Seq<char>>
    decreases lines.len(),
{
    if lines.len() == 0 {
        seq![]
    } else {
        let p = record_lines(lines.drop_last());
        let t = trim(lines.last());
        if t.len() > 0 && t.contains('~') {
            p.push(t)
        } else {
            p
        }
    }
}

/// Shape records and origin of a geometry payload: the `shape` strings and
/// `head` coordinates of a JSON data string with a non-empty shape, else the
/// lines holding `~` at the origin; none when there are neither.
pub open spec fn local_data(ds: Seq<char>) -> Option<(Seq<Seq<char>>, int, int)> {
    let from_json = match parsed_json(ds) {
        Some(v) => if shape_field(v).len() > 0 {
            Some((shape_field(v), head_coord(v, "x"@), head_coord(v, "y"@)))
        } else {
            None
        },
        None => None,
    };
    if from_json is Some {
        from_json
    } else {
        let l = record_lines(pieces(ds, '\n'));
        if l.len() > 0 {
            Some((l, 0, 0))
        } else {
            None
        }
    }
}

fn shape_of(v: &Json) -> (r: Vec<String>)
    ensures
        views_of(r@) == shape_field(*v),
{
    let mut out: Vec<String> = Vec::new();
    match get(v, "shape") {
        Some(Json::Array(items)) => {
            let mut i: usize = 0;
            while i < items.len()
                invariant
                    0 <= i <= items@.len(),
                    field(*v, "shape"@) == Some(Json::Array(*items)),
                    views_of(out@) == shape_strings(items@.take(i as int)),
                decreases items@.len() - i,
            {
                assert(items@.take(i + 1).drop_last() =~= items@.take(i as int));
                match &items[i] {
                    Json::Str(s) => {
                        let ghost prev = out@;
                        out.push(s.clone());
                        assert(views_of(out@) =~= views_of(prev).push(s@));
                    },
                    _ => {},
                }
                i = i + 1;
            }
            assert(items@.take(i as int) =~= items@);
        },
        _ => {
            assert(views_of(out@) =~= Seq::<Seq<char>>::empty());
        },
    }
    out
}

fn head_coord_of(v: &Json, key: &str) -> (r: i64)
    ensures
        r == head_coord(*v, key@),
        -MAX_MAGNITUDE <= r <= MAX_MAGNITUDE,
{
    match get(v, "head") {
        Some(h) => match get(h, key) {
            Some(Json::Number(n)) => {
                let c = chars_of(n.as_str());
                match parse_decimal(&c) {
                    Some(x) => x,
                    None => 0,
                }
            },
            _ => 0,
        },
        None => 0,
    }
}

fn contains_tilde(s: &Vec<char>) -> (r: bool)
    ensures
        r == s@.contains('~'),
{
    let mut i: usize = 0;
    while i < s.len()
        invariant
            0 <= i <= s@.len(),
            forall|j: int| 0 <= j < i ==> s@[j] != '~',
        decreases s@.len() - i,
    {
        if s[i] == '~' {
            assert(s@[i as int] == '~');
            return true;
        }
        i = i + 1;
    }
    false
}

/// Reads the shape records and origin of a geometry payload (see `local_data`).
pub fn parse_local_data_str(ds: &str) -> (r: Option<(Vec<String>, i64, i64)>)
    ensures
        match local_data(ds@) {
            Some(d) => r matches Some(x) && views_of(x.0@) == d.0 && x.1 == d.1 && x.2 == d.2,
            None => r is None,
        },
        r matches Some(x) ==> -MAX_MAGNITUDE <= x.1 <= MAX_MAGNITUDE && -MAX_MAGNITUDE <= x.2 <= MAX_MAGNITUDE,
{
    match parse_json(ds) {
        Some(v) => {
            let shape = shape_of(&v);
            if shape.len() > 0 {
                let x = head_coord_of(&v, "x");
                let y = head_coord_of(&v, "y");
                return Some((shape, x, y));
            }
        },
        None => {},
    }
    let c = chars_of(ds);
    let raw = split_nonempty(&c, '\n');
    let ghost rv = views(raw@);
    let mut lines: Vec<String> = Vec::new();
    let mut i: usize = 0;
    while i < raw.len()
        invariant
            0 <= i <= raw@.len(),
            rv == views(raw@),
            views_of(lines@) == record_lines(rv.take(i as int)),
        decreases raw@.len() - i,
    {
        assert(rv.take(i + 1).drop_last() =~= rv.take(i as int));
        assert(rv[i as int] == raw@[i as int]@);
        let t = trim_chars(&raw[i]);
        if t.len() > 0 && contains_tilde(&t) {
            let ts = string_of(&t);
            let ghost prev = lines@;
            lines.push(ts);
            assert(views_of(lines@) =~= views_of(prev).push(ts@));
        }
        i = i + 1;
    }
    assert(rv.take(i as int) =~= rv);
    if lines.len() == 0 {
        return None;
    }
    Some((lines, 0, 0))
}

/// The reference prefix in a symbol's data string: `head.c_para.pre` without
/// `?`, or `U` when that is missing or empty.
pub open spec fn prefix_in(ds: Seq<char>) -> Seq<char> {
    let pre = match parsed_json(ds) {
        Some(v) => crate::bundle::symbol_pre(v),
        None => None,
    };
    match pre {
        Some(p) => if p.filter(|c: char| c != '?').len() > 0 {
            p.filter(|c: char| c != '?')
        } else {
            "U"@
        },
        None => "U"@,
    }
}

fn without_question_marks(s: &String) -> (r: Vec<char>)
    ensures
        r@ == s@.filter(|c: char| c != '?'),
{
    let c = chars_of(s.as_str());
    let mut out: Vec<char> = Vec::new();
    let mut i: usize = 0;
    while i < c.len()
        invariant
            0 <= i <= c@.len(),
            c@ == s@,
            out@ == c@.take(i as int).filter(|c: char| c != '?'),
        decreases c@.len() - i,
    {
        proof {
            assert(c@.take(i + 1).drop_last() =~= c@.take(i as int));
            reveal(Seq::filter);
        }
        if c[i] != '?' {
            out.push(c[i]);
        }
        assert(out@ =~= c@.take(i + 1).filter(|c: char| c != '?'));
        i = i + 1;
    }
    assert(c@.take(i as int) =~= c@);
    out
}

/// The reference prefix of a symbol's data string (see `prefix_in`).
pub fn symbol_prefix_from_ds(ds: &str) -> (r: String)
    ensures
        r@ == prefix_in(ds@),
{
    let pre: Option<String> = match parse_json(ds) {
        Some(v) => match get(&v, "head") {
            Some(h) => match get(h, "c_para") {
                Some(c) => match get_str(c, "pre") {
                    Some(p) => Some(p.clone()),
                    None => None,
                },
                None => None,
            },
            None => None,
        },
        None => None,
    };
    match pre {
        Some(p) => {
            let f = without_question_marks(&p);
            if f.len() > 0 {
                string_of(&f)
            } else {
                String::from_str("U")
            }
        },
        None => String::from_str("U"),
    }
}

/// Name of the footprint of a device: the sanitized hint when it is not blank,
/// else the sanitized device name.
pub open spec fn offline_footprint_name(device: OfflineDevice, hint: Option<Seq<char>>) -> Seq<char> {
    match hint {
        Some(h) => if trim(h).len() > 0 {
            sanitized_name(h)
        } else {
            sanitized_name(device.name@)
        },
        None => sanitized_name(device.name@),
    }
}

/// Renders the footprint of a device from its geometry payload: its name and
/// the footprint file text, with a model reference line when `model_ref` is
/// given. Fails when the payload holds no shape records.
pub fn create_footprint_from_offline(
    device: &OfflineDevice,
    footprint_name_hint: Option<&str>,
    footprint_ds: &str,
    model_ref: Option<&str>,
) -> (r: Result<(String, String), JlcError>)
    ensures
        local_data(footprint_ds@) is None ==> r is Err,
        local_data(footprint_ds@) matches Some(d) ==> (r matches Ok(x) && x.0@ == offline_footprint_name(
            *device,
            match footprint_name_hint {
                Some(h) => Some(h@),
                None => None,
            },
        ) && x.1@ == footprint_text(
            x.0@,
            d.0,
            crate::footprint::initial_bounds(),
            match model_ref {
                Some(m) => Some(m@),
                None => None,
            },
        )),
{
    let (shape, _origin_x, _origin_y) = match parse_local_data_str(footprint_ds) {
        Some(d) => d,
        None => {
            return Err(JlcError::ParseError(String::from_str("cannot parse the local footprint data")));
        },
    };
    let name = match footprint_name_hint {
        Some(h) => {
            let hc = chars_of(h);
            let ht = trim_chars(&hc);
            if ht.len() > 0 {
                sanitize_footprint_name(h)
            } else {
                sanitize_footprint_name(device.name.as_str())
            }
        },
        None => sanitize_footprint_name(device.name.as_str()),
    };
    let mut info = FootprintInfo::new();
    info.footprint_name = name.clone();
    let text = render_footprint(&mut info, &shape, model_ref);
    Ok((name, text))
}

/// Name of the `i`-th symbol of a device: the escaped title and the device
/// identifier, and the index after the first.
pub open spec fn offline_symbol_name(title: Seq<char>, id: Seq<char>, i: int) -> Seq<char> {
    escaped_name(title) + "_"@ + id + (if i == 0 {
        seq![]
    } else {
        "_"@ + crate::num::int_text(i)
    })
}

/// The symbol entry of the `i`-th symbol UUID of a device, when the bundle
/// has shape records for it.
pub open spec fn offline_symbol_entry(d: OfflineDevice, b: OfflineBundle, i: int) -> Option<Seq<char>> {
    let uuid = d.symbol_uuids@[i]@;
    match uuid_lookup(b.symbol_data.entries@, uuid) {
        None => None,
        Some(ds) => match local_data(ds) {
            None => None,
            Some(sd) => {
                let title = match crate::table::lookup(b.symbol_titles.entries@, uuid) {
                    Some(t) => t@,
                    None => d.name@,
                };
                let prefix = match crate::table::lookup(b.symbol_prefix.entries@, uuid) {
                    Some(p) => p@,
                    None => prefix_in(ds),
                };
                Some(
                    symbol_entry_text(
                        (offline_symbol_name(title, d.id@, i), prefix, title, None, None, None, d.id@),
                        sd.0,
                        sd.1,
                        sd.2,
                    ),
                )
            },
        },
    }
}

/// The symbol entries of the first `n` symbol UUIDs of a device.
pub open spec fn device_symbol_entries(d: OfflineDevice, b: OfflineBundle, n: int) -> Seq<Seq<char>>
    decreases n,
{
    if n <= 0 {
        seq![]
    } else {
        let p = device_symbol_entries(d, b, n - 1);
        match offline_symbol_entry(d, b, n - 1) {
            Some(e) => p.push(e),
            None => p,
        }
    }
}

/// The symbol entries of the devices, in order.
pub open spec fn offline_symbol_entries(ds: Seq<OfflineDevice>, b: OfflineBundle) -> Seq<Seq<char>>
    decreases ds.len(),
{
    if ds.len() == 0 {
        seq![]
    } else {
        offline_symbol_entries(ds.drop_last(), b) + device_symbol_entries(
            ds.last(),
            b,
            ds.last().symbol_uuids@.len() as int,
        )
    }
}

fn offline_symbol_entry_of(d: &OfflineDevice, b: &OfflineBundle, i: usize) -> (r: Option<String>)
    requires
        i < d.symbol_uuids@.len(),
    ensures
        opt_view(r) == offline_symbol_entry(*d, *b, i as int),
{
    let uuid = &d.symbol_uuids[i];
    let ds = match get_by_uuid(&b.symbol_data, uuid.as_str()) {
        Some(ds) => ds,
        None => {
            return None;
        },
    };
    let (shape, ox, oy) = match parse_local_data_str(ds.as_str()) {
        Some(x) => x,
        None => {
            return None;
        },
    };
    let title: String = match b.symbol_titles.get(uuid.as_str()) {
        Some(t) => t.clone(),
        None => d.name.clone(),
    };
    let prefix: String = match b.symbol_prefix.get(uuid.as_str()) {
        Some(p) => p.clone(),
        None => symbol_prefix_from_ds(ds.as_str()),
    };
    let comp = symbol_component_name(title.as_str());
    let mut name = chars_of(comp.as_str());
    push_str(&mut name, "_");
    push_str(&mut name, d.id.as_str());
    if i > 0 {
        push_str(&mut name, "_");
        crate::num::push_count(&mut name, i);
    }
    assert(name@ =~= offline_symbol_name(title@, d.id@, i as int));
    let props = SymbolProperties {
        name: string_of(&name),
        reference: prefix,
        value: title,
        footprint: None,
        datasheet: None,
        keywords: None,
        lcsc: d.id.clone(),
    };
    Some(render_symbol_entry(&props, &shape, ox, oy))
}

/// Renders the symbol library of the devices from the bundle's symbol data,
/// with the number of symbols written.
pub fn create_symbols_from_offline(devices: &Vec<OfflineDevice>, bundle: &OfflineBundle) -> (r: (String, usize))
    ensures
        r.0@ == crate::symbol::library_text(offline_symbol_entries(devices@, *bundle)),
        r.1 == offline_symbol_entries(devices@, *bundle).len(),
{
    let mut entries: Vec<String> = Vec::new();
    let mut k: usize = 0;
    while k < devices.len()
        invariant
            0 <= k <= devices@.len(),
            views_of(entries@) == offline_symbol_entries(devices@.take(k as int), *bundle),
        decreases devices@.len() - k,
    {
        assert(devices@.take(k + 1).drop_last() =~= devices@.take(k as int));
        assert(devices@.take(k + 1).last() == devices@[k as int]);
        let d = &devices[k];
        let ghost base = views_of(entries@);
        let mut i: usize = 0;
        while i < d.symbol_uuids.len()
            invariant
                0 <= i <= d.symbol_uuids@.len(),
                views_of(entries@) == base + device_symbol_entries(*d, *bundle, i as int),
            decreases d.symbol_uuids@.len() - i,
        {
            match offline_symbol_entry_of(d, bundle, i) {
                Some(e) => {
                    let ghost prev = entries@;
                    entries.push(e);
                    assert(views_of(entries@) =~= views_of(prev).push(e@));
                },
                None => {},
            }
            assert(views_of(entries@) =~= base + device_symbol_entries(*d, *bundle, i + 1));
            i = i + 1;
        }
        k = k + 1;
    }
    assert(devices@.take(k as int) =~= devices@);
    let n = entries.len();
    (crate::symbol::render_symbol_library(&entries), n)
}

} // verus!
