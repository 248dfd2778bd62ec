//! Metadata heuristics over component records whose layout varies by source.
use vstd::prelude::*;

use crate::chars::{chars_of, string_of};
use crate::ident::{normalize_component_token, normalized_id, uuidish, looks_like_uuidish};
use crate::json::{
    field, first_non_empty_str, first_str, get, get_str, json_text_of, json_to_string, key_views,
    str_field, Json,
};
use crate::text::{trim, trim_chars};
use crate::footprint::views_of;

verus! {

pub open spec fn package_keys() -> Seq<Seq<char>> {
    seq![
        "package_title"@,
        "packageTitle"@,
        "package_name"@,
        "packageName"@,
        "package"@,
        "footprint_title"@,
        "footprintTitle"@,
        "footprint_name"@,
        "footprintName"@,
    ]
}

fn package_keys_vec() -> (r: Vec<&'static str>)
    ensures
        key_views(r@) == package_keys(),
{
    let r = vec![
        "package_title",
        "packageTitle",
        "package_name",
        "packageName",
        "package",
        "footprint_title",
        "footprintTitle",
        "footprint_name",
        "footprintName",
    ];
    assert(key_views(r@) =~= package_keys());
    r
}

pub open spec fn holder_keys() -> Seq<Seq<char>> {
    seq!["footprint"@, "package"@, "packageDetail"@, "pkg"@]
}

fn holder_keys_vec() -> (r: Vec<&'static str>)
    ensures
        key_views(r@) == holder_keys(),
{
    let r = vec!["footprint", "package", "packageDetail", "pkg"];
    assert(key_views(r@) =~= holder_keys());
    r
}

pub open spec fn holder_title_keys() -> Seq<Seq<char>> {
    seq!["display_title"@, "displayTitle"@, "title"@, "name"@, "package_name"@, "footprint_name"@]
}

fn holder_title_keys_vec() -> (r: Vec<&'static str>)
    ensures
        key_views(r@) == holder_title_keys(),
{
    let r = vec!["display_title", "displayTitle", "title", "name", "package_name", "footprint_name"];
    assert(key_views(r@) =~= holder_title_keys());
    r
}

pub open spec fn attr_package_keys() -> Seq<Seq<char>> {
    seq!["Footprint Title"@, "Supplier Footprint"@, "Package Name"@, "Package"@, "Device Package"@, "封装名称"@, "封装"@, "Footprint"@]
}

fn attr_package_keys_vec() -> (r: Vec<&'static str>)
    ensures
        key_views(r@) == attr_package_keys(),
{
    let r = vec!["Footprint Title", "Supplier Footprint", "Package Name", "Package", "Device Package", "封装名称", "封装", "Footprint"];
    assert(key_views(r@) =~= attr_package_keys());
    r
}

pub open spec fn attr_footprint_title_keys() -> Seq<Seq<char>> {
    seq!["display_title"@, "title"@, "name"@, "package_name"@, "footprint_name"@]
}

fn attr_footprint_title_keys_vec() -> (r: Vec<&'static str>)
    ensures
        key_views(r@) == attr_footprint_title_keys(),
{
    let r = vec!["display_title", "title", "name", "package_name", "footprint_name"];
    assert(key_views(r@) =~= attr_footprint_title_keys());
    r
}

pub open spec fn manufacturer_keys() -> Seq<Seq<char>> {
    seq!["manufacturer"@, "Manufacturer"@, "brand"@, "Brand"@, "mfr"@, "vendor"@, "supplier"@, "制造商"@, "品牌"@]
}

fn manufacturer_keys_vec() -> (r: Vec<&'static str>)
    ensures
        key_views(r@) == manufacturer_keys(),
{
    let r = vec!["manufacturer", "Manufacturer", "brand", "Brand", "mfr", "vendor", "supplier", "制造商", "品牌"];
    assert(key_views(r@) =~= manufacturer_keys());
    r
}

pub open spec fn attr_manufacturer_keys() -> Seq<Seq<char>> {
    seq!["Manufacturer"@, "Brand"@, "Supplier"@, "Vendor"@, "制造商"@, "品牌"@]
}

fn attr_manufacturer_keys_vec() -> (r: Vec<&'static str>)
    ensures
        key_views(r@) == attr_manufacturer_keys(),
{
    let r = vec!["Manufacturer", "Brand", "Supplier", "Vendor", "制造商", "品牌"];
    assert(key_views(r@) =~= attr_manufacturer_keys());
    r
}

pub open spec fn desc_keys() -> Seq<Seq<char>> {
    seq!["description"@, "Description"@, "comment"@, "Comment"@, "product_name"@, "display_title"@, "title"@, "描述"@]
}

fn desc_keys_vec() -> (r: Vec<&'static str>)
    ensures
        key_views(r@) == desc_keys(),
{
    let r = vec!["description", "Description", "comment", "Comment", "product_name", "display_title", "title", "描述"];
    assert(key_views(r@) =~= desc_keys());
    r
}

pub open spec fn attr_desc_keys() -> Seq<Seq<char>> {
    seq!["Description"@, "Comment"@, "Value"@, "描述"@, "备注"@]
}

fn attr_desc_keys_vec() -> (r: Vec<&'static str>)
    ensures
        key_views(r@) == attr_desc_keys(),
{
    let r = vec!["Description", "Comment", "Value", "描述", "备注"];
    assert(key_views(r@) =~= attr_desc_keys());
    r
}

pub open spec fn code_keys() -> Seq<Seq<char>> {
    seq!["product_code"@, "productCode"@, "code"@, "lcsc"@, "partNumber"@, "part_number"@]
}

fn code_keys_vec() -> (r: Vec<&'static str>)
    ensures
        key_views(r@) == code_keys(),
{
    let r = vec!["product_code", "productCode", "code", "lcsc", "partNumber", "part_number"];
    assert(key_views(r@) =~= code_keys());
    r
}

pub open spec fn attr_code_keys() -> Seq<Seq<char>> {
    seq!["product_code"@, "Product Code"@, "LCSC"@, "LCSC Part"@, "LCSC Part #"@, "Part Number"@, "Code"@]
}

fn attr_code_keys_vec() -> (r: Vec<&'static str>)
    ensures
        key_views(r@) == attr_code_keys(),
{
    let r = vec!["product_code", "Product Code", "LCSC", "LCSC Part", "LCSC Part #", "Part Number", "Code"];
    assert(key_views(r@) =~= attr_code_keys());
    r
}

pub open spec fn id_keys() -> Seq<Seq<char>> {
    seq!["id"@, "uuid"@]
}

fn id_keys_vec() -> (r: Vec<&'static str>)
    ensures
        key_views(r@) == id_keys(),
{
    let r = vec!["id", "uuid"];
    assert(key_views(r@) =~= id_keys());
    r
}

pub open spec fn attr_id_keys() -> Seq<Seq<char>> {
    seq!["uuid"@]
}

fn attr_id_keys_vec() -> (r: Vec<&'static str>)
    ensures
        key_views(r@) == attr_id_keys(),
{
    let r = vec!["uuid"];
    assert(key_views(r@) =~= attr_id_keys());
    r
}

/// The first of `keys` whose field is a non-blank string that does not look
/// like a UUID, trimmed.
pub open spec fn first_readable(j: Json, keys: Seq<Seq<char>>) -> Option<Seq<char>>
    decreases keys.len(),
{
    if keys.len() == 0 {
        None
    } else {
        match str_field(j, keys[0]) {
            Some(s) => if trim(s).len() > 0 && !uuidish(trim(s)) {
                Some(trim(s))
            } else {
                first_readable(j, keys.drop_first())
            },
            None => first_readable(j, keys.drop_first()),
        }
    }
}

/// A readable title held by the nested value `v`: a string itself, or the
/// first title field of an object.
pub open spec fn holder_title(v: Json) -> Option<Seq<char>> {
    match v {
        Json::Str(s) => if trim(s@).len() > 0 && !uuidish(trim(s@)) {
            Some(trim(s@))
        } else {
            None
        },
        Json::Object(_) => match first_str(v, holder_title_keys()) {
            Some(t) => if !uuidish(t) {
                Some(t)
            } else {
                None
            },
            None => None,
        },
        _ => None,
    }
}

/// The first of `keys` whose nested value holds a readable title.
pub open spec fn nested_package(j: Json, keys: Seq<Seq<char>>) -> Option<Seq<char>>
    decreases keys.len(),
{
    if keys.len() == 0 {
        None
    } else {
        match field(j, keys[0]) {
            Some(v) => match holder_title(v) {
                Some(t) => Some(t),
                None => nested_package(j, keys.drop_first()),
            },
            None => nested_package(j, keys.drop_first()),
        }
    }
}

/// The package named under `attributes`: a readable attribute, else a readable
/// title of its `footprint` object.
pub open spec fn attribute_package(attrs: Json) -> Option<Seq<char>> {
    match first_readable(attrs, attr_package_keys()) {
        Some(p) => Some(p),
        None => match field(attrs, "footprint"@) {
            Some(fp) => match first_str(fp, attr_footprint_title_keys()) {
                Some(t) => if !uuidish(t) {
                    Some(t)
                } else {
                    None
                },
                None => None,
            },
            None => None,
        },
    }
}

/// Package name of a record: direct fields, then nested holders, then attributes;
/// the first non-empty candidate that does not look like a UUID.
pub open spec fn package_name(v: Json) -> Option<Seq<char>> {
    match first_readable(v, package_keys()) {
        Some(p) => Some(p),
        None => match nested_package(v, holder_keys()) {
            Some(p) => Some(p),
            None => match field(v, "attributes"@) {
                Some(attrs) => attribute_package(attrs),
                None => None,
            },
        },
    }
}

/// Manufacturer of a record: direct fields, then attributes.
pub open spec fn manufacturer_name(v: Json) -> Option<Seq<char>> {
    match first_str(v, manufacturer_keys()) {
        Some(m) => Some(m),
        None => match field(v, "attributes"@) {
            Some(attrs) => first_str(attrs, attr_manufacturer_keys()),
            None => None,
        },
    }
}

/// Brief description of a record: direct fields, then attributes.
pub open spec fn brief_desc(v: Json) -> Option<Seq<char>> {
    match first_str(v, desc_keys()) {
        Some(m) => Some(m),
        None => match field(v, "attributes"@) {
            Some(attrs) => first_str(attrs, attr_desc_keys()),
            None => None,
        },
    }
}

pub open spec fn opt_eq(r: Option<String>, s: Option<Seq<char>>) -> bool {
    match s {
        Some(t) => r matches Some(x) && x@ == t,
        None => r is None,
    }
}

/// The first of `keys` whose field is a non-blank string that does not look like a UUID, trimmed.
pub fn first_readable_package(value: &Json, keys: &Vec<&str>) -> (r: Option<String>)
    ensures
        opt_eq(r, first_readable(*value, key_views(keys@))),
{
    let ghost kv = key_views(keys@);
    let mut i: usize = 0;
    assert(kv.skip(0) =~= kv);
    while i < keys.len()
        invariant
            0 <= i <= keys@.len(),
            kv == key_views(keys@),
            first_readable(*value, kv) == first_readable(*value, kv.skip(i as int)),
        decreases keys@.len() - i,
    {
        assert(kv.skip(i as int).drop_first() =~= kv.skip(i + 1));
        assert(kv.skip(i as int)[0] == keys@[i as int]@);
        match get_str(value, keys[i]) {
            Some(s) => {
                let c = chars_of(s.as_str());
                let t = trim_chars(&c);
                if t.len() > 0 {
                    let ts = string_of(&t);
                    if !looks_like_uuidish(ts.as_str()) {
                        return Some(ts);
                    }
                }
            },
            None => {},
        }
        i = i + 1;
    }
    assert(kv.skip(i as int).len() == 0);
    None
}

fn holder_title_of(v: &Json) -> (r: Option<String>)
    ensures
        opt_eq(r, holder_title(*v)),
{
    match v {
        Json::Str(s) => {
            let c = chars_of(s.as_str());
            let t = trim_chars(&c);
            if t.len() > 0 {
                let ts = string_of(&t);
                if !looks_like_uuidish(ts.as_str()) {
                    return Some(ts);
                }
            }
            None
        },
        Json::Object(_) => {
            let keys = holder_title_keys_vec();
            match first_non_empty_str(v, &keys) {
                Some(t) => if !looks_like_uuidish(t.as_str()) {
                    Some(t)
                } else {
                    None
                },
                None => None,
            }
        },
        _ => None,
    }
}

fn nested_package_of(value: &Json) -> (r: Option<String>)
    ensures
        opt_eq(r, nested_package(*value, holder_keys())),
{
    let keys = holder_keys_vec();
    let ghost kv = key_views(keys@);
    let mut i: usize = 0;
    assert(kv.skip(0) =~= kv);
    while i < keys.len()
        invariant
            0 <= i <= keys@.len(),
            kv == key_views(keys@),
            kv == holder_keys(),
            nested_package(*value, kv) == nested_package(*value, kv.skip(i as int)),
        decreases keys@.len() - i,
    {
        assert(kv.skip(i as int).drop_first() =~= kv.skip(i + 1));
        assert(kv.skip(i as int)[0] == keys@[i as int]@);
        match get(value, keys[i]) {
            Some(v) => {
                match holder_title_of(v) {
                    Some(t) => {
                        return Some(t);
                    },
                    None => {},
                }
            },
            None => {},
        }
        i = i + 1;
    }
    assert(kv.skip(i as int).len() == 0);
    None
}

fn attribute_package_of(attrs: &Json) -> (r: Option<String>)
    ensures
        opt_eq(r, attribute_package(*attrs)),
{
    let keys = attr_package_keys_vec();
    match first_readable_package(attrs, &keys) {
        Some(p) => {
            return Some(p);
        },
        None => {},
    }
    match get(attrs, "footprint") {
        Some(fp) => {
            let tk = attr_footprint_title_keys_vec();
            match first_non_empty_str(fp, &tk) {
                Some(t) => if !looks_like_uuidish(t.as_str()) {
                    Some(t)
                } else {
                    None
                },
                None => None,
            }
        },
        None => None,
    }
}

/// Package or footprint display name of a record (see `package_name`).
pub fn extract_package_name(value: &Json) -> (r: Option<String>)
    ensures
        opt_eq(r, package_name(*value)),
{
    let keys = package_keys_vec();
    match first_readable_package(value, &keys) {
        Some(p) => {
            return Some(p);
        },
        None => {},
    }
    match nested_package_of(value) {
        Some(p) => {
            return Some(p);
        },
        None => {},
    }
    match get(value, "attributes") {
        Some(attrs) => attribute_package_of(attrs),
        None => None,
    }
}

/// Manufacturer of a record (see `manufacturer_name`).
pub fn extract_manufacturer_name(value: &Json) -> (r: Option<String>)
    ensures
        opt_eq(r, manufacturer_name(*value)),
{
    let keys = manufacturer_keys_vec();
    match first_non_empty_str(value, &keys) {
        Some(m) => {
            return Some(m);
        },
        None => {},
    }
    match get(value, "attributes") {
        Some(attrs) => {
            let ak = attr_manufacturer_keys_vec();
            first_non_empty_str(attrs, &ak)
        },
        None => None,
    }
}

/// Brief description of a record (see `brief_desc`).
pub fn extract_brief_desc(value: &Json) -> (r: Option<String>)
    ensures
        opt_eq(r, brief_desc(*value)),
{
    let keys = desc_keys_vec();
    match first_non_empty_str(value, &keys) {
        Some(m) => {
            return Some(m);
        },
        None => {},
    }
    match get(value, "attributes") {
        Some(attrs) => {
            let ak = attr_desc_keys_vec();
            first_non_empty_str(attrs, &ak)
        },
        None => None,
    }
}

/// The texts of the matches of the vendor-code pattern `\bC\d{3,}\b` in `text`, left to right.
pub uninterp spec fn code_matches(text: Seq<char>) -> Seq<Seq<char>>;

/// Relies on regex's `Regex::find_iter` with the pattern `\bC\d{3,}\b`: the
/// matched texts, left to right.
#[verifier::external_body]
fn find_codes(text: &str) -> (r: Vec<String>)
    ensures
        views_of(r@) == code_matches(text@),
{
    match regex::Regex::new(r"\bC\d{3,}\b") {
        Ok(re) => re.find_iter(text).map(|m| m.as_str().to_string()).collect(),
        Err(_) => Vec::new(),
    }
}

pub open spec fn starts_with_c(v: Seq<char>) -> bool {
    v.len() > 0 && (v[0] == 'c' || v[0] == 'C')
}

/// The `attributes` object of a record, or the record itself when it has none.
pub open spec fn record_attrs(device: Json) -> Json {
    match field(device, "attributes"@) {
        Some(a) => a,
        None => device,
    }
}

pub open spec fn direct_code(device: Json) -> Option<Seq<char>> {
    match first_str(device, code_keys()) {
        Some(s) => Some(s),
        None => first_str(record_attrs(device), attr_code_keys()),
    }
}

pub open spec fn normalized_opt(s: Option<Seq<char>>) -> Option<Seq<char>> {
    match s {
        Some(t) => normalized_id(t),
        None => None,
    }
}

/// The identifier by which a device record is known locally: a vendor code
/// from an explicit code field; else the first vendor code in the record's
/// JSON text, normalized; else its normalized `id`/`uuid`.
pub open spec fn preferred_id(device: Json) -> Option<Seq<char>> {
    let direct = normalized_opt(direct_code(device));
    let m = code_matches(json_text_of(device));
    let scanned = if m.len() > 0 {
        normalized_id(m[0])
    } else {
        None
    };
    if direct is Some && starts_with_c(direct.unwrap()) {
        direct
    } else if scanned is Some {
        scanned
    } else {
        match first_str(device, id_keys()) {
            Some(s) => normalized_id(s),
            None => normalized_opt(first_str(record_attrs(device), attr_id_keys())),
        }
    }
}

/// Resolves the preferred local identifier of a device record (see `preferred_id`).
pub fn extract_preferred_local_id(device: &Json) -> (r: Option<String>)
    ensures
        opt_eq(r, preferred_id(*device)),
{
    let attrs = match get(device, "attributes") {
        Some(a) => a,
        None => device,
    };
    let ck = code_keys_vec();
    let direct = match first_non_empty_str(device, &ck) {
        Some(s) => Some(s),
        None => {
            let ak = attr_code_keys_vec();
            first_non_empty_str(attrs, &ak)
        },
    };
    match direct {
        Some(s) => match normalize_component_token(s.as_str()) {
            Some(v) => {
                let c = chars_of(v.as_str());
                if c.len() > 0 && (c[0] == 'c' || c[0] == 'C') {
                    return Some(v);
                }
            },
            None => {},
        },
        None => {},
    }
    let text = json_to_string(device);
    let found = find_codes(text.as_str());
    if found.len() > 0 {
        match normalize_component_token(found[0].as_str()) {
            Some(id) => {
                return Some(id);
            },
            None => {},
        }
    }
    let ik = id_keys_vec();
    match first_non_empty_str(device, &ik) {
        Some(s) => normalize_component_token(s.as_str()),
        None => {
            let aik = attr_id_keys_vec();
            match first_non_empty_str(attrs, &aik) {
                Some(s) => normalize_component_token(s.as_str()),
                None => None,
            }
        },
    }
}

/// Normalized forms of the tokens of `ms` that normalize, in order.
pub open spec fn normalized_all(ms: Seq<Seq<char>>) -> Seq<Seq<char>>
    decreases ms.len(),
{
    if ms.len() == 0 {
        seq![]
    } else {
        let prev = normalized_all(ms.drop_last());
        match normalized_id(ms.last()) {
            Some(t) => prev.push(t),
            None => prev,
        }
    }
}

/// The vendor codes found in free text, normalized, in the order they occur.
pub fn extract_component_ids_from_text(content: &str) -> (r: Vec<String>)
    ensures
        views_of(r@) == normalized_all(code_matches(content@)),
{
    let found = find_codes(content);
    let ghost fv = views_of(found@);
    let mut out: Vec<String> = Vec::new();
    let mut i: usize = 0;
    while i < found.len()
        invariant
            0 <= i <= found@.len(),
            fv == views_of(found@),
            views_of(out@) == normalized_all(fv.take(i as int)),
        decreases found@.len() - i,
    {
        assert(fv.take(i + 1).drop_last() =~= fv.take(i as int));
        assert(fv[i as int] == found@[i as int]@);
        match normalize_component_token(found[i].as_str()) {
            Some(id) => {
                let ghost prev = out@;
                out.push(id);
                assert(views_of(out@) =~= views_of(prev).push(id@));
            },
            None => {},
        }
        i = i + 1;
    }
    assert(fv.take(i as int) =~= fv);
    out
}

/// A device record whose `product_code` field names a vendor code is known by
/// that code, whatever identifier or UUID fields it also holds.
pub proof fn lemma_vendor_code_precedence(device: Json, code: Seq<char>)
    requires
        str_field(device, "product_code"@) == Some(code),
        trim(code).len() > 0,
        normalized_id(trim(code)) is Some,
        starts_with_c(normalized_id(trim(code)).unwrap()),
    ensures
        preferred_id(device) == normalized_id(trim(code)),
{
    assert(code_keys()[0] == "product_code"@);
}

pub open spec fn opt_ids(o: Option<Seq<char>>) -> Seq<Seq<char>> {
    match o {
        Some(t) => seq![t],
        None => seq![],
    }
}

/// Field names, in lower case, whose string values are taken as identifiers.
pub open spec fn id_field_names() -> Seq<Seq<char>> {
    seq![
        "component_id"@,
        "lcsc"@,
        "product_code"@,
        "productcode"@,
        "code"@,
        "partnumber"@,
        "part_number"@,
        "id"@,
        "uuid"@,
        "component_uuid"@,
    ]
}

/// The identifier an object entry names: the normalized string value of an identifier field.
pub open spec fn entry_id(e: (String, Json)) -> Seq<Seq<char>> {
    if id_field_names().contains(crate::eventlog::lower(e.0@)) {
        match e.1 {
            Json::Str(s) => opt_ids(normalized_id(s@)),
            _ => seq![],
        }
    } else {
        seq![]
    }
}

/// Identifiers found in a JSON value, in document order: every string that
/// normalizes, the vendor codes inside every string, and the values of
/// identifier fields.
pub open spec fn json_ids(v: Json) -> Seq<Seq<char>>
    decreases v,
{
    match v {
        Json::Str(s) => opt_ids(normalized_id(s@)) + normalized_all(code_matches(s@)),
        Json::Array(items) => array_ids(items@),
        Json::Object(entries) => object_ids(entries@),
        _ => seq![],
    }
}

pub open spec fn array_ids(items: Seq<Json>) -> Seq<Seq<char>>
    decreases items,
{
    if items.len() == 0 {
        seq![]
    } else {
        array_ids(items.drop_last()) + json_ids(items.last())
    }
}

pub open spec fn object_ids(es: Seq<(String, Json)>) -> Seq<Seq<char>>
    decreases es,
{
    if es.len() == 0 {
        seq![]
    } else {
        object_ids(es.drop_last()) + entry_id(es.last()) + json_ids(es.last().1)
    }
}

fn entry_id_of(k: &String, v: &Json, out: &mut Vec<String>)
    ensures
        views_of(final(out)@) == views_of(old(out)@) + entry_id((*k, *v)),
{
    let kc = chars_of(k.as_str());
    let names = vec![
        "component_id", "lcsc", "product_code", "productcode", "code", "partnumber", "part_number",
        "id", "uuid", "component_uuid",
    ];
    assert(key_views(names@) =~= id_field_names());
    let mut i: usize = 0;
    while i < names.len() && !crate::eventlog::is_ascii_ci(k, names[i])
        invariant
            0 <= i <= names@.len(),
            key_views(names@) == id_field_names(),
            forall|j: int| 0 <= j < i ==> id_field_names()[j] != crate::eventlog::lower(k@),
        decreases names@.len() - i,
    {
        i = i + 1;
    }
    let found = i < names.len();
    if found {
        assert(id_field_names()[i as int] == crate::eventlog::lower(k@));
    }
    if !found {
        assert(!id_field_names().contains(crate::eventlog::lower(k@)));
        assert(views_of(out@) =~= views_of(out@) + Seq::<Seq<char>>::empty());
        return;
    }
    assert(id_field_names().contains(crate::eventlog::lower(k@)));
    match v {
        Json::Str(s) => match normalize_component_token(s.as_str()) {
            Some(id) => {
                let ghost prev = out@;
                out.push(id);
                assert(views_of(out@) =~= views_of(prev) + seq![id@]);
            },
            None => {
                assert(views_of(out@) =~= views_of(out@) + Seq::<Seq<char>>::empty());
            },
        },
        _ => {
            assert(views_of(out@) =~= views_of(out@) + Seq::<Seq<char>>::empty());
        },
    }
}

/// Collects the identifiers found in a JSON value (see `json_ids`).
pub fn extract_component_ids_from_json_value(value: &Json, out: &mut Vec<String>)
    ensures
        views_of(final(out)@) == views_of(old(out)@) + json_ids(*value),
    decreases value,
{
    match value {
        Json::Str(s) => {
            let ghost start = views_of(out@);
            match normalize_component_token(s.as_str()) {
                Some(id) => {
                    out.push(id);
                },
                None => {},
            }
            assert(views_of(out@) =~= start + opt_ids(normalized_id(s@)));
            let found = extract_component_ids_from_text(s.as_str());
            let ghost mid = out@;
            let mut f = found;
            out.append(&mut f);
            assert(views_of(out@) =~= views_of(mid) + normalized_all(code_matches(s@)));
        },
        Json::Array(items) => {
            let ghost start = views_of(out@);
            let mut i: usize = 0;
            while i < items.len()
                invariant
                    0 <= i <= items@.len(),
                    *value == Json::Array(*items),
                    views_of(out@) == start + array_ids(items@.take(i as int)),
                decreases items@.len() - i,
            {
                assert(items@.take(i + 1).drop_last() =~= items@.take(i as int));
                assert(items@.take(i + 1).last() == items@[i as int]);
                proof {
                    assert(decreases_to!(*value => (*value)->Array_0));
                    assert((*value)->Array_0 == *items);
                    assert(decreases_to!(*items => items@));
                    assert(decreases_to!(items@ => items@[i as int]));
                    assert(decreases_to!(*value => items@[i as int]));
                }
                extract_component_ids_from_json_value(&items[i], out);
                i = i + 1;
            }
            assert(items@.take(i as int) =~= items@);
        },
        Json::Object(entries) => {
            let ghost start = views_of(out@);
            let mut i: usize = 0;
            while i < entries.len()
                invariant
                    0 <= i <= entries@.len(),
                    *value == Json::Object(*entries),
                    views_of(out@) == start + object_ids(entries@.take(i as int)),
                decreases entries@.len() - i,
            {
                assert(entries@.take(i + 1).drop_last() =~= entries@.take(i as int));
                assert(entries@.take(i + 1).last() == entries@[i as int]);
                entry_id_of(&entries[i].0, &entries[i].1, out);
                proof {
                    assert(decreases_to!(*value => (*value)->Object_0));
                    assert((*value)->Object_0 == *entries);
                    assert(decreases_to!(*entries => entries@));
                    assert(decreases_to!(entries@ => entries@[i as int]));
                    assert(decreases_to!(entries@[i as int] => entries@[i as int].1));
                    assert(decreases_to!(*value => entries@[i as int].1));
                }
                extract_component_ids_from_json_value(&entries[i].1, out);
                i = i + 1;
            }
            assert(entries@.take(i as int) =~= entries@);
        },
        _ => {
            assert(views_of(out@) =~= views_of(out@) + Seq::<Seq<char>>::empty());
        },
    }
}

pub open spec fn text_kinds() -> Seq<Seq<char>> {
    seq!["txt"@, "csv"@, "tsv"@, "list"@, "eda"@, "lcsc"@]
}

/// Identifiers in an input file of extension `ext` (lower case): a JSON file's
/// JSON identifiers then the vendor codes in its text; a text list's vendor
/// codes, else its normalized file stem; none for other files.
pub open spec fn file_ids(ext: Seq<char>, stem: Seq<char>, content: Seq<char>) -> Seq<Seq<char>> {
    if ext == "json"@ {
        (match crate::json::parsed_json(content) {
            Some(v) => json_ids(v),
            None => seq![],
        }) + normalized_all(code_matches(content))
    } else if text_kinds().contains(ext) {
        let found = normalized_all(code_matches(content));
        if found.len() > 0 {
            found
        } else {
            opt_ids(normalized_id(stem))
        }
    } else {
        seq![]
    }
}

/// Collects the identifiers of an input file (see `file_ids`).
pub fn extract_component_ids_from_file(ext: &str, stem: &str, content: &str) -> (r: Vec<String>)
    ensures
        views_of(r@) == file_ids(ext@, stem@, content@),
{
    let mut out: Vec<String> = Vec::new();
    let ghost empty = views_of(out@);
    assert(empty =~= Seq::<Seq<char>>::empty());
    if crate::chars::str_eq(ext, "json") {
        match crate::json::parse_json(content) {
            Some(v) => extract_component_ids_from_json_value(&v, &mut out),
            None => {},
        }
        let ghost mid = out@;
        let mut t = extract_component_ids_from_text(content);
        out.append(&mut t);
        assert(views_of(out@) =~= views_of(mid) + normalized_all(code_matches(content@)));
        return out;
    }
    let kinds = vec!["txt", "csv", "tsv", "list", "eda", "lcsc"];
    assert(key_views(kinds@) =~= text_kinds());
    let mut i: usize = 0;
    while i < kinds.len() && !crate::chars::str_eq(ext, kinds[i])
        invariant
            0 <= i <= kinds@.len(),
            key_views(kinds@) == text_kinds(),
            forall|j: int| 0 <= j < i ==> text_kinds()[j] != ext@,
        decreases kinds@.len() - i,
    {
        i = i + 1;
    }
    if i == kinds.len() {
        assert(!text_kinds().contains(ext@));
        proof {
            reveal_strlit("json");
        }
        return out;
    }
    assert(text_kinds()[i as int] == ext@);
    proof {
        reveal_strlit("json");
        reveal_strlit("txt");
        reveal_strlit("csv");
        reveal_strlit("tsv");
        reveal_strlit("list");
        reveal_strlit("eda");
        reveal_strlit("lcsc");
        assert(ext@ != "json"@);
    }
    let found = extract_component_ids_from_text(content);
    if found.len() > 0 {
        return found;
    }
    match normalize_component_token(stem) {
        Some(id) => {
            out.push(id);
            assert(views_of(out@) =~= seq![id@]);
        },
        None => {},
    }
    out
}

} // verus!
