//! Records of the provider's API responses, read from JSON, and the options
//! and results of the conversion commands.
use vstd::prelude::*;

use crate::bundle::opt_view;
use crate::chars::{chars_of, push_str, string_of};
use crate::error::JlcError;
use crate::footprint::views_of;
use crate::json::{field, get, parse_json, parsed_json, Json};

verus! {

/// One component UUID of a component lookup.
#[derive(Debug)]
pub struct ComponentResult {
    pub component_uuid: String,
}

/// A component lookup: whether it succeeded, and the component UUIDs (the
/// symbols first, the footprint last).
#[derive(Debug)]
pub struct ComponentData {
    pub success: bool,
    pub result: Vec<ComponentResult>,
}

/// A string field that may be missing or null; none when it holds another kind of value.
pub open spec fn optional_str(j: Json, key: Seq<char>) -> Option<Option<Seq<char>>> {
    match field(j, key) {
        None => Some(None),
        Some(Json::Null) => Some(None),
        Some(Json::Str(s)) => Some(Some(s@)),
        _ => None,
    }
}

/// A required string field.
pub open spec fn required_str(j: Json, key: Seq<char>) -> Option<Seq<char>> {
    match field(j, key) {
        Some(Json::Str(s)) => Some(s@),
        _ => None,
    }
}

fn optional_str_of(j: &Json, key: &str) -> (r: Result<Option<String>, ()>)
    ensures
        match optional_str(*j, key@) {
            Some(v) => r matches Ok(x) && opt_view(x) == v,
            None => r is Err,
        },
{
    match get(j, key) {
        None => Ok(None),
        Some(Json::Null) => Ok(None),
        Some(Json::Str(s)) => Ok(Some(s.clone())),
        _ => Err(()),
    }
}

fn required_str_of(j: &Json, key: &str) -> (r: Option<String>)
    ensures
        opt_view(r) == required_str(*j, key@),
{
    match get(j, key) {
        Some(Json::Str(s)) => Some(s.clone()),
        _ => None,
    }
}

/// The UUIDs of the items of a component lookup, when each is an object with a string `component_uuid`.
pub open spec fn component_uuids(items: Seq<Json>) -> Option<Seq<Seq<char>>>
    decreases items.len(),
{
    if items.len() == 0 {
        Some(seq![])
    } else {
        match (component_uuids(items.drop_last()), required_str(items.last(), "component_uuid"@)) {
            (Some(p), Some(u)) => Some(p.push(u)),
            _ => None,
        }
    }
}

/// A component lookup read from JSON: a boolean `success` and an array `result`.
pub open spec fn component_data_of(j: Json) -> Option<(bool, Seq<Seq<char>>)> {
    match (field(j, "success"@), field(j, "result"@)) {
        (Some(Json::Bool(b)), Some(Json::Array(items))) => match component_uuids(items@) {
            Some(u) => Some((b, u)),
            None => None,
        },
        _ => None,
    }
}

pub open spec fn results_view(r: Seq<ComponentResult>) -> Seq<Seq<char>> {
    r.map_values(|c: ComponentResult| c.component_uuid@)
}

impl ComponentData {
    /// Reads a component lookup from JSON (see `component_data_of`).
    pub fn from_json(j: &Json) -> (r: Option<ComponentData>)
        ensures
            match component_data_of(*j) {
                Some(d) => r matches Some(x) && x.success == d.0 && results_view(x.result@) == d.1,
                None => r is None,
            },
    {
        let success = match get(j, "success") {
            Some(Json::Bool(b)) => *b,
            _ => {
                return None;
            },
        };
        let items = match get(j, "result") {
            Some(Json::Array(items)) => items,
            _ => {
                return None;
            },
        };
        let mut result: Vec<ComponentResult> = Vec::new();
        let mut i: usize = 0;
        while i < items.len()
            invariant
                0 <= i <= items@.len(),
                field(*j, "result"@) == Some(Json::Array(*items)),
                component_uuids(items@.take(i as int)) == Some(results_view(result@)),
            decreases items@.len() - i,
        {
            assert(items@.take(i + 1).drop_last() =~= items@.take(i as int));
            assert(items@.take(i + 1).last() == items@[i as int]);
            match required_str_of(&items[i], "component_uuid") {
                Some(u) => {
                    let ghost prev = result@;
                    result.push(ComponentResult { component_uuid: u });
                    assert(results_view(result@) =~= results_view(prev).push(u@));
                },
                None => {
                    proof {
                        lemma_component_uuids_stuck(items@, i as int);
                    }
                    return None;
                },
            }
            i = i + 1;
        }
        assert(items@.take(i as int) =~= items@);
        Some(ComponentData { success, result })
    }

    /// The footprint UUID (the last) and the symbol UUIDs (the others), or none without any.
    pub fn split_uuids(&self) -> (r: Option<(String, Vec<String>)>)
        ensures
            self.result@.len() == 0 ==> r is None,
            self.result@.len() > 0 ==> (r matches Some(x) && x.0@ == results_view(self.result@).last()
                && views_of(x.1@) == results_view(self.result@).drop_last()),
    {
        let n = self.result.len();
        if n == 0 {
            return None;
        }
        let mut symbols: Vec<String> = Vec::new();
        let mut i: usize = 0;
        while i < n - 1
            invariant
                0 <= i <= n - 1,
                n == self.result@.len(),
                views_of(symbols@) == results_view(self.result@).take(i as int),
            decreases n - 1 - i,
        {
            let u = self.result[i].component_uuid.clone();
            let ghost prev = symbols@;
            symbols.push(u);
            assert(views_of(symbols@) =~= views_of(prev).push(u@));
            assert(views_of(symbols@) =~= results_view(self.result@).take(i + 1));
            i = i + 1;
        }
        assert(results_view(self.result@).take(i as int) =~= results_view(self.result@).drop_last());
        Some((self.result[n - 1].component_uuid.clone(), symbols))
    }
}

proof fn lemma_component_uuids_stuck(items: Seq<Json>, i: int)
    requires
        0 <= i < items.len(),
        required_str(items[i], "component_uuid"@) is None,
    ensures
        component_uuids(items) is None,
    decreases items.len(),
{
    if i < items.len() - 1 {
        lemma_component_uuids_stuck(items.drop_last(), i);
    }
}

/// Reads the response of a component lookup: malformed text or records are a
/// JSON error, a lookup that did not succeed an API error.
pub fn component_data_from_text(text: &str, component_id: &str) -> (r: Result<ComponentData, JlcError>)
    ensures
        match parsed_json(text@) {
            Some(j) => match component_data_of(j) {
                Some(d) => if d.0 {
                    r matches Ok(x) && results_view(x.result@) == d.1
                } else {
                    r matches Err(JlcError::ApiError(_))
                },
                None => r matches Err(JlcError::JsonError(_)),
            },
            None => r matches Err(JlcError::JsonError(_)),
        },
{
    let j = match parse_json(text) {
        Some(j) => j,
        None => {
            return Err(JlcError::JsonError(String::from_str("malformed component response")));
        },
    };
    let data = match ComponentData::from_json(&j) {
        Some(d) => d,
        None => {
            return Err(JlcError::JsonError(String::from_str("unexpected component response")));
        },
    };
    if !data.success {
        let mut m = chars_of("Failed to get component ");
        push_str(&mut m, component_id);
        push_str(&mut m, " data");
        return Err(JlcError::ApiError(string_of(&m)));
    }
    Ok(data)
}

/// Parameters of a footprint head: its datasheet link.
#[derive(Debug)]
pub struct FootprintCPara {
    pub link: Option<String>,
}

impl FootprintCPara {
    /// Reads the parameters from JSON: `link` missing, null or a string.
    pub fn from_json(j: &Json) -> (r: Option<FootprintCPara>)
        ensures
            match optional_str(*j, "link"@) {
                Some(l) => r matches Some(x) && opt_view(x.link) == l,
                None => r is None,
            },
    {
        match optional_str_of(j, "link") {
            Ok(link) => Some(FootprintCPara { link }),
            Err(()) => None,
        }
    }
}

/// Parameters of a symbol head: its reference prefix and component values.
#[derive(Debug)]
pub struct SymbolCPara {
    pub pre: String,
    pub resistance: Option<String>,
    pub capacitance: Option<String>,
    pub inductance: Option<String>,
    pub frequency: Option<String>,
}

/// Symbol parameters as (prefix, resistance, capacitance, inductance, frequency).
pub type CParaModel = (Seq<char>, Option<Seq<char>>, Option<Seq<char>>, Option<Seq<char>>, Option<Seq<char>>);

pub open spec fn c_para_of(j: Json) -> Option<CParaModel> {
    match (
        required_str(j, "pre"@),
        optional_str(j, "Resistance"@),
        optional_str(j, "Capacitance"@),
        optional_str(j, "Inductance"@),
        optional_str(j, "Frequency"@),
    ) {
        (Some(p), Some(r), Some(c), Some(i), Some(f)) => Some((p, r, c, i, f)),
        _ => None,
    }
}

pub open spec fn c_para_model(c: SymbolCPara) -> CParaModel {
    (c.pre@, opt_view(c.resistance), opt_view(c.capacitance), opt_view(c.inductance), opt_view(c.frequency))
}

impl SymbolCPara {
    /// Reads the parameters from JSON (see `c_para_of`).
    pub fn from_json(j: &Json) -> (r: Option<SymbolCPara>)
        ensures
            match c_para_of(*j) {
                Some(c) => r matches Some(x) && c_para_model(x) == c,
                None => r is None,
            },
    {
        let pre = match required_str_of(j, "pre") {
            Some(p) => p,
            None => {
                return None;
            },
        };
        let resistance = match optional_str_of(j, "Resistance") {
            Ok(v) => v,
            Err(()) => {
                return None;
            },
        };
        let capacitance = match optional_str_of(j, "Capacitance") {
            Ok(v) => v,
            Err(()) => {
                return None;
            },
        };
        let inductance = match optional_str_of(j, "Inductance") {
            Ok(v) => v,
            Err(()) => {
                return None;
            },
        };
        let frequency = match optional_str_of(j, "Frequency") {
            Ok(v) => v,
            Err(()) => {
                return None;
            },
        };
        Some(SymbolCPara { pre, resistance, capacitance, inductance, frequency })
    }

    /// The reference prefix without `?`.
    pub fn prefix(&self) -> (r: String)
        ensures
            r@ == self.pre@.filter(|c: char| c != '?'),
    {
        let c = chars_of(self.pre.as_str());
        let mut out: Vec<char> = Vec::new();
        let mut i: usize = 0;
        while i < c.len()
            invariant
                0 <= i <= c@.len(),
                c@ == self.pre@,
                out@ == c@.take(i as int).filter(|c: char| c != '?'),
            decreases c@.len() - i,
        {
            proof {
                assert(c@.take(i + 1).drop_last() =~= c@.take(i as int));
                reveal(Seq::filter);
            }
            if c[i] != '?' {
                out.push(c[i]);
            }
            assert(out@ =~= c@.take(i + 1).filter(|c: char| c != '?'));
            i = i + 1;
        }
        assert(c@.take(i as int) =~= c@);
        string_of(&out)
    }
}

/// The head of a package detail.
#[derive(Debug)]
pub struct PackageDetailHead {
    pub c_para: SymbolCPara,
}

/// The data string of a package detail.
#[derive(Debug)]
pub struct PackageDetailData {
    pub head: PackageDetailHead,
}

/// The package detail of a symbol response.
#[derive(Debug)]
pub struct PackageDetail {
    pub data_str: PackageDetailData,
}

/// The symbol parameters of a package detail: `dataStr.head.c_para`.
pub open spec fn package_c_para(j: Json) -> Option<CParaModel> {
    match field(j, "dataStr"@) {
        Some(d) => match field(d, "head"@) {
            Some(h) => match field(h, "c_para"@) {
                Some(c) => c_para_of(c),
                None => None,
            },
            None => None,
        },
        None => None,
    }
}

impl PackageDetail {
    /// Reads a package detail from JSON (see `package_c_para`).
    pub fn from_json(j: &Json) -> (r: Option<PackageDetail>)
        ensures
            match package_c_para(*j) {
                Some(c) => r matches Some(x) && c_para_model(x.data_str.head.c_para) == c,
                None => r is None,
            },
    {
        let d = match get(j, "dataStr") {
            Some(d) => d,
            None => {
                return None;
            },
        };
        let h = match get(d, "head") {
            Some(h) => h,
            None => {
                return None;
            },
        };
        let c = match get(h, "c_para") {
            Some(c) => c,
            None => {
                return None;
            },
        };
        match SymbolCPara::from_json(c) {
            Some(c_para) => Some(PackageDetail { data_str: PackageDetailData { head: PackageDetailHead { c_para } } }),
            None => None,
        }
    }
}

/// Options of a component conversion.
#[derive(Debug)]
pub struct CreateComponentOptions {
    pub component_id: String,
    pub output_dir: String,
    pub footprint_lib: String,
    pub symbol_lib: String,
    pub symbol_path: String,
    pub model_dir: String,
    pub models: Vec<String>,
    pub create_footprint: bool,
    pub create_symbol: bool,
}

/// Options of a conversion of local files.
#[derive(Debug)]
pub struct LocalOptions {
    pub path: String,
    pub output_dir: String,
    pub footprint_lib: String,
    pub symbol_lib: String,
    pub symbol_path: String,
    pub model_dir: String,
    pub models: Vec<String>,
    pub create_footprint: bool,
    pub create_symbol: bool,
}

/// The outcome of a command: a message, and the error text of a failure.
#[derive(Debug)]
pub struct CommandResult {
    pub success: bool,
    pub message: String,
    pub error: Option<String>,
}

impl CommandResult {
    /// The result of a command that succeeded with `message`.
    pub fn succeeded(message: String) -> (r: CommandResult)
        ensures
            r.success && r.message == message && r.error is None,
    {
        CommandResult { success: true, message, error: None }
    }

    /// The result of a command that failed with `message` and the error's text.
    pub fn failed(message: String, error: &JlcError) -> (r: CommandResult)
        ensures
            !r.success && r.message == message,
            r.error matches Some(e) && e@ == crate::error::error_text(*error),
    {
        CommandResult { success: false, message, error: Some(error.message()) }
    }
}

/// The items of an array when every one is a string.
pub open spec fn string_items(items: Seq<Json>) -> Option<Seq<Seq<char>>>
    decreases items.len(),
{
    if items.len() == 0 {
        Some(seq![])
    } else {
        match (string_items(items.drop_last()), items.last()) {
            (Some(p), Json::Str(s)) => Some(p.push(s@)),
            _ => None,
        }
    }
}

proof fn lemma_string_items_stuck(items: Seq<Json>, i: int)
    requires
        0 <= i < items.len(),
        !(items[i] is Str),
    ensures
        string_items(items) is None,
    decreases items.len(),
{
    if i < items.len() - 1 {
        lemma_string_items_stuck(items.drop_last(), i);
    }
}

fn string_items_of(j: &Json, key: &str) -> (r: Option<Vec<String>>)
    ensures
        match field(*j, key@) {
            Some(Json::Array(items)) => match string_items(items@) {
                Some(v) => r matches Some(x) && views_of(x@) == v,
                None => r is None,
            },
            _ => r is None,
        },
{
    let items = match get(j, key) {
        Some(Json::Array(items)) => items,
        _ => {
            return None;
        },
    };
    let mut out: Vec<String> = Vec::new();
    let mut i: usize = 0;
    while i < items.len()
        invariant
            0 <= i <= items@.len(),
            field(*j, key@) == Some(Json::Array(*items)),
            string_items(items@.take(i as int)) == Some(views_of(out@)),
        decreases items@.len() - i,
    {
        assert(items@.take(i + 1).drop_last() =~= items@.take(i as int));
        assert(items@.take(i + 1).last() == items@[i as int]);
        match &items[i] {
            Json::Str(s) => {
                let ghost prev = out@;
                out.push(s.clone());
                assert(views_of(out@) =~= views_of(prev).push(s@));
            },
            _ => {
                proof {
                    lemma_string_items_stuck(items@, i as int);
                }
                return None;
            },
        }
        i = i + 1;
    }
    assert(items@.take(i as int) =~= items@);
    Some(out)
}

/// A footprint of the provider: its title, shape records and datasheet link.
#[derive(Debug)]
pub struct FootprintRecord {
    pub title: String,
    pub shape: Vec<String>,
    pub link: Option<String>,
}

/// The `c_para` of a footprint head: missing or null, or an object read as footprint parameters.
pub open spec fn footprint_link(head: Json) -> Option<Option<Seq<char>>> {
    match field(head, "c_para"@) {
        None => Some(None),
        Some(Json::Null) => Some(None),
        Some(c) => match c {
            Json::Object(_) => optional_str(c, "link"@),
            _ => None,
        },
    }
}

/// A footprint response read from JSON: success, and a result with a title,
/// string shape records, a numeric head and optional parameters.
pub open spec fn footprint_response(j: Json) -> Option<(bool, Seq<char>, Seq<Seq<char>>, Option<Seq<char>>)> {
    match (field(j, "success"@), field(j, "result"@)) {
        (Some(Json::Bool(ok)), Some(res)) => match (required_str(res, "title"@), field(res, "dataStr"@)) {
            (Some(title), Some(ds)) => match (field(ds, "shape"@), field(ds, "head"@)) {
                (Some(Json::Array(items)), Some(head)) => match (
                    string_items(items@),
                    field(head, "x"@),
                    field(head, "y"@),
                    footprint_link(head),
                ) {
                    (Some(shape), Some(Json::Number(_)), Some(Json::Number(_)), Some(link)) => Some(
                        (ok, title, shape, link),
                    ),
                    _ => None,
                },
                _ => None,
            },
            _ => None,
        },
        _ => None,
    }
}

/// Reads a footprint response: malformed text or records are a JSON error, a
/// response that did not succeed an API error.
pub fn footprint_from_text(text: &str, footprint_uuid: &str) -> (r: Result<FootprintRecord, JlcError>)
    ensures
        match parsed_json(text@) {
            Some(j) => match footprint_response(j) {
                Some(f) => if f.0 {
                    r matches Ok(x) && x.title@ == f.1 && views_of(x.shape@) == f.2 && opt_view(x.link) == f.3
                } else {
                    r matches Err(JlcError::ApiError(_))
                },
                None => r matches Err(JlcError::JsonError(_)),
            },
            None => r matches Err(JlcError::JsonError(_)),
        },
{
    let bad = JlcError::JsonError(String::from_str("unexpected footprint response"));
    let j = match parse_json(text) {
        Some(j) => j,
        None => {
            return Err(bad);
        },
    };
    let ok = match get(&j, "success") {
        Some(Json::Bool(b)) => *b,
        _ => {
            return Err(bad);
        },
    };
    let res = match get(&j, "result") {
        Some(r) => r,
        None => {
            return Err(bad);
        },
    };
    let title = match required_str_of(res, "title") {
        Some(t) => t,
        None => {
            return Err(bad);
        },
    };
    let ds = match get(res, "dataStr") {
        Some(d) => d,
        None => {
            return Err(bad);
        },
    };
    let shape = match string_items_of(ds, "shape") {
        Some(s) => s,
        None => {
            return Err(bad);
        },
    };
    let head = match get(ds, "head") {
        Some(h) => h,
        None => {
            return Err(bad);
        },
    };
    let numeric = match (get(head, "x"), get(head, "y")) {
        (Some(Json::Number(_)), Some(Json::Number(_))) => true,
        _ => false,
    };
    if !numeric {
        return Err(bad);
    }
    let link: Option<String> = match get(head, "c_para") {
        None => None,
        Some(Json::Null) => None,
        Some(c) => match c {
            Json::Object(_) => match FootprintCPara::from_json(c) {
                Some(p) => p.link,
                None => {
                    return Err(bad);
                },
            },
            _ => {
                return Err(bad);
            },
        },
    };
    if !ok {
        let mut m = chars_of("Failed to get footprint ");
        push_str(&mut m, footprint_uuid);
        push_str(&mut m, " data");
        return Err(JlcError::ApiError(string_of(&m)));
    }
    Ok(FootprintRecord { title, shape, link })
}

/// A symbol of the provider: its title, shape records, origin (ten-thousandths)
/// and reference prefix without `?`.
#[derive(Debug)]
pub struct SymbolRecord {
    pub title: String,
    pub shape: Vec<String>,
    pub origin_x: i64,
    pub origin_y: i64,
    pub prefix: String,
}

pub open spec fn number_value(v: Option<Json>) -> Option<int> {
    match v {
        Some(Json::Number(n)) => crate::num::decimal_value(n@),
        _ => None,
    }
}

/// A symbol response read from JSON: success, and a result with a title,
/// string shape records, a decimal head origin, head parameters and a package detail.
pub open spec fn symbol_response(j: Json) -> Option<(bool, Seq<char>, Seq<Seq<char>>, int, int, Seq<char>)> {
    match (field(j, "success"@), field(j, "result"@)) {
        (Some(Json::Bool(ok)), Some(res)) => match (
            required_str(res, "title"@),
            field(res, "dataStr"@),
            field(res, "packageDetail"@),
        ) {
            (Some(title), Some(ds), Some(pd)) => match (field(ds, "shape"@), field(ds, "head"@)) {
                (Some(Json::Array(items)), Some(head)) => match (
                    string_items(items@),
                    number_value(field(head, "x"@)),
                    number_value(field(head, "y"@)),
                    field(head, "c_para"@),
                    package_c_para(pd),
                ) {
                    (Some(shape), Some(x), Some(y), Some(c), Some(p)) => if c_para_of(c) is Some {
                        Some((ok, title, shape, x, y, p.0.filter(|ch: char| ch != '?')))
                    } else {
                        None
                    },
                    _ => None,
                },
                _ => None,
            },
            _ => None,
        },
        _ => None,
    }
}

fn number_of(v: Option<&Json>) -> (r: Option<i64>)
    ensures
        match number_value(crate::eventlog::opt_json(v)) {
            Some(x) => r matches Some(y) && y == x,
            None => r is None,
        },
        r matches Some(y) ==> -crate::num::MAX_MAGNITUDE <= y <= crate::num::MAX_MAGNITUDE,
{
    match v {
        Some(Json::Number(n)) => {
            let c = chars_of(n.as_str());
            crate::num::parse_decimal(&c)
        },
        _ => None,
    }
}

/// Reads a symbol response: malformed text or records are a JSON error, a
/// response that did not succeed an API error.
pub fn symbol_from_text(text: &str, symbol_uuid: &str) -> (r: Result<SymbolRecord, JlcError>)
    ensures
        match parsed_json(text@) {
            Some(j) => match symbol_response(j) {
                Some(f) => if f.0 {
                    r matches Ok(x) && x.title@ == f.1 && views_of(x.shape@) == f.2 && x.origin_x == f.3
                        && x.origin_y == f.4 && x.prefix@ == f.5
                } else {
                    r matches Err(JlcError::ApiError(_))
                },
                None => r matches Err(JlcError::JsonError(_)),
            },
            None => r matches Err(JlcError::JsonError(_)),
        },
        r matches Ok(x) ==> -crate::num::MAX_MAGNITUDE <= x.origin_x <= crate::num::MAX_MAGNITUDE
            && -crate::num::MAX_MAGNITUDE <= x.origin_y <= crate::num::MAX_MAGNITUDE,
{
    let bad = JlcError::JsonError(String::from_str("unexpected symbol response"));
    let j = match parse_json(text) {
        Some(j) => j,
        None => {
            return Err(bad);
        },
    };
    let ok = match get(&j, "success") {
        Some(Json::Bool(b)) => *b,
        _ => {
            return Err(bad);
        },
    };
    let res = match get(&j, "result") {
        Some(r) => r,
        None => {
            return Err(bad);
        },
    };
    let title = match required_str_of(res, "title") {
        Some(t) => t,
        None => {
            return Err(bad);
        },
    };
    let (ds, pd) = match (get(res, "dataStr"), get(res, "packageDetail")) {
        (Some(d), Some(p)) => (d, p),
        _ => {
            return Err(bad);
        },
    };
    let shape = match string_items_of(ds, "shape") {
        Some(s) => s,
        None => {
            return Err(bad);
        },
    };
    let head = match get(ds, "head") {
        Some(h) => h,
        None => {
            return Err(bad);
        },
    };
    let (x, y) = match (number_of(get(head, "x")), number_of(get(head, "y"))) {
        (Some(x), Some(y)) => (x, y),
        _ => {
            return Err(bad);
        },
    };
    let head_ok = match get(head, "c_para") {
        Some(c) => SymbolCPara::from_json(c).is_some(),
        None => false,
    };
    if !head_ok {
        return Err(bad);
    }
    let detail = match PackageDetail::from_json(pd) {
        Some(d) => d,
        None => {
            return Err(bad);
        },
    };
    if !ok {
        let mut m = chars_of("Failed to get symbol ");
        push_str(&mut m, symbol_uuid);
        push_str(&mut m, " data");
        return Err(JlcError::ApiError(string_of(&m)));
    }
    let prefix = detail.data_str.head.c_para.prefix();
    Ok(SymbolRecord { title, shape, origin_x: x, origin_y: y, prefix })
}

} // verus!
