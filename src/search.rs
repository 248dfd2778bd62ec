//! Search results built from the provider's device search responses.
use vstd::prelude::*;

use crate::bundle::opt_view;
use crate::chars::{chars_of, push_str, str_eq, string_of};
use crate::footprint::views_of;
use crate::json::{field, first_non_empty_str, first_str, get, key_views, Json};
use crate::metadata::{brief_desc, extract_brief_desc, extract_manufacturer_name, extract_package_name, manufacturer_name, package_name};
use crate::text::{trim, trim_chars};

verus! {

/// A component found by a search.
#[derive(Clone, Debug)]
pub struct SearchResult {
    pub id: String,
    pub name: String,
    pub description: String,
    pub package: Option<String>,
    pub manufacturer: Option<String>,
    pub category: Option<String>,
    pub price: Option<String>,
    pub stock: Option<String>,
    pub image_url: Option<String>,
}

pub open spec fn or_unknown(v: Option<Seq<char>>) -> Seq<char> {
    match v {
        Some(s) => s,
        None => "未知"@,
    }
}

/// The description line of a result: package, manufacturer and description,
/// with `未知` for what is unknown.
pub open spec fn description_text(p: Option<Seq<char>>, m: Option<Seq<char>>, b: Option<Seq<char>>) -> Seq<char> {
    "封装: "@ + or_unknown(p) + " | 制造商: "@ + or_unknown(m) + " | 描述: "@ + or_unknown(b)
}

fn push_or_unknown(out: &mut Vec<char>, v: &Option<String>)
    ensures
        final(out)@ == old(out)@ + or_unknown(opt_view(*v)),
{
    match v {
        Some(s) => push_str(out, s.as_str()),
        None => push_str(out, "未知"),
    }
}

/// Writes the description line of a result (see `description_text`).
pub fn describe(package: &Option<String>, manufacturer: &Option<String>, brief: &Option<String>) -> (r: String)
    ensures
        r@ == description_text(opt_view(*package), opt_view(*manufacturer), opt_view(*brief)),
{
    let mut out = chars_of("封装: ");
    push_or_unknown(&mut out, package);
    push_str(&mut out, " | 制造商: ");
    push_or_unknown(&mut out, manufacturer);
    push_str(&mut out, " | 描述: ");
    push_or_unknown(&mut out, brief);
    string_of(&out)
}

/// A device found by a search, before its details are known.
pub struct SearchCandidate {
    pub id: String,
    pub device_uuid: String,
    pub name: String,
    pub package: Option<String>,
    pub manufacturer: Option<String>,
    pub brief: Option<String>,
}

/// A candidate as (id, device UUID, name, package, manufacturer, description).
pub type CandidateModel = (
    Seq<char>,
    Seq<char>,
    Seq<char>,
    Option<Seq<char>>,
    Option<Seq<char>>,
    Option<Seq<char>>,
);

pub open spec fn candidate_model(c: SearchCandidate) -> CandidateModel {
    (c.id@, c.device_uuid@, c.name@, opt_view(c.package), opt_view(c.manufacturer), opt_view(c.brief))
}

pub open spec fn candidates_model(v: Seq<SearchCandidate>) -> Seq<CandidateModel> {
    v.map_values(|c: SearchCandidate| candidate_model(c))
}

/// The value of the first of `keys` present in `item`, as a trimmed string;
/// empty when it is not a string or none is present.
pub open spec fn present_str(item: Json, keys: Seq<Seq<char>>) -> Seq<char>
    decreases keys.len(),
{
    if keys.len() == 0 {
        seq![]
    } else {
        match field(item, keys[0]) {
            Some(Json::Str(s)) => trim(s@),
            Some(_) => seq![],
            None => present_str(item, keys.drop_first()),
        }
    }
}

/// The value of the first of `keys` present in `item` when it is a string, untrimmed.
pub open spec fn present_raw(item: Json, keys: Seq<Seq<char>>) -> Option<Seq<char>>
    decreases keys.len(),
{
    if keys.len() == 0 {
        None
    } else {
        match field(item, keys[0]) {
            Some(Json::Str(s)) => Some(s@),
            Some(_) => None,
            None => present_raw(item, keys.drop_first()),
        }
    }
}

fn present_str_of(item: &Json, keys: &Vec<&str>) -> (r: String)
    ensures
        r@ == present_str(*item, key_views(keys@)),
{
    let ghost kv = key_views(keys@);
    let mut i: usize = 0;
    assert(kv.skip(0) =~= kv);
    while i < keys.len()
        invariant
            0 <= i <= keys@.len(),
            kv == key_views(keys@),
            present_str(*item, kv) == present_str(*item, kv.skip(i as int)),
        decreases keys@.len() - i,
    {
        assert(kv.skip(i as int).drop_first() =~= kv.skip(i + 1));
        assert(kv.skip(i as int)[0] == keys@[i as int]@);
        match get(item, keys[i]) {
            Some(Json::Str(s)) => {
                let c = chars_of(s.as_str());
                let t = trim_chars(&c);
                return string_of(&t);
            },
            Some(_) => {
                return String::new();
            },
            None => {},
        }
        i = i + 1;
    }
    String::new()
}

fn present_raw_of(item: &Json, keys: &Vec<&str>) -> (r: Option<String>)
    ensures
        opt_view(r) == present_raw(*item, key_views(keys@)),
{
    let ghost kv = key_views(keys@);
    let mut i: usize = 0;
    assert(kv.skip(0) =~= kv);
    while i < keys.len()
        invariant
            0 <= i <= keys@.len(),
            kv == key_views(keys@),
            present_raw(*item, kv) == present_raw(*item, kv.skip(i as int)),
        decreases keys@.len() - i,
    {
        assert(kv.skip(i as int).drop_first() =~= kv.skip(i + 1));
        assert(kv.skip(i as int)[0] == keys@[i as int]@);
        match get(item, keys[i]) {
            Some(Json::Str(s)) => {
                return Some(s.clone());
            },
            Some(_) => {
                return None;
            },
            None => {},
        }
        i = i + 1;
    }
    None
}

pub open spec fn name_keys() -> Seq<Seq<char>> {
    seq!["display_title"@, "title"@, "name"@, "product_name"@]
}

/// The candidate of an item of a search by vendor code.
pub open spec fn code_candidate(item: Json) -> CandidateModel {
    let id = present_str(item, seq!["product_code"@, "code"@, "uuid"@]);
    (
        id,
        present_str(item, seq!["uuid"@]),
        match first_str(item, name_keys()) {
            Some(n) => n,
            None => id,
        },
        package_name(item),
        manufacturer_name(item),
        brief_desc(item),
    )
}

/// The candidate of an item of a keyword search.
pub open spec fn keyword_candidate(item: Json) -> CandidateModel {
    let id = present_str(item, seq!["product_code"@, "uuid"@]);
    (
        id,
        present_str(item, seq!["uuid"@]),
        match present_raw(item, name_keys()) {
            Some(n) => n,
            None => id,
        },
        package_name(item),
        manufacturer_name(item),
        brief_desc(item),
    )
}

pub open spec fn candidate_of(item: Json, by_code: bool) -> CandidateModel {
    if by_code {
        code_candidate(item)
    } else {
        keyword_candidate(item)
    }
}

pub open spec fn ids_of(cs: Seq<CandidateModel>) -> Seq<Seq<char>> {
    cs.map_values(|c: CandidateModel| c.0)
}

/// Candidates of the items, in order, after `seen`: those with an identifier
/// that no earlier candidate has.
pub open spec fn candidates_of(seen: Seq<CandidateModel>, items: Seq<Json>, by_code: bool) -> Seq<CandidateModel>
    decreases items.len(),
{
    if items.len() == 0 {
        seen
    } else {
        let prev = candidates_of(seen, items.drop_last(), by_code);
        let c = candidate_of(items.last(), by_code);
        if c.0.len() > 0 && !ids_of(prev).contains(c.0) {
            prev.push(c)
        } else {
            prev
        }
    }
}

fn candidate_from(item: &Json, by_code: bool) -> (r: SearchCandidate)
    ensures
        candidate_model(r) == candidate_of(*item, by_code),
{
    let idk = if by_code {
        vec!["product_code", "code", "uuid"]
    } else {
        vec!["product_code", "uuid"]
    };
    assert(by_code ==> key_views(idk@) =~= seq!["product_code"@, "code"@, "uuid"@]);
    assert(!by_code ==> key_views(idk@) =~= seq!["product_code"@, "uuid"@]);
    let id = present_str_of(item, &idk);
    let uk = vec!["uuid"];
    assert(key_views(uk@) =~= seq!["uuid"@]);
    let device_uuid = present_str_of(item, &uk);
    let nk = vec!["display_title", "title", "name", "product_name"];
    assert(key_views(nk@) =~= name_keys());
    let name = if by_code {
        match first_non_empty_str(item, &nk) {
            Some(n) => n,
            None => id.clone(),
        }
    } else {
        match present_raw_of(item, &nk) {
            Some(n) => n,
            None => id.clone(),
        }
    };
    SearchCandidate {
        id,
        device_uuid,
        name,
        package: extract_package_name(item),
        manufacturer: extract_manufacturer_name(item),
        brief: extract_brief_desc(item),
    }
}

fn contains_id(cs: &Vec<SearchCandidate>, id: &String) -> (r: bool)
    ensures
        r == ids_of(candidates_model(cs@)).contains(id@),
{
    let ghost ids = ids_of(candidates_model(cs@));
    let mut i: usize = 0;
    while i < cs.len()
        invariant
            0 <= i <= cs@.len(),
            ids == ids_of(candidates_model(cs@)),
            forall|j: int| 0 <= j < i ==> ids[j] != id@,
        decreases cs@.len() - i,
    {
        if str_eq(cs[i].id.as_str(), id.as_str()) {
            assert(ids[i as int] == id@);
            return true;
        }
        i = i + 1;
    }
    false
}

/// Adds the candidates of `items` to `out` (see `candidates_of`).
pub fn collect_candidates(out: &mut Vec<SearchCandidate>, items: &Vec<Json>, by_code: bool)
    ensures
        candidates_model(final(out)@) == candidates_of(candidates_model(old(out)@), items@, by_code),
{
    let ghost seen = candidates_model(out@);
    let mut i: usize = 0;
    while i < items.len()
        invariant
            0 <= i <= items@.len(),
            seen == candidates_model(old(out)@),
            candidates_model(out@) == candidates_of(seen, items@.take(i as int), by_code),
        decreases items@.len() - i,
    {
        assert(items@.take(i + 1).drop_last() =~= items@.take(i as int));
        assert(items@.take(i + 1).last() == items@[i as int]);
        let c = candidate_from(&items[i], by_code);
        let empty = crate::eventlog::is_empty_text(&c.id);
        if !empty && !contains_id(out, &c.id) {
            let ghost prev = out@;
            out.push(c);
            assert(candidates_model(out@) =~= candidates_model(prev).push(candidate_model(c)));
        }
        i = i + 1;
    }
    assert(items@.take(i as int) =~= items@);
}

/// The items of a search by vendor code: the `result` array of a successful response.
pub open spec fn code_items(resp: Json) -> Seq<Json> {
    if field(resp, "success"@) == Some(Json::Bool(true)) {
        match field(resp, "result"@) {
            Some(Json::Array(a)) => a@,
            _ => seq![],
        }
    } else {
        seq![]
    }
}

/// Candidates of a response to a search by vendor code.
pub fn code_search_candidates(resp: &Json) -> (r: Vec<SearchCandidate>)
    ensures
        candidates_model(r@) == candidates_of(seq![], code_items(*resp), true),
{
    let mut out: Vec<SearchCandidate> = Vec::new();
    assert(candidates_model(out@) =~= Seq::<CandidateModel>::empty());
    let ok = match get(resp, "success") {
        Some(Json::Bool(b)) => *b,
        _ => false,
    };
    if ok {
        match get(resp, "result") {
            Some(Json::Array(items)) => {
                collect_candidates(&mut out, items, true);
                return out;
            },
            _ => {},
        }
    }
    proof {
        assert(code_items(*resp) =~= Seq::<Json>::empty());
    }
    out
}

/// The item lists of a keyword search response, in order: the arrays among
/// the values of `result.lists`.
pub open spec fn list_groups(resp: Json) -> Seq<(String, Json)> {
    match field(resp, "result"@) {
        Some(r) => crate::bundle::object_entries(r, "lists"@),
        None => seq![],
    }
}

pub open spec fn keyword_items(groups: Seq<(String, Json)>) -> Seq<Json>
    decreases groups.len(),
{
    if groups.len() == 0 {
        seq![]
    } else {
        keyword_items(groups.drop_last()) + match groups.last().1 {
            Json::Array(a) => a@,
            _ => seq![],
        }
    }
}

proof fn lemma_candidates_concat(seen: Seq<CandidateModel>, a: Seq<Json>, b: Seq<Json>, by_code: bool)
    ensures
        candidates_of(seen, a + b, by_code) == candidates_of(candidates_of(seen, a, by_code), b, by_code),
    decreases b.len(),
{
    if b.len() == 0 {
        assert(a + b =~= a);
    } else {
        assert((a + b).drop_last() =~= a + b.drop_last());
        assert((a + b).last() == b.last());
        lemma_candidates_concat(seen, a, b.drop_last(), by_code);
    }
}

/// Candidates of a keyword search response; none but an error when it reports failure.
pub fn keyword_search_candidates(resp: &Json) -> (r: Option<Vec<SearchCandidate>>)
    ensures
        field(*resp, "success"@) != Some(Json::Bool(true)) ==> r is None,
        field(*resp, "success"@) == Some(Json::Bool(true)) ==> (r matches Some(v) && candidates_model(
            v@,
        ) == candidates_of(seq![], keyword_items(list_groups(*resp)), false)),
{
    let ok = match get(resp, "success") {
        Some(Json::Bool(b)) => *b,
        _ => false,
    };
    if !ok {
        return None;
    }
    let mut out: Vec<SearchCandidate> = Vec::new();
    assert(candidates_model(out@) =~= Seq::<CandidateModel>::empty());
    let groups: Option<&Vec<(String, Json)>> = match get(resp, "result") {
        Some(r) => match get(r, "lists") {
            Some(Json::Object(g)) => Some(g),
            _ => None,
        },
        None => None,
    };
    match groups {
        Some(g) => {
            let mut i: usize = 0;
            while i < g.len()
                invariant
                    0 <= i <= g@.len(),
                    list_groups(*resp) == g@,
                    candidates_model(out@) == candidates_of(seq![], keyword_items(g@.take(i as int)), false),
                decreases g@.len() - i,
            {
                assert(g@.take(i + 1).drop_last() =~= g@.take(i as int));
                assert(g@.take(i + 1).last() == g@[i as int]);
                let empty: Vec<Json> = Vec::new();
                let items: &Vec<Json> = match &g[i].1 {
                    Json::Array(a) => a,
                    _ => &empty,
                };
                proof {
                    lemma_candidates_concat(seq![], keyword_items(g@.take(i as int)), items@, false);
                }
                collect_candidates(&mut out, items, false);
                i = i + 1;
            }
            assert(g@.take(i as int) =~= g@);
        },
        None => {
            assert(keyword_items(list_groups(*resp)) =~= Seq::<Json>::empty());
        },
    }
    Some(out)
}

/// Whether a candidate is to be completed from the device detail: it has a
/// device UUID and lacks metadata (or, when `by_code`, a name of its own).
pub open spec fn wants_detail(c: CandidateModel, by_code: bool) -> bool {
    c.1.len() > 0 && ((by_code && c.2 == c.0) || c.3 is None || c.4 is None || c.5 is None)
}

pub fn needs_detail(c: &SearchCandidate, by_code: bool) -> (r: bool)
    ensures
        r == wants_detail(candidate_model(*c), by_code),
{
    let same = str_eq(c.name.as_str(), c.id.as_str());
    !crate::eventlog::is_empty_text(&c.device_uuid) && ((by_code && same) || c.package.is_none()
        || c.manufacturer.is_none() || c.brief.is_none())
}

/// The record of a device detail response: its `result`, else the response itself.
pub open spec fn detail_record(detail: Json) -> Json {
    match field(detail, "result"@) {
        Some(r) => r,
        None => detail,
    }
}

pub open spec fn fill(v: Option<Seq<char>>, w: Option<Seq<char>>) -> Option<Seq<char>> {
    match v {
        Some(x) => Some(x),
        None => w,
    }
}

/// A candidate completed from a device detail: missing metadata from the
/// record, and, when `by_code` and the name is just the identifier, its title.
pub open spec fn enriched(c: CandidateModel, detail: Json, by_code: bool) -> CandidateModel {
    let r = detail_record(detail);
    (
        c.0,
        c.1,
        if by_code && c.2 == c.0 {
            match first_str(r, seq!["display_title"@, "title"@, "name"@]) {
                Some(n) => n,
                None => c.2,
            }
        } else {
            c.2
        },
        fill(c.3, package_name(r)),
        fill(c.4, manufacturer_name(r)),
        fill(c.5, brief_desc(r)),
    )
}

/// Completes a candidate from a device detail response (see `enriched`).
pub fn enrich_candidate(c: SearchCandidate, detail: &Json, by_code: bool) -> (r: SearchCandidate)
    ensures
        candidate_model(r) == enriched(candidate_model(c), *detail, by_code),
{
    let rec = match get(detail, "result") {
        Some(r) => r,
        None => detail,
    };
    let same = str_eq(c.name.as_str(), c.id.as_str());
    let name = if by_code && same {
        let nk = vec!["display_title", "title", "name"];
        assert(key_views(nk@) =~= seq!["display_title"@, "title"@, "name"@]);
        match first_non_empty_str(rec, &nk) {
            Some(n) => n,
            None => c.name,
        }
    } else {
        c.name
    };
    let package = match c.package {
        Some(p) => Some(p),
        None => extract_package_name(rec),
    };
    let manufacturer = match c.manufacturer {
        Some(p) => Some(p),
        None => extract_manufacturer_name(rec),
    };
    let brief = match c.brief {
        Some(p) => Some(p),
        None => extract_brief_desc(rec),
    };
    SearchCandidate { id: c.id, device_uuid: c.device_uuid, name, package, manufacturer, brief }
}

/// The search result of a candidate.
pub fn candidate_result(c: SearchCandidate) -> (r: SearchResult)
    ensures
        r.id@ == c.id@,
        r.name@ == c.name@,
        r.description@ == description_text(opt_view(c.package), opt_view(c.manufacturer), opt_view(c.brief)),
        opt_view(r.package) == opt_view(c.package),
        opt_view(r.manufacturer) == opt_view(c.manufacturer),
        r.category is None && r.price is None && r.stock is None && r.image_url is None,
{
    let description = describe(&c.package, &c.manufacturer, &c.brief);
    SearchResult {
        id: c.id,
        name: c.name,
        description,
        package: c.package,
        manufacturer: c.manufacturer,
        category: None,
        price: None,
        stock: None,
        image_url: None,
    }
}

/// A result as (id, name, description, package, manufacturer).
pub type ResultModel = (Seq<char>, Seq<char>, Seq<char>, Option<Seq<char>>, Option<Seq<char>>);

pub open spec fn result_model(r: SearchResult) -> ResultModel {
    (r.id@, r.name@, r.description@, opt_view(r.package), opt_view(r.manufacturer))
}

pub open spec fn opt_result(r: Option<SearchResult>) -> Option<ResultModel> {
    match r {
        Some(x) => Some(result_model(x)),
        None => None,
    }
}

pub open spec fn device_footprint_keys() -> Seq<Seq<char>> {
    seq!["display_title"@, "displayTitle"@, "title"@, "name"@, "package_name"@]
}

pub open spec fn or_seq(v: Option<Seq<char>>, w: Option<Seq<char>>) -> Option<Seq<char>> {
    match v {
        Some(x) => Some(x),
        None => w,
    }
}

/// Package of a manifest device: its `footprint` record's title, else the
/// title of the footprint its `Footprint` attribute names, else the package
/// found in the record or its attributes; `未知` when none is.
pub open spec fn local_package(dev: Json, titles: Seq<(String, String)>) -> Seq<char> {
    let attrs = crate::metadata::record_attrs(dev);
    let from_footprint = match field(dev, "footprint"@) {
        Some(fp) => first_str(fp, device_footprint_keys()),
        None => None,
    };
    let from_titles = match crate::bundle::uuid_ref(attrs, "Footprint"@) {
        Some(u) => match crate::table::lookup(titles, u) {
            Some(t) => Some(t@),
            None => None,
        },
        None => None,
    };
    or_unknown(or_seq(or_seq(or_seq(from_footprint, from_titles), package_name(dev)), package_name(attrs)))
}

/// The listing of a manifest device found in `source`, or none when it has no identifier.
pub open spec fn local_result(dev: Json, titles: Seq<(String, String)>, source: Seq<char>) -> Option<ResultModel> {
    match crate::metadata::preferred_id(dev) {
        None => None,
        Some(id) => if id.len() == 0 {
            None
        } else {
            let attrs = crate::metadata::record_attrs(dev);
            let package = local_package(dev, titles);
            Some(
                (
                    id,
                    crate::ident::display_name(
                        first_str(dev, seq!["display_title"@, "title"@, "name"@]),
                        id,
                        Some(package),
                    ),
                    "封装: "@ + package + " | 制造商: "@ + or_unknown(
                        or_seq(manufacturer_name(dev), manufacturer_name(attrs)),
                    ) + " | 描述: "@ + or_unknown(or_seq(brief_desc(dev), brief_desc(attrs)))
                        + " | 来源: "@ + source,
                    None,
                    None,
                ),
            )
        },
    }
}

fn or_string(v: Option<String>, w: Option<String>) -> (r: Option<String>)
    ensures
        opt_view(r) == or_seq(opt_view(v), opt_view(w)),
{
    match v {
        Some(x) => Some(x),
        None => w,
    }
}

fn local_package_of(dev: &Json, titles: &crate::table::Table<String>) -> (r: String)
    ensures
        r@ == local_package(*dev, titles.entries@),
{
    let attrs = match get(dev, "attributes") {
        Some(a) => a,
        None => dev,
    };
    let from_footprint = match get(dev, "footprint") {
        Some(fp) => {
            let k = vec!["display_title", "displayTitle", "title", "name", "package_name"];
            assert(key_views(k@) =~= device_footprint_keys());
            first_non_empty_str(fp, &k)
        },
        None => None,
    };
    let from_titles = match crate::json::get_str(attrs, "Footprint") {
        Some(s) => match crate::ident::split_uuid_first(Some(s.as_str())) {
            Some(u) => match titles.get(u.as_str()) {
                Some(t) => Some(t.clone()),
                None => None,
            },
            None => None,
        },
        None => None,
    };
    let a = or_string(from_footprint, from_titles);
    let b = or_string(a, extract_package_name(dev));
    let c = or_string(b, extract_package_name(attrs));
    match c {
        Some(p) => p,
        None => String::from_str("未知"),
    }
}

/// The listing of a manifest device (see `local_result`).
pub fn local_component_of(dev: &Json, titles: &crate::table::Table<String>, source: &str) -> (r: Option<SearchResult>)
    ensures
        opt_result(r) == local_result(*dev, titles.entries@, source@),
{
    let id = match crate::metadata::extract_preferred_local_id(dev) {
        Some(id) => id,
        None => {
            return None;
        },
    };
    if crate::eventlog::is_empty_text(&id) {
        return None;
    }
    let attrs = match get(dev, "attributes") {
        Some(a) => a,
        None => dev,
    };
    let package = local_package_of(dev, titles);
    let nk = vec!["display_title", "title", "name"];
    assert(key_views(nk@) =~= seq!["display_title"@, "title"@, "name"@]);
    let raw_name = first_non_empty_str(dev, &nk);
    let name = crate::ident::normalize_display_name(raw_name, id.as_str(), Some(package.as_str()));
    let manufacturer = or_string(extract_manufacturer_name(dev), extract_manufacturer_name(attrs));
    let brief = or_string(extract_brief_desc(dev), extract_brief_desc(attrs));
    let mut d = chars_of("封装: ");
    push_str(&mut d, package.as_str());
    push_str(&mut d, " | 制造商: ");
    push_or_unknown(&mut d, &manufacturer);
    push_str(&mut d, " | 描述: ");
    push_or_unknown(&mut d, &brief);
    push_str(&mut d, " | 来源: ");
    push_str(&mut d, source);
    Some(SearchResult {
        id,
        name,
        description: string_of(&d),
        package: None,
        manufacturer: None,
        category: None,
        price: None,
        stock: None,
        image_url: None,
    })
}

/// The listing kept under `k` after reading the manifest devices `es`: the last one known by `k`.
pub open spec fn local_results_value(
    es: Seq<(String, Json)>,
    titles: Seq<(String, String)>,
    source: Seq<char>,
    k: Seq<char>,
) -> Option<ResultModel>
    decreases es.len(),
{
    if es.len() == 0 {
        None
    } else if local_result(es.last().1, titles, source) is Some && local_result(
        es.last().1,
        titles,
        source,
    ).unwrap().0 == k {
        local_result(es.last().1, titles, source)
    } else {
        local_results_value(es.drop_last(), titles, source, k)
    }
}

/// Lists the devices of a manifest found in `source`, keyed by identifier
/// (see `local_result`); `titles` are the footprint titles by UUID.
pub fn local_components(manifest: &Json, titles: &crate::table::Table<String>, source: &str) -> (r: crate::table::Table<SearchResult>)
    ensures
        forall|k: Seq<char>|
            opt_result(#[trigger] r.value_of(k)) == local_results_value(
                crate::bundle::object_entries(*manifest, "devices"@),
                titles.entries@,
                source@,
                k,
            ),
{
    let mut out: crate::table::Table<SearchResult> = crate::table::Table::new();
    let es: &Vec<(String, Json)> = match get(manifest, "devices") {
        Some(Json::Object(es)) => es,
        _ => {
            return out;
        },
    };
    let mut i: usize = 0;
    while i < es.len()
        invariant
            0 <= i <= es@.len(),
            crate::bundle::object_entries(*manifest, "devices"@) == es@,
            forall|k: Seq<char>|
                opt_result(#[trigger] out.value_of(k)) == local_results_value(
                    es@.take(i as int),
                    titles.entries@,
                    source@,
                    k,
                ),
        decreases es@.len() - i,
    {
        assert(es@.take(i + 1).drop_last() =~= es@.take(i as int));
        assert(es@.take(i + 1).last() == es@[i as int]);
        match local_component_of(&es[i].1, titles, source) {
            Some(c) => {
                let key = c.id.clone();
                out.insert(key, c);
            },
            None => {},
        }
        i = i + 1;
    }
    assert(es@.take(i as int) =~= es@);
    out
}

/// Whether a listing only stands in for a component found in a plain file:
/// its name is its identifier, or its description names a local file.
pub open spec fn is_placeholder(r: ResultModel) -> bool {
    r.1 == r.0 || (r.2.len() >= 5 && r.2.take(5) == "本地文件:"@)
}

fn placeholder(r: &SearchResult) -> (b: bool)
    ensures
        b == is_placeholder(result_model(*r)),
{
    if str_eq(r.name.as_str(), r.id.as_str()) {
        return true;
    }
    let d = chars_of(r.description.as_str());
    let p = chars_of("本地文件:");
    proof {
        reveal_strlit("本地文件:");
        assert(p@.len() == 5);
    }
    if d.len() < p.len() {
        return false;
    }
    let mut i: usize = 0;
    while i < p.len()
        invariant
            0 <= i <= p@.len(),
            p@.len() == 5,
            p@ == "本地文件:"@,
            d@ == r.description@,
            r.name@ != r.id@,
            p@.len() <= d@.len(),
            forall|j: int| 0 <= j < i ==> d@[j] == p@[j],
        decreases p@.len() - i,
    {
        if d[i] != p[i] {
            assert(d@.take(5)[i as int] == d@[i as int]);
            assert(d@.take(5) != p@);
            return false;
        }
        i = i + 1;
    }
    assert(d@.take(5) =~= p@);
    true
}

/// Adds a listing read from an archive: it replaces a placeholder kept under
/// its identifier, and is kept when nothing is.
pub fn merge_local_entry(map: &mut crate::table::Table<SearchResult>, entry: SearchResult)
    ensures
        forall|k: Seq<char>|
            k != entry.id@ ==> #[trigger] final(map).value_of(k) == old(map).value_of(k),
        old(map).value_of(entry.id@) is None ==> final(map).value_of(entry.id@) == Some(entry),
        old(map).value_of(entry.id@) matches Some(o) ==> final(map).value_of(entry.id@) == if is_placeholder(result_model(o)) {
            Some(entry)
        } else {
            Some(o)
        },
{
    let replace = match map.get(entry.id.as_str()) {
        Some(o) => placeholder(o),
        None => true,
    };
    if replace {
        let key = entry.id.clone();
        map.insert(key, entry);
    }
}

/// The first `n` items of `s`.
pub open spec fn first_n(s: Seq<Json>, n: int) -> Seq<Json> {
    if s.len() <= n {
        s
    } else {
        s.take(n)
    }
}

/// The result of an item of the vendor's list in a device search, when it has an identifier.
pub open spec fn vendor_list_result(item: Json) -> Option<ResultModel> {
    match first_str(item, seq!["product_code"@, "productCode"@, "code"@, "uuid"@]) {
        None => None,
        Some(id) => {
            let m = or_unknown(manufacturer_name(item));
            let p = or_unknown(package_name(item));
            let b = or_unknown(brief_desc(item));
            Some(
                (
                    id,
                    match first_str(item, name_keys()) {
                        Some(n) => n,
                        None => id,
                    },
                    "封装: "@ + p + " | 制造商: "@ + m + " | 描述: "@ + b + " | 来源: EasyEDA-LCSC"@,
                    Some(p),
                    Some(m),
                ),
            )
        },
    }
}

/// Results of the items of the vendor's lists, each list cut at fifty items.
pub open spec fn vendor_list_results(groups: Seq<(String, Json)>) -> Seq<ResultModel>
    decreases groups.len(),
{
    if groups.len() == 0 {
        seq![]
    } else {
        vendor_list_results(groups.drop_last()) + match groups.last().1 {
            Json::Array(a) => results_of(first_n(a@, 50)),
            _ => seq![],
        }
    }
}

/// Results of the items that have one, in order.
pub open spec fn results_of(items: Seq<Json>) -> Seq<ResultModel>
    decreases items.len(),
{
    if items.len() == 0 {
        seq![]
    } else {
        match vendor_list_result(items.last()) {
            Some(r) => results_of(items.drop_last()).push(r),
            None => results_of(items.drop_last()),
        }
    }
}

pub open spec fn results_model(v: Seq<SearchResult>) -> Seq<ResultModel> {
    v.map_values(|r: SearchResult| result_model(r))
}

fn unknown_or(v: Option<String>) -> (r: String)
    ensures
        r@ == or_unknown(opt_view(v)),
{
    match v {
        Some(s) => s,
        None => String::from_str("未知"),
    }
}

fn vendor_list_result_of(item: &Json) -> (r: Option<SearchResult>)
    ensures
        opt_result(r) == vendor_list_result(*item),
{
    let idk = vec!["product_code", "productCode", "code", "uuid"];
    assert(key_views(idk@) =~= seq!["product_code"@, "productCode"@, "code"@, "uuid"@]);
    let id = match first_non_empty_str(item, &idk) {
        Some(id) => id,
        None => {
            return None;
        },
    };
    let nk = vec!["display_title", "title", "name", "product_name"];
    assert(key_views(nk@) =~= name_keys());
    let name = match first_non_empty_str(item, &nk) {
        Some(n) => n,
        None => id.clone(),
    };
    let m = unknown_or(extract_manufacturer_name(item));
    let p = unknown_or(extract_package_name(item));
    let b = unknown_or(extract_brief_desc(item));
    let mut d = chars_of("封装: ");
    push_str(&mut d, p.as_str());
    push_str(&mut d, " | 制造商: ");
    push_str(&mut d, m.as_str());
    push_str(&mut d, " | 描述: ");
    push_str(&mut d, b.as_str());
    push_str(&mut d, " | 来源: EasyEDA-LCSC");
    Some(SearchResult {
        id,
        name,
        description: string_of(&d),
        package: Some(p),
        manufacturer: Some(m),
        category: None,
        price: None,
        stock: None,
        image_url: None,
    })
}

fn push_results_of(out: &mut Vec<SearchResult>, items: &Vec<Json>, limit: usize)
    ensures
        results_model(final(out)@) == results_model(old(out)@) + results_of(first_n(items@, limit as int)),
{
    let n = if items.len() < limit {
        items.len()
    } else {
        limit
    };
    let ghost s = first_n(items@, limit as int);
    assert(s =~= items@.take(n as int));
    let ghost start = results_model(out@);
    let mut i: usize = 0;
    while i < n
        invariant
            0 <= i <= n <= items@.len(),
            s == items@.take(n as int),
            results_model(out@) == start + results_of(s.take(i as int)),
        decreases n - i,
    {
        assert(s.take(i + 1).drop_last() =~= s.take(i as int));
        assert(s.take(i + 1).last() == items@[i as int]);
        match vendor_list_result_of(&items[i]) {
            Some(r) => {
                let ghost prev = out@;
                out.push(r);
                assert(results_model(out@) =~= results_model(prev).push(result_model(r)));
            },
            None => {},
        }
        i = i + 1;
    }
    assert(s.take(i as int) =~= s);
}

/// Results of a device search restricted to the vendor's catalogue: none when
/// the response reports failure; else the items of its lists (see `vendor_list_results`).
pub fn vendor_list_search_results(resp: &Json) -> (r: Option<Vec<SearchResult>>)
    ensures
        field(*resp, "success"@) != Some(Json::Bool(true)) ==> r is None,
        field(*resp, "success"@) == Some(Json::Bool(true)) ==> (r matches Some(v) && results_model(v@)
            == vendor_list_results(list_groups(*resp))),
{
    let ok = match get(resp, "success") {
        Some(Json::Bool(b)) => *b,
        _ => false,
    };
    if !ok {
        return None;
    }
    let mut out: Vec<SearchResult> = Vec::new();
    assert(results_model(out@) =~= Seq::<ResultModel>::empty());
    let groups: Option<&Vec<(String, Json)>> = match get(resp, "result") {
        Some(r) => match get(r, "lists") {
            Some(Json::Object(g)) => Some(g),
            _ => None,
        },
        None => None,
    };
    match groups {
        Some(g) => {
            let mut i: usize = 0;
            while i < g.len()
                invariant
                    0 <= i <= g@.len(),
                    list_groups(*resp) == g@,
                    results_model(out@) == vendor_list_results(g@.take(i as int)),
                decreases g@.len() - i,
            {
                assert(g@.take(i + 1).drop_last() =~= g@.take(i as int));
                assert(g@.take(i + 1).last() == g@[i as int]);
                match &g[i].1 {
                    Json::Array(a) => {
                        push_results_of(&mut out, a, 50);
                    },
                    _ => {
                        assert(results_model(out@) =~= results_model(out@) + Seq::<ResultModel>::empty());
                    },
                }
                i = i + 1;
            }
            assert(g@.take(i as int) =~= g@);
        },
        None => {
            assert(vendor_list_results(list_groups(*resp)) =~= Seq::<ResultModel>::empty());
        },
    }
    Some(out)
}

/// The image address of a vendor part.
pub open spec fn image_url_of(id: Seq<char>) -> Seq<char> {
    "https://wmsc.lcsc.com/wmsc/upload/file/eec/image/"@ + id + ".jpg"@
}

/// The image address of a vendor part (see `image_url_of`).
pub fn part_image_url(id: &str) -> (r: String)
    ensures
        r@ == image_url_of(id@),
{
    let mut out = chars_of("https://wmsc.lcsc.com/wmsc/upload/file/eec/image/");
    push_str(&mut out, id);
    push_str(&mut out, ".jpg");
    string_of(&out)
}

/// Details of a product of the vendor's public search, in order: manufacturer,
/// package, stock and description, each when present.
pub open spec fn public_details(p: Json) -> Seq<Seq<char>> {
    (match first_str(p, seq!["brandNameEn"@, "brandName"@]) {
        Some(v) => seq!["制造商: "@ + v],
        None => seq![],
    }) + (match first_str(p, seq!["encap"@, "encapsulation"@, "packageType"@, "package"@]) {
        Some(v) => seq!["封装: "@ + v],
        None => seq![],
    }) + (match first_str(p, seq!["stockNumber"@, "stock"@]) {
        Some(v) => seq!["库存: "@ + v],
        None => seq![],
    }) + (match first_str(p, seq!["productDescEn"@, "productDesc"@, "productIntroEn"@, "description"@]) {
        Some(v) => seq!["描述: "@ + v],
        None => seq![],
    })
}

/// Parts joined with ` | `.
pub open spec fn joined_bar(parts: Seq<Seq<char>>) -> Seq<char>
    decreases parts.len(),
{
    if parts.len() == 0 {
        seq![]
    } else if parts.len() == 1 {
        parts[0]
    } else {
        joined_bar(parts.drop_last()) + " | "@ + parts.last()
    }
}

/// The result of a product of the vendor's public search, when it has an identifier.
pub open spec fn public_result(p: Json) -> Option<ResultModel> {
    match first_str(
        p,
        seq!["productCode"@, "product_code"@, "lcscPartNumber"@, "partNumber"@, "productModel"@],
    ) {
        None => None,
        Some(id) => Some(
            (
                id,
                match first_str(
                    p,
                    seq!["productModel"@, "productNameEn"@, "productName"@, "productDescEn"@, "productIntroEn"@],
                ) {
                    Some(n) => n,
                    None => id,
                },
                if public_details(p).len() == 0 {
                    "LCSC Public Search"@
                } else {
                    joined_bar(public_details(p))
                },
                None,
                None,
            ),
        ),
    }
}

fn push_detail(parts: &mut Vec<String>, p: &Json, keys: &Vec<&str>, label: &str)
    ensures
        views_of(final(parts)@) == views_of(old(parts)@) + match first_str(*p, key_views(keys@)) {
            Some(v) => seq![label@ + v],
            None => seq![],
        },
{
    match first_non_empty_str(p, keys) {
        Some(v) => {
            let mut c = chars_of(label);
            push_str(&mut c, v.as_str());
            let s = string_of(&c);
            let ghost prev = parts@;
            parts.push(s);
            assert(views_of(parts@) =~= views_of(prev) + seq![label@ + v@]);
        },
        None => {
            assert(views_of(parts@) =~= views_of(parts@) + Seq::<Seq<char>>::empty());
        },
    }
}

/// Joins parts with ` | `.
pub fn join_with_bars(parts: &Vec<String>) -> (r: String)
    ensures
        r@ == joined_bar(views_of(parts@)),
{
    let ghost pv = views_of(parts@);
    let mut out: Vec<char> = Vec::new();
    let mut i: usize = 0;
    while i < parts.len()
        invariant
            0 <= i <= parts@.len(),
            pv == views_of(parts@),
            out@ == joined_bar(pv.take(i as int)),
        decreases parts@.len() - i,
    {
        assert(pv.take(i + 1).drop_last() =~= pv.take(i as int));
        if i > 0 {
            push_str(&mut out, " | ");
        }
        push_str(&mut out, parts[i].as_str());
        proof {
            if i == 0 {
                assert(out@ =~= pv.take(1)[0]);
            }
        }
        i = i + 1;
    }
    assert(pv.take(i as int) =~= pv);
    string_of(&out)
}

/// Reads a product of the vendor's public search (see `public_result`); the
/// result links the part's image.
pub fn public_search_result(p: &Json) -> (r: Option<SearchResult>)
    ensures
        opt_result(r) == public_result(*p),
        r matches Some(x) ==> (x.image_url matches Some(u) && u@ == image_url_of(x.id@)),
{
    let idk = vec!["productCode", "product_code", "lcscPartNumber", "partNumber", "productModel"];
    assert(key_views(idk@) =~= seq!["productCode"@, "product_code"@, "lcscPartNumber"@, "partNumber"@, "productModel"@]);
    let id = match first_non_empty_str(p, &idk) {
        Some(id) => id,
        None => {
            return None;
        },
    };
    let nk = vec!["productModel", "productNameEn", "productName", "productDescEn", "productIntroEn"];
    assert(key_views(nk@) =~= seq!["productModel"@, "productNameEn"@, "productName"@, "productDescEn"@, "productIntroEn"@]);
    let name = match first_non_empty_str(p, &nk) {
        Some(n) => n,
        None => id.clone(),
    };
    let mut parts: Vec<String> = Vec::new();
    let k1 = vec!["brandNameEn", "brandName"];
    assert(key_views(k1@) =~= seq!["brandNameEn"@, "brandName"@]);
    push_detail(&mut parts, p, &k1, "制造商: ");
    let k2 = vec!["encap", "encapsulation", "packageType", "package"];
    assert(key_views(k2@) =~= seq!["encap"@, "encapsulation"@, "packageType"@, "package"@]);
    push_detail(&mut parts, p, &k2, "封装: ");
    let k3 = vec!["stockNumber", "stock"];
    assert(key_views(k3@) =~= seq!["stockNumber"@, "stock"@]);
    push_detail(&mut parts, p, &k3, "库存: ");
    let k4 = vec!["productDescEn", "productDesc", "productIntroEn", "description"];
    assert(key_views(k4@) =~= seq!["productDescEn"@, "productDesc"@, "productIntroEn"@, "description"@]);
    push_detail(&mut parts, p, &k4, "描述: ");
    assert(views_of(parts@) =~= public_details(*p));
    let description = if parts.len() == 0 {
        String::from_str("LCSC Public Search")
    } else {
        join_with_bars(&parts)
    };
    let image = part_image_url(id.as_str());
    Some(SearchResult {
        id,
        name,
        description,
        package: None,
        manufacturer: None,
        category: None,
        price: None,
        stock: None,
        image_url: Some(image),
    })
}

/// The result of a product of the vendor's legacy search, when it has an identifier.
pub open spec fn legacy_result(p: Json) -> Option<ResultModel> {
    match first_str(p, seq!["product_code"@, "productCode"@, "mfr_part"@, "part_number"@]) {
        None => None,
        Some(id) => {
            let package = first_str(p, seq!["package"@, "encapsulation"@, "encap"@]);
            let manufacturer = first_str(p, seq!["manufacturer"@, "brand"@, "mfr"@]);
            let brief = first_str(p, seq!["description"@, "product_name"@, "description_en"@]);
            Some(
                (
                    id,
                    match first_str(p, seq!["product_name"@, "description"@, "productName"@]) {
                        Some(n) => n,
                        None => id,
                    },
                    description_text(package, manufacturer, brief),
                    package,
                    manufacturer,
                ),
            )
        },
    }
}

/// Reads a product of the vendor's legacy search (see `legacy_result`); the
/// result links the part's image.
pub fn legacy_search_result(p: &Json) -> (r: Option<SearchResult>)
    ensures
        opt_result(r) == legacy_result(*p),
        r matches Some(x) ==> (x.image_url matches Some(u) && u@ == image_url_of(x.id@)),
{
    let idk = vec!["product_code", "productCode", "mfr_part", "part_number"];
    assert(key_views(idk@) =~= seq!["product_code"@, "productCode"@, "mfr_part"@, "part_number"@]);
    let id = match first_non_empty_str(p, &idk) {
        Some(id) => id,
        None => {
            return None;
        },
    };
    let nk = vec!["product_name", "description", "productName"];
    assert(key_views(nk@) =~= seq!["product_name"@, "description"@, "productName"@]);
    let name = match first_non_empty_str(p, &nk) {
        Some(n) => n,
        None => id.clone(),
    };
    let pk = vec!["package", "encapsulation", "encap"];
    assert(key_views(pk@) =~= seq!["package"@, "encapsulation"@, "encap"@]);
    let mk = vec!["manufacturer", "brand", "mfr"];
    assert(key_views(mk@) =~= seq!["manufacturer"@, "brand"@, "mfr"@]);
    let bk = vec!["description", "product_name", "description_en"];
    assert(key_views(bk@) =~= seq!["description"@, "product_name"@, "description_en"@]);
    let package = first_non_empty_str(p, &pk);
    let manufacturer = first_non_empty_str(p, &mk);
    let brief = first_non_empty_str(p, &bk);
    let description = describe(&package, &manufacturer, &brief);
    let image = part_image_url(id.as_str());
    Some(SearchResult {
        id,
        name,
        description,
        package,
        manufacturer,
        category: None,
        price: None,
        stock: None,
        image_url: Some(image),
    })
}

/// The products of a vendor search response found under `path` (an array), cut at twenty.
pub open spec fn products_at(resp: Json, outer: Seq<char>, inner: Option<Seq<char>>) -> Seq<Json> {
    let holder = match inner {
        Some(k) => match field(resp, outer) {
            Some(o) => field(o, k),
            None => None,
        },
        None => field(resp, outer),
    };
    match holder {
        Some(Json::Array(a)) => first_n(a@, 20),
        _ => seq![],
    }
}

pub open spec fn public_results(items: Seq<Json>) -> Seq<ResultModel>
    decreases items.len(),
{
    if items.len() == 0 {
        seq![]
    } else {
        match public_result(items.last()) {
            Some(r) => public_results(items.drop_last()).push(r),
            None => public_results(items.drop_last()),
        }
    }
}

pub open spec fn legacy_results(items: Seq<Json>) -> Seq<ResultModel>
    decreases items.len(),
{
    if items.len() == 0 {
        seq![]
    } else {
        match legacy_result(items.last()) {
            Some(r) => legacy_results(items.drop_last()).push(r),
            None => legacy_results(items.drop_last()),
        }
    }
}

fn products_of<'a>(resp: &'a Json, outer: &str, inner: Option<&str>) -> (r: Option<&'a Vec<Json>>)
    ensures
        match r {
            Some(a) => products_at(*resp, outer@, match inner { Some(k) => Some(k@), None => None }) == first_n(a@, 20),
            None => products_at(*resp, outer@, match inner { Some(k) => Some(k@), None => None }) == Seq::<Json>::empty(),
        },
{
    let holder = match inner {
        Some(k) => match get(resp, outer) {
            Some(o) => get(o, k),
            None => None,
        },
        None => get(resp, outer),
    };
    match holder {
        Some(Json::Array(a)) => Some(a),
        _ => None,
    }
}

/// Results of the vendor's public search response: the first twenty products
/// of `productSearchResultVO.productList` that have an identifier.
pub fn public_search_results(resp: &Json) -> (r: Vec<SearchResult>)
    ensures
        results_model(r@) == public_results(products_at(*resp, "productSearchResultVO"@, Some("productList"@))),
{
    let mut out: Vec<SearchResult> = Vec::new();
    let items = match products_of(resp, "productSearchResultVO", Some("productList")) {
        Some(a) => a,
        None => {
            assert(results_model(out@) =~= Seq::<ResultModel>::empty());
            return out;
        },
    };
    let n = if items.len() < 20 {
        items.len()
    } else {
        20
    };
    let ghost s = first_n(items@, 20);
    assert(s =~= items@.take(n as int));
    let mut i: usize = 0;
    assert(results_model(out@) =~= public_results(s.take(0)));
    while i < n
        invariant
            0 <= i <= n <= items@.len(),
            s == items@.take(n as int),
            results_model(out@) == public_results(s.take(i as int)),
        decreases n - i,
    {
        assert(s.take(i + 1).drop_last() =~= s.take(i as int));
        assert(s.take(i + 1).last() == items@[i as int]);
        match public_search_result(&items[i]) {
            Some(x) => {
                let ghost prev = out@;
                out.push(x);
                assert(results_model(out@) =~= results_model(prev).push(result_model(x)));
            },
            None => {},
        }
        i = i + 1;
    }
    assert(s.take(i as int) =~= s);
    out
}

/// Results of the vendor's legacy search response: the first twenty of
/// `products` that have an identifier.
pub fn legacy_search_results(resp: &Json) -> (r: Vec<SearchResult>)
    ensures
        results_model(r@) == legacy_results(products_at(*resp, "products"@, None)),
{
    let mut out: Vec<SearchResult> = Vec::new();
    let items = match products_of(resp, "products", None) {
        Some(a) => a,
        None => {
            assert(results_model(out@) =~= Seq::<ResultModel>::empty());
            return out;
        },
    };
    let n = if items.len() < 20 {
        items.len()
    } else {
        20
    };
    let ghost s = first_n(items@, 20);
    assert(s =~= items@.take(n as int));
    let mut i: usize = 0;
    assert(results_model(out@) =~= legacy_results(s.take(0)));
    while i < n
        invariant
            0 <= i <= n <= items@.len(),
            s == items@.take(n as int),
            results_model(out@) == legacy_results(s.take(i as int)),
        decreases n - i,
    {
        assert(s.take(i + 1).drop_last() =~= s.take(i as int));
        assert(s.take(i + 1).last() == items@[i as int]);
        match legacy_search_result(&items[i]) {
            Some(x) => {
                let ghost prev = out@;
                out.push(x);
                assert(results_model(out@) =~= results_model(prev).push(result_model(x)));
            },
            None => {},
        }
        i = i + 1;
    }
    assert(s.take(i as int) =~= s);
    out
}

/// The result of a search by vendor code through the legacy component lookup:
/// the code itself, named by its footprint's title, with the part's image.
pub fn legacy_component_result(query: &str, footprint_title: &str) -> (r: SearchResult)
    ensures
        r.id@ == query@,
        r.name@ == footprint_title@,
        r.description@ == Seq::<char>::empty(),
        r.package is None && r.manufacturer is None,
        r.image_url matches Some(u) && u@ == image_url_of(query@),
{
    SearchResult {
        id: query.to_string(),
        name: footprint_title.to_string(),
        description: String::new(),
        package: None,
        manufacturer: None,
        category: None,
        price: None,
        stock: None,
        image_url: Some(part_image_url(query)),
    }
}

} // verus!
