//! Decisions of a conversion run: 3D model candidates, statuses, summaries,
//! identifier preference and proxy choice.
use vstd::prelude::*;

use crate::chars::{chars_of, push_str, str_eq, string_of};
use crate::footprint::{is_text, split_record, views_of};
use crate::json::{field, get, get_str, parse_json, parsed_json, str_field, Json};
use crate::text::pieces;

verus! {

/// `s` with every element after its first occurrence removed; first
/// occurrences keep their order.
pub open spec fn dedup_all(s: Seq<Seq<char>>) -> Seq<Seq<char>>
    decreases s.len(),
{
    if s.len() == 0 {
        seq![]
    } else {
        let p = dedup_all(s.drop_last());
        if p.contains(s.last()) {
            p
        } else {
            p.push(s.last())
        }
    }
}

pub open spec fn opt_seq(v: Option<String>) -> Seq<Seq<char>> {
    match v {
        Some(s) => seq![s@],
        None => seq![],
    }
}

/// The 3D model UUIDs to try, in order: the one resolved through the device
/// record, the one embedded in the footprint, the footprint's own UUID; each
/// UUID is tried once, where it first appears.
pub open spec fn candidates(resolved: Option<String>, embedded: Option<String>, footprint_uuid: Seq<char>) -> Seq<Seq<char>> {
    dedup_all(opt_seq(resolved) + opt_seq(embedded) + seq![footprint_uuid])
}

fn contains_text(v: &Vec<String>, x: &String) -> (r: bool)
    ensures
        r == views_of(v@).contains(x@),
{
    let ghost vv = views_of(v@);
    let mut i: usize = 0;
    while i < v.len()
        invariant
            0 <= i <= v@.len(),
            vv == views_of(v@),
            forall|j: int| 0 <= j < i ==> vv[j] != x@,
        decreases v@.len() - i,
    {
        if str_eq(v[i].as_str(), x.as_str()) {
            assert(vv[i as int] == x@);
            return true;
        }
        i = i + 1;
    }
    false
}

/// Lists the 3D model UUIDs to try (see `candidates`); none is listed twice.
pub fn model_candidates(resolved: Option<String>, embedded: Option<String>, footprint_uuid: &str) -> (r: Vec<String>)
    ensures
        views_of(r@) == candidates(resolved, embedded, footprint_uuid@),
        forall|i: int, j: int| 0 <= i < j < r@.len() ==> r@[i]@ != r@[j]@,
{
    let ghost raw = opt_seq(resolved) + opt_seq(embedded) + seq![footprint_uuid@];
    let mut all: Vec<String> = Vec::new();
    match resolved {
        Some(s) => {
            all.push(s);
        },
        None => {},
    }
    match embedded {
        Some(s) => {
            all.push(s);
        },
        None => {},
    }
    all.push(footprint_uuid.to_string());
    assert(views_of(all@) =~= raw);
    let mut out: Vec<String> = Vec::new();
    let mut i: usize = 0;
    while i < all.len()
        invariant
            0 <= i <= all@.len(),
            views_of(all@) == raw,
            views_of(out@) == dedup_all(raw.take(i as int)),
            forall|a: int, b: int| 0 <= a < b < out@.len() ==> out@[a]@ != out@[b]@,
        decreases all@.len() - i,
    {
        assert(raw.take(i + 1).drop_last() =~= raw.take(i as int));
        assert(raw.take(i + 1).last() == all@[i as int]@);
        if !contains_text(&out, &all[i]) {
            let s = all[i].clone();
            let ghost prev = out@;
            out.push(s);
            assert(views_of(out@) =~= views_of(prev).push(s@));
            assert forall|a: int, b: int| 0 <= a < b < out@.len() implies out@[a]@ != out@[b]@ by {
                if b == out@.len() - 1 {
                    assert(views_of(prev)[a] == prev[a]@);
                }
            }
        }
        i = i + 1;
    }
    assert(raw.take(i as int) =~= raw);
    out
}

/// The model UUID embedded in an `SVGNODE` record: its `attrs.uuid` string.
pub open spec fn svg_uuid(line: Seq<char>) -> Option<Seq<char>> {
    let t = pieces(line, '~');
    if t.len() >= 2 && t[0] == "SVGNODE"@ {
        match parsed_json(t[1]) {
            Some(j) => match field(j, "attrs"@) {
                Some(a) => str_field(a, "uuid"@),
                None => None,
            },
            None => None,
        }
    } else {
        None
    }
}

/// The model UUID of the first `SVGNODE` record that carries one.
pub open spec fn first_svg_uuid(lines: Seq<Seq<char>>) -> Option<Seq<char>>
    decreases lines.len(),
{
    if lines.len() == 0 {
        None
    } else if svg_uuid(lines[0]) is Some {
        svg_uuid(lines[0])
    } else {
        first_svg_uuid(lines.drop_first())
    }
}

fn svg_uuid_of(line: &String) -> (r: Option<String>)
    ensures
        match svg_uuid(line@) {
            Some(u) => r matches Some(s) && s@ == u,
            None => r is None,
        },
{
    let t = split_record(line.as_str());
    if t.len() < 2 || !is_text(&t[0], "SVGNODE") {
        return None;
    }
    match parse_json(t[1].as_str()) {
        Some(j) => match get(&j, "attrs") {
            Some(a) => match get_str(a, "uuid") {
                Some(u) => Some(u.clone()),
                None => None,
            },
            None => None,
        },
        None => None,
    }
}

/// Finds the 3D model UUID embedded in a footprint's shape records (see `first_svg_uuid`).
pub fn extract_model_uuid_from_shape(shape: &Vec<String>) -> (r: Option<String>)
    ensures
        match first_svg_uuid(views_of(shape@)) {
            Some(u) => r matches Some(s) && s@ == u,
            None => r is None,
        },
{
    let ghost lines = views_of(shape@);
    let mut i: usize = 0;
    assert(lines.skip(0) =~= lines);
    while i < shape.len()
        invariant
            0 <= i <= shape@.len(),
            lines == views_of(shape@),
            first_svg_uuid(lines) == first_svg_uuid(lines.skip(i as int)),
        decreases shape@.len() - i,
    {
        assert(lines.skip(i as int).drop_first() =~= lines.skip(i + 1));
        assert(lines.skip(i as int)[0] == shape@[i as int]@);
        match svg_uuid_of(&shape[i]) {
            Some(u) => {
                return Some(u);
            },
            None => {},
        }
        i = i + 1;
    }
    None
}

/// Status of the 3D model of a conversion.
pub open spec fn status_text(downloaded: bool, requested: bool) -> Seq<char> {
    if downloaded {
        "downloaded"@
    } else if requested {
        "failed"@
    } else {
        "skipped"@
    }
}

/// The 3D model status: downloaded, else failed when models were requested, else skipped.
pub fn model_status(downloaded: bool, requested: bool) -> (r: &'static str)
    ensures
        r@ == status_text(downloaded, requested),
{
    if downloaded {
        "downloaded"
    } else if requested {
        "failed"
    } else {
        "skipped"
    }
}

pub open spec fn created_text(b: bool) -> Seq<char> {
    if b {
        "created"@
    } else {
        "skipped"@
    }
}

/// The report of a component conversion; the model error is shown only when
/// the model failed.
pub open spec fn summary_text(
    id: Seq<char>,
    footprint: bool,
    symbol: bool,
    downloaded: bool,
    requested: bool,
    error: Option<Seq<char>>,
) -> Seq<char> {
    "Component "@ + id + " created successfully!\nFootprint: "@ + created_text(footprint)
        + "\nSymbol: "@ + created_text(symbol) + "\n3D Model: "@ + status_text(downloaded, requested)
        + (if !downloaded && requested && error is Some {
        "\n3D Error: "@ + error.unwrap()
    } else {
        seq![]
    })
}

/// Writes the report of a component conversion (see `summary_text`).
pub fn component_summary(
    component_id: &str,
    create_footprint: bool,
    create_symbol: bool,
    downloaded: bool,
    models_requested: bool,
    model_error: Option<String>,
) -> (r: String)
    ensures
        r@ == summary_text(
            component_id@,
            create_footprint,
            create_symbol,
            downloaded,
            models_requested,
            crate::bundle::opt_view(model_error),
        ),
{
    let mut out = chars_of("Component ");
    push_str(&mut out, component_id);
    push_str(&mut out, " created successfully!\nFootprint: ");
    push_str(&mut out, if create_footprint { "created" } else { "skipped" });
    push_str(&mut out, "\nSymbol: ");
    push_str(&mut out, if create_symbol { "created" } else { "skipped" });
    push_str(&mut out, "\n3D Model: ");
    push_str(&mut out, model_status(downloaded, models_requested));
    let ghost before = out@;
    if !downloaded && models_requested {
        match &model_error {
            Some(e) => {
                push_str(&mut out, "\n3D Error: ");
                push_str(&mut out, e.as_str());
            },
            None => {},
        }
    }
    assert(out@ =~= summary_text(
        component_id@,
        create_footprint,
        create_symbol,
        downloaded,
        models_requested,
        crate::bundle::opt_view(model_error),
    ));
    string_of(&out)
}

pub open spec fn is_vendor_like(id: Seq<char>) -> bool {
    id.len() > 0 && (id[0] == 'c' || id[0] == 'C')
}

/// Identifiers to convert: when any looks like a vendor code, only those; else all.
pub open spec fn preferred_ids(ids: Seq<Seq<char>>) -> Seq<Seq<char>> {
    if exists|i: int| 0 <= i < ids.len() && is_vendor_like(#[trigger] ids[i]) {
        ids.filter(|id: Seq<char>| is_vendor_like(id))
    } else {
        ids
    }
}

fn vendor_like(s: &String) -> (r: bool)
    ensures
        r == is_vendor_like(s@),
{
    let c = chars_of(s.as_str());
    c.len() > 0 && (c[0] == 'c' || c[0] == 'C')
}

/// Keeps the vendor-code identifiers when there are any (see `preferred_ids`).
pub fn prefer_vendor_codes(ids: Vec<String>) -> (r: Vec<String>)
    ensures
        views_of(r@) == preferred_ids(views_of(ids@)),
{
    let ghost v = views_of(ids@);
    let mut kept: Vec<String> = Vec::new();
    let mut i: usize = 0;
    while i < ids.len()
        invariant
            0 <= i <= ids@.len(),
            v == views_of(ids@),
            views_of(kept@) == v.take(i as int).filter(|id: Seq<char>| is_vendor_like(id)),
        decreases ids@.len() - i,
    {
        proof {
            assert(v.take(i + 1).drop_last() =~= v.take(i as int));
            reveal(Seq::filter);
        }
        if vendor_like(&ids[i]) {
            let s = ids[i].clone();
            let ghost prev = kept@;
            kept.push(s);
            assert(views_of(kept@) =~= views_of(prev).push(s@));
        }
        assert(views_of(kept@) =~= v.take(i + 1).filter(|id: Seq<char>| is_vendor_like(id)));
        i = i + 1;
    }
    assert(v.take(i as int) =~= v);
    if kept.len() > 0 {
        proof {
            let p = |id: Seq<char>| is_vendor_like(id);
            let f = v.filter(p);
            assert(f.len() > 0);
            v.lemma_filter_pred(p, 0);
            assert(f.contains(f[0]));
            v.lemma_filter_contains_rev(p, f[0]);
            let j = choose|j: int| 0 <= j < v.len() && v[j] == f[0];
            assert(is_vendor_like(v[j]));
        }
        kept
    } else {
        proof {
            if exists|i: int| 0 <= i < v.len() && is_vendor_like(#[trigger] v[i]) {
                let j = choose|i: int| 0 <= i < v.len() && is_vendor_like(#[trigger] v[i]);
                v.lemma_filter_contains(|id: Seq<char>| is_vendor_like(id), j);
            }
        }
        ids
    }
}

/// The UUID of the first device of a search by codes: `result[0].uuid`.
pub open spec fn first_device_uuid(resp: Json) -> Option<Seq<char>> {
    match field(resp, "result"@) {
        Some(Json::Array(a)) => if a@.len() > 0 {
            str_field(a@[0], "uuid"@)
        } else {
            None
        },
        _ => None,
    }
}

/// Reads the UUID of the first device of a search by codes (see `first_device_uuid`).
pub fn first_device_uuid_of(resp: &Json) -> (r: Option<String>)
    ensures
        crate::bundle::opt_view(r) == first_device_uuid(*resp),
{
    match get(resp, "result") {
        Some(Json::Array(a)) => {
            if a.len() > 0 {
                match get_str(&a[0], "uuid") {
                    Some(u) => Some(u.clone()),
                    None => None,
                }
            } else {
                None
            }
        },
        _ => None,
    }
}

/// The 3D model a device record names: `result.attributes["3D Model"]` before any `|`.
pub open spec fn device_model_uuid(detail: Json) -> Option<Seq<char>> {
    match field(detail, "result"@) {
        Some(r) => match field(r, "attributes"@) {
            Some(a) => match str_field(a, "3D Model"@) {
                Some(m) => Some(crate::text::before(m, '|')),
                None => None,
            },
            None => None,
        },
        None => None,
    }
}

/// Reads the 3D model a device record names (see `device_model_uuid`).
pub fn device_model_uuid_of(detail: &Json) -> (r: Option<String>)
    ensures
        crate::bundle::opt_view(r) == device_model_uuid(*detail),
{
    match get(detail, "result") {
        Some(r) => match get(r, "attributes") {
            Some(a) => match get_str(a, "3D Model") {
                Some(m) => Some(crate::ident::uuid_first_part(m.as_str())),
                None => None,
            },
            None => None,
        },
        None => None,
    }
}

/// The model file a 3D model component names: the `model` string of the JSON
/// text in its `result.dataStr`.
pub open spec fn component_model_uuid(model: Json) -> Option<Seq<char>> {
    match field(model, "result"@) {
        Some(r) => match str_field(r, "dataStr"@) {
            Some(ds) => match parsed_json(ds) {
                Some(v) => str_field(v, "model"@),
                None => None,
            },
            None => None,
        },
        None => None,
    }
}

/// Reads the model file a 3D model component names (see `component_model_uuid`).
pub fn component_model_uuid_of(model: &Json) -> (r: Option<String>)
    ensures
        crate::bundle::opt_view(r) == component_model_uuid(*model),
{
    match get(model, "result") {
        Some(r) => match get_str(r, "dataStr") {
            Some(ds) => match parse_json(ds.as_str()) {
                Some(v) => match get_str(&v, "model") {
                    Some(m) => Some(m.clone()),
                    None => None,
                },
                None => None,
            },
            None => None,
        },
        None => None,
    }
}

/// Lines joined with `\n`.
pub open spec fn joined_lines(parts: Seq<Seq<char>>) -> Seq<char> {
    crate::eventlog::join_lines(parts)
}

/// The report of a batch conversion under `head`: the count of successes, and
/// either the library file written or the failures one per line.
pub open spec fn batch_text(head: Seq<char>, success: int, failed: Seq<Seq<char>>, library: Option<Seq<char>>) -> Seq<char> {
    if failed.len() == 0 {
        head + "，成功 "@ + crate::num::int_text(success) + " 个元件"@ + match library {
            Some(l) => "\n器件库文件: "@ + l,
            None => seq![],
        }
    } else {
        head + "，成功 "@ + crate::num::int_text(success) + " 个，失败 "@ + crate::num::int_text(
            failed.len() as int,
        ) + " 个\n"@ + joined_lines(failed)
    }
}

/// Writes the report of a batch conversion (see `batch_text`).
pub fn batch_summary(head: &str, success: usize, failed: &Vec<String>, library: Option<&str>) -> (r: String)
    ensures
        r@ == batch_text(
            head@,
            success as int,
            views_of(failed@),
            match library {
                Some(l) => Some(l@),
                None => None,
            },
        ),
{
    let mut out = chars_of(head);
    push_str(&mut out, "，成功 ");
    crate::num::push_count(&mut out, success);
    if failed.len() == 0 {
        push_str(&mut out, " 个元件");
        match library {
            Some(l) => {
                push_str(&mut out, "\n器件库文件: ");
                push_str(&mut out, l);
            },
            None => {},
        }
    } else {
        push_str(&mut out, " 个，失败 ");
        crate::num::push_count(&mut out, failed.len());
        push_str(&mut out, " 个\n");
        let j = crate::eventlog::join_with_newlines(failed);
        push_str(&mut out, j.as_str());
    }
    let ghost lib = match library {
        Some(l) => Some(l@),
        None => None::<Seq<char>>,
    };
    assert(out@ =~= batch_text(head@, success as int, views_of(failed@), lib));
    string_of(&out)
}

/// The kind of local bundle, by extension: that of the path when it names an
/// archive, else `elibz2` when any file is one, else `elibz`.
pub open spec fn bundle_kind_of(path_ext: Seq<char>, file_exts: Seq<Seq<char>>) -> Seq<char> {
    if crate::eventlog::lower(path_ext) == "elibz2"@ {
        "elibz2"@
    } else if crate::eventlog::lower(path_ext) == "elibz"@ {
        "elibz"@
    } else if exists|i: int| 0 <= i < file_exts.len() && crate::eventlog::lower(#[trigger] file_exts[i]) == "elibz2"@ {
        "elibz2"@
    } else {
        "elibz"@
    }
}

/// Detects the kind of local bundle (see `bundle_kind_of`); `path_ext` is the
/// extension of the path when it is a file, else empty.
pub fn detect_local_bundle_kind(path_ext: &String, file_exts: &Vec<String>) -> (r: &'static str)
    ensures
        r@ == bundle_kind_of(path_ext@, views_of(file_exts@)),
{
    if crate::eventlog::is_ascii_ci(path_ext, "elibz2") {
        return "elibz2";
    }
    if crate::eventlog::is_ascii_ci(path_ext, "elibz") {
        return "elibz";
    }
    let ghost fv = views_of(file_exts@);
    let mut i: usize = 0;
    while i < file_exts.len()
        invariant
            0 <= i <= file_exts@.len(),
            fv == views_of(file_exts@),
            crate::eventlog::lower(path_ext@) != "elibz2"@,
            crate::eventlog::lower(path_ext@) != "elibz"@,
            forall|j: int| 0 <= j < i ==> crate::eventlog::lower(#[trigger] fv[j]) != "elibz2"@,
        decreases file_exts@.len() - i,
    {
        if crate::eventlog::is_ascii_ci(&file_exts[i], "elibz2") {
            assert(crate::eventlog::lower(fv[i as int]) == "elibz2"@);
            return "elibz2";
        }
        i = i + 1;
    }
    "elibz"
}

pub open spec fn strip_cr(l: Seq<char>) -> Seq<char> {
    if l.len() > 0 && l.last() == '\r' {
        l.drop_last()
    } else {
        l
    }
}

/// Splitting `s` into lines: the finished lines, and the line in progress.
pub open spec fn line_state(s: Seq<char>) -> (Seq<Seq<char>>, Seq<char>)
    decreases s.len(),
{
    if s.len() == 0 {
        (seq![], seq![])
    } else {
        let p = line_state(s.drop_last());
        if s.last() == '\n' {
            (p.0.push(strip_cr(p.1)), seq![])
        } else {
            (p.0, p.1.push(s.last()))
        }
    }
}

/// The lines of `s`: split at `\n`, a `\r` before it dropped, no empty line after a final `\n`.
pub open spec fn text_lines(s: Seq<char>) -> Seq<Seq<char>> {
    let st = line_state(s);
    if st.1.len() > 0 {
        st.0.push(st.1)
    } else {
        st.0
    }
}

/// A line that declares a model, after its leading white space.
pub open spec fn is_model_line(l: Seq<char>) -> bool {
    let t = l.skip(crate::text::leading_spaces(l) as int);
    t.len() >= 7 && t.take(7) == "(model "@
}

/// The lines that declare no model, each ended by `\n`.
pub open spec fn kept_lines(ls: Seq<Seq<char>>) -> Seq<char>
    decreases ls.len(),
{
    if ls.len() == 0 {
        seq![]
    } else {
        kept_lines(ls.drop_last()) + (if is_model_line(ls.last()) {
            seq![]
        } else {
            ls.last() + "\n"@
        })
    }
}

/// The last position below `n` where `t` occurs in `s`.
pub open spec fn last_match(s: Seq<char>, t: Seq<char>, n: int) -> Option<int>
    decreases n,
{
    if n <= 0 {
        None
    } else if n - 1 + t.len() <= s.len() && s.subrange(n - 1, n - 1 + t.len()) == t {
        Some(n - 1)
    } else {
        last_match(s, t, n - 1)
    }
}

/// The last position where `t` occurs in `s`.
pub open spec fn find_last(s: Seq<char>, t: Seq<char>) -> Option<int> {
    last_match(s, t, s.len() as int + 1)
}

pub open spec fn model_line_text(model_ref: Seq<char>) -> Seq<char> {
    "  (model "@ + model_ref + " (at (xyz 0 0 0)) (rotate (xyz 0 0 0)))\n"@
}

pub open spec fn insert_at(s: Seq<char>, i: int, x: Seq<char>) -> Seq<char> {
    s.take(i) + x + s.skip(i)
}

/// A footprint file that refers to the model `model_ref`: unchanged when it
/// already does; else without its model lines, with the new model line before
/// the closing of the footprint (or at the end when that is not found).
pub open spec fn with_model(content: Seq<char>, model_ref: Seq<char>) -> Seq<char> {
    if find_last(content, "(model "@ + model_ref) is Some {
        content
    } else {
        let f = kept_lines(text_lines(content));
        let line = model_line_text(model_ref);
        match find_last(f, "\n  )\n)\n"@) {
            Some(p) => insert_at(f, p + 1, line),
            None => match find_last(f, "\n)\n"@) {
                Some(p) => insert_at(f, p + 1, line),
                None => f + line,
            },
        }
    }
}

fn matches_at(s: &Vec<char>, t: &Vec<char>, i: usize) -> (r: bool)
    requires
        i + t@.len() <= s@.len(),
    ensures
        r == (s@.subrange(i as int, i + t@.len()) == t@),
{
    let n = s.len();
    let mut j: usize = 0;
    while j < t.len()
        invariant
            0 <= j <= t@.len(),
            i + t@.len() <= s@.len(),
            n == s@.len(),
            forall|k: int| 0 <= k < j ==> s@[i + k] == t@[k],
        decreases t@.len() - j,
    {
        assert(i + j < n);
        if s[i + j] != t[j] {
            assert(s@.subrange(i as int, i + t@.len())[j as int] == s@[i + j]);
            return false;
        }
        j = j + 1;
    }
    assert(s@.subrange(i as int, i + t@.len()) =~= t@);
    true
}

proof fn lemma_last_match_tail(s: Seq<char>, t: Seq<char>, n: int, m: int)
    requires
        0 <= m <= n,
        m + t.len() > s.len(),
    ensures
        last_match(s, t, n) == last_match(s, t, m),
    decreases n - m,
{
    if n > m {
        lemma_last_match_tail(s, t, n - 1, m);
    }
}

/// Finds the last position where `t` occurs in `s` (see `find_last`).
pub fn find_last_of(s: &Vec<char>, t: &Vec<char>) -> (r: Option<usize>)
    ensures
        match find_last(s@, t@) {
            Some(p) => r matches Some(q) && q == p,
            None => r is None,
        },
{
    let n = s.len();
    if t.len() == 0 {
        assert(s@.subrange(n as int, n as int) =~= t@);
        return Some(n);
    }
    if t.len() > n {
        proof {
            lemma_last_match_tail(s@, t@, n as int + 1, 0);
        }
        return None;
    }
    let m = n - t.len();
    let mut found: Option<usize> = None;
    let mut i: usize = 0;
    while i <= m
        invariant
            0 <= i <= m + 1,
            t@.len() >= 1,
            m + t@.len() == n,
            n == s@.len(),
            match last_match(s@, t@, i as int) {
                Some(p) => found matches Some(q) && q == p,
                None => found is None,
            },
        decreases m + 1 - i,
    {
        if matches_at(s, t, i) {
            found = Some(i);
        }
        i = i + 1;
    }
    proof {
        lemma_last_match_tail(s@, t@, n as int + 1, m as int + 1);
    }
    found
}

fn lines_of(s: &Vec<char>) -> (r: Vec<Vec<char>>)
    ensures
        crate::text::views(r@) == text_lines(s@),
{
    let mut done: Vec<Vec<char>> = Vec::new();
    let mut cur: Vec<char> = Vec::new();
    let mut i: usize = 0;
    while i < s.len()
        invariant
            0 <= i <= s@.len(),
            crate::text::views(done@) == line_state(s@.take(i as int)).0,
            cur@ == line_state(s@.take(i as int)).1,
        decreases s@.len() - i,
    {
        assert(s@.take(i + 1).drop_last() =~= s@.take(i as int));
        if s[i] == '\n' {
            let mut line = cur;
            if line.len() > 0 && line[line.len() - 1] == '\r' {
                line.pop();
            }
            let ghost prev = done@;
            let ghost lv = line@;
            done.push(line);
            assert(crate::text::views(done@) =~= crate::text::views(prev).push(lv));
            cur = Vec::new();
        } else {
            cur.push(s[i]);
        }
        i = i + 1;
    }
    assert(s@.take(i as int) =~= s@);
    if cur.len() > 0 {
        let ghost prev = done@;
        let ghost cv = cur@;
        done.push(cur);
        assert(crate::text::views(done@) =~= crate::text::views(prev).push(cv));
    }
    done
}

fn model_line_check(l: &Vec<char>) -> (r: bool)
    ensures
        r == is_model_line(l@),
{
    let mut i: usize = 0;
    while i < l.len() && crate::text::is_space_char(l[i])
        invariant
            0 <= i <= l@.len(),
            forall|j: int| 0 <= j < i ==> crate::text::is_space(#[trigger] l@[j]),
        decreases l@.len() - i,
    {
        i = i + 1;
    }
    proof {
        lemma_leading_spaces_at(l@, i as int);
    }
    let p = chars_of("(model ");
    proof {
        reveal_strlit("(model ");
        assert(p@.len() == 7);
    }
    if l.len() - i < 7 {
        return false;
    }
    let r = matches_at(l, &p, i);
    assert(l@.subrange(i as int, i + 7) =~= l@.skip(i as int).take(7));
    r
}

proof fn lemma_leading_spaces_at(s: Seq<char>, k: int)
    requires
        0 <= k <= s.len(),
        forall|j: int| 0 <= j < k ==> crate::text::is_space(#[trigger] s[j]),
        k == s.len() || !crate::text::is_space(s[k]),
    ensures
        crate::text::leading_spaces(s) == k,
    decreases k,
{
    if k > 0 {
        let t = s.drop_first();
        assert forall|j: int| 0 <= j < k - 1 implies crate::text::is_space(#[trigger] t[j]) by {
            assert(t[j] == s[j + 1]);
        }
        lemma_leading_spaces_at(t, k - 1);
    }
}

/// Makes a footprint file refer to the model `model_ref` (see `with_model`).
pub fn inject_model_line(content: &str, model_ref: &str) -> (r: String)
    ensures
        r@ == with_model(content@, model_ref@),
{
    let c = chars_of(content);
    let mut needle = chars_of("(model ");
    push_str(&mut needle, model_ref);
    if find_last_of(&c, &needle).is_some() {
        return content.to_string();
    }
    let lines = lines_of(&c);
    let ghost lv = crate::text::views(lines@);
    let mut f: Vec<char> = Vec::new();
    let mut i: usize = 0;
    while i < lines.len()
        invariant
            0 <= i <= lines@.len(),
            lv == crate::text::views(lines@),
            f@ == kept_lines(lv.take(i as int)),
        decreases lines@.len() - i,
    {
        assert(lv.take(i + 1).drop_last() =~= lv.take(i as int));
        assert(lv[i as int] == lines@[i as int]@);
        let ghost before = f@;
        if !model_line_check(&lines[i]) {
            crate::chars::push_chars(&mut f, &lines[i]);
            push_str(&mut f, "\n");
        }
        assert(f@ =~= kept_lines(lv.take(i + 1)));
        i = i + 1;
    }
    assert(lv.take(i as int) =~= lv);
    let mut line = chars_of("  (model ");
    push_str(&mut line, model_ref);
    push_str(&mut line, " (at (xyz 0 0 0)) (rotate (xyz 0 0 0)))\n");
    let close1 = chars_of("\n  )\n)\n");
    let close2 = chars_of("\n)\n");
    let pos = match find_last_of(&f, &close1) {
        Some(p) => Some(p),
        None => find_last_of(&f, &close2),
    };
    let mut out: Vec<char> = Vec::new();
    let flen = f.len();
    match pos {
        Some(p) => {
            proof {
                reveal_strlit("\n  )\n)\n");
                reveal_strlit("\n)\n");
                assert(close1@.len() == 7 && close2@.len() == 3);
                lemma_last_match_bound(f@, close1@, f@.len() as int + 1);
                lemma_last_match_bound(f@, close2@, f@.len() as int + 1);
                assert(p + 1 <= f@.len());
                assert(p + 1 <= flen);
            }
            let end = p + 1;
            let mut k: usize = 0;
            while k < end
                invariant
                    0 <= k <= end <= f@.len(),
                    end == p + 1,
                    out@ == f@.take(k as int),
                decreases end - k,
            {
                out.push(f[k]);
                assert(out@ =~= f@.take(k + 1));
                k = k + 1;
            }
            crate::chars::push_chars(&mut out, &line);
            let mut k2: usize = end;
            let ghost mid = out@;
            while k2 < f.len()
                invariant
                    p + 1 <= k2 <= f@.len(),
                    out@ == mid + f@.subrange(p + 1, k2 as int),
                decreases f@.len() - k2,
            {
                out.push(f[k2]);
                assert(out@ =~= mid + f@.subrange(p + 1, k2 + 1));
                k2 = k2 + 1;
            }
            assert(f@.subrange(p + 1, k2 as int) =~= f@.skip(p + 1));
        },
        None => {
            crate::chars::push_chars(&mut out, &f);
            crate::chars::push_chars(&mut out, &line);
        },
    }
    string_of(&out)
}

proof fn lemma_last_match_bound(s: Seq<char>, t: Seq<char>, n: int)
    requires
        t.len() >= 1,
    ensures
        last_match(s, t, n) matches Some(p) ==> p + 1 <= s.len(),
    decreases n,
{
    if n > 0 {
        lemma_last_match_bound(s, t, n - 1);
    }
}

/// Whether an offline bundle can serve a conversion: it holds footprint
/// geometry when footprints are wanted, and symbol geometry when symbols are.
pub fn offline_usable(has_footprints: bool, has_symbols: bool, create_footprint: bool, create_symbol: bool) -> (r: bool)
    ensures
        r == !((create_footprint && !has_footprints) || (create_symbol && !has_symbols)),
{
    !((create_footprint && !has_footprints) || (create_symbol && !has_symbols))
}

/// Head of the report of a local conversion: plain without a bundle; noting
/// the online completion when the bundle cannot serve it; else naming the bundle kind.
pub open spec fn batch_head_text(bundle_found: bool, usable: bool, kind: Seq<char>) -> Seq<char> {
    if !bundle_found {
        "本地转换完成"@
    } else if !usable {
        "本地转换完成（检测到 elibz2，已使用在线补全）"@
    } else {
        "本地离线转换完成（"@ + kind + "）"@
    }
}

/// Writes the head of the report of a local conversion (see `batch_head_text`).
pub fn batch_head(bundle_found: bool, usable: bool, kind: &str) -> (r: String)
    ensures
        r@ == batch_head_text(bundle_found, usable, kind@),
{
    if !bundle_found {
        String::from_str("本地转换完成")
    } else if !usable {
        String::from_str("本地转换完成（检测到 elibz2，已使用在线补全）")
    } else {
        let mut out = chars_of("本地离线转换完成（");
        push_str(&mut out, kind);
        push_str(&mut out, "）");
        string_of(&out)
    }
}

/// The next step of converting one device of an offline bundle.
#[derive(Debug)]
pub enum DeviceAction {
    /// Write the device's footprint from the bundle.
    WriteFootprint,
    /// Fetch the device's 3D model online.
    DownloadModel,
    /// Done: a success, or a failure with its report line.
    Finish(Option<String>),
}

pub open spec fn finish_line(a: DeviceAction) -> Option<Option<Seq<char>>> {
    match a {
        DeviceAction::Finish(m) => Some(crate::bundle::opt_view(m)),
        _ => None,
    }
}

/// The first step for a device: a report when the bundle lacks it; else its
/// footprint when footprints are wanted; else its model when only models are;
/// else nothing is left to do.
pub fn device_first_action(
    found: bool,
    id: &str,
    create_footprint: bool,
    wants_step: bool,
    create_symbol: bool,
) -> (r: DeviceAction)
    ensures
        !found ==> finish_line(r) == Some(Some(id@ + ": 本地库缺少 device 元数据"@)),
        found && create_footprint ==> r is WriteFootprint,
        found && !create_footprint && wants_step && !create_symbol ==> r is DownloadModel,
        found && !create_footprint && !(wants_step && !create_symbol) ==> finish_line(r) == Some(
            None::<Seq<char>>,
        ),
{
    if !found {
        let mut m = chars_of(id);
        push_str(&mut m, ": 本地库缺少 device 元数据");
        DeviceAction::Finish(Some(string_of(&m)))
    } else if create_footprint {
        DeviceAction::WriteFootprint
    } else if wants_step && !create_symbol {
        DeviceAction::DownloadModel
    } else {
        DeviceAction::Finish(None)
    }
}

/// The step after writing a device's footprint: a report of its error; else
/// the model when models are wanted; else done.
pub fn after_footprint(id: &str, error: Option<String>, wants_step: bool) -> (r: DeviceAction)
    ensures
        error matches Some(e) ==> finish_line(r) == Some(Some(id@ + ": "@ + e@)),
        error is None && wants_step ==> r is DownloadModel,
        error is None && !wants_step ==> finish_line(r) == Some(None::<Seq<char>>),
{
    match error {
        Some(e) => {
            let mut m = chars_of(id);
            push_str(&mut m, ": ");
            push_str(&mut m, e.as_str());
            DeviceAction::Finish(Some(string_of(&m)))
        },
        None => if wants_step {
            DeviceAction::DownloadModel
        } else {
            DeviceAction::Finish(None)
        },
    }
}

/// The report of a model download: none on success; else a line naming the
/// device and the error, noting whether its footprint was written first.
pub fn after_download(id: &str, error: Option<String>, footprint_written: bool) -> (r: Option<String>)
    ensures
        error is None ==> r is None,
        error matches Some(e) ==> (r matches Some(m) && m@ == id@ + (if footprint_written {
            ": 封装已导出，但在线拉取3D失败: "@
        } else {
            ": 在线拉取3D失败: "@
        }) + e@),
{
    match error {
        None => None,
        Some(e) => {
            let mut m = chars_of(id);
            if footprint_written {
                push_str(&mut m, ": 封装已导出，但在线拉取3D失败: ");
            } else {
                push_str(&mut m, ": 在线拉取3D失败: ");
            }
            push_str(&mut m, e.as_str());
            Some(string_of(&m))
        },
    }
}

} // verus!
