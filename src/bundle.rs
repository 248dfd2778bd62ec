//! The offline bundle: devices, geometry payloads and titles read from local archives.
use vstd::prelude::*;

use crate::chars::{chars_of, str_eq, string_of};
use crate::eventlog::{docs_model, replay_event_log, DocModel, ElibuDocument};
use crate::footprint::views_of;
use crate::json::{field, get, get_str, json_text_of, json_to_string, parse_json, parsed_json, str_field, Json};
use crate::table::{lookup, Table};
use crate::error::JlcError;
use crate::text::{before, before_char, trim, trim_chars};

verus! {

/// A device of an offline bundle.
pub struct OfflineDevice {
    pub id: String,
    pub name: String,
    pub footprint_uuid: Option<String>,
    pub symbol_uuids: Vec<String>,
    pub model_title: Option<String>,
}

/// What the local archives hold: devices by identifier, geometry payloads by
/// footprint and symbol UUID, titles by UUID and reference prefixes by symbol UUID.
pub struct OfflineBundle {
    pub devices: Table<OfflineDevice>,
    pub footprint_data: Table<String>,
    pub symbol_data: Table<String>,
    pub footprint_titles: Table<String>,
    pub symbol_titles: Table<String>,
    pub symbol_prefix: Table<String>,
}

pub open spec fn opt_view(v: Option<String>) -> Option<Seq<char>> {
    match v {
        Some(s) => Some(s@),
        None => None,
    }
}

impl OfflineDevice {
    /// A copy of the device.
    pub fn duplicate(&self) -> (r: OfflineDevice)
        ensures
            device_model(r) == device_model(*self),
    {
        let mut uuids: Vec<String> = Vec::new();
        let mut i: usize = 0;
        while i < self.symbol_uuids.len()
            invariant
                0 <= i <= self.symbol_uuids@.len(),
                views_of(uuids@) == views_of(self.symbol_uuids@).take(i as int),
            decreases self.symbol_uuids@.len() - i,
        {
            let u = self.symbol_uuids[i].clone();
            let ghost prev = uuids@;
            uuids.push(u);
            assert(views_of(uuids@) =~= views_of(prev).push(u@));
            assert(views_of(uuids@) =~= views_of(self.symbol_uuids@).take(i + 1));
            i = i + 1;
        }
        assert(views_of(self.symbol_uuids@).take(i as int) =~= views_of(self.symbol_uuids@));
        OfflineDevice {
            id: self.id.clone(),
            name: self.name.clone(),
            footprint_uuid: match &self.footprint_uuid {
                Some(u) => Some(u.clone()),
                None => None,
            },
            symbol_uuids: uuids,
            model_title: match &self.model_title {
                Some(u) => Some(u.clone()),
                None => None,
            },
        }
    }
}

impl OfflineBundle {
    /// An empty bundle.
    pub fn new() -> (r: OfflineBundle)
        ensures
            r.devices.entries@.len() == 0,
            r.footprint_data.entries@.len() == 0,
            r.symbol_data.entries@.len() == 0,
            r.footprint_titles.entries@.len() == 0,
            r.symbol_titles.entries@.len() == 0,
            r.symbol_prefix.entries@.len() == 0,
    {
        OfflineBundle {
            devices: Table::new(),
            footprint_data: Table::new(),
            symbol_data: Table::new(),
            footprint_titles: Table::new(),
            symbol_titles: Table::new(),
            symbol_prefix: Table::new(),
        }
    }

    /// Whether the bundle holds geometry for footprints and for symbols.
    pub fn can_export(&self) -> (r: (bool, bool))
        ensures
            r.0 == (self.footprint_data.entries@.len() > 0),
            r.1 == (self.symbol_data.entries@.len() > 0),
    {
        (!self.footprint_data.is_empty(), !self.symbol_data.is_empty())
    }
}

/// The first of the documents `docs` of the given kind under `key`.
pub open spec fn first_doc(docs: Seq<DocModel>, is_symbol: bool, key: Seq<char>) -> Option<Seq<char>>
    decreases docs.len(),
{
    if docs.len() == 0 {
        None
    } else if docs[0].0 == is_symbol && docs[0].1 == key {
        Some(docs[0].2)
    } else {
        first_doc(docs.drop_first(), is_symbol, key)
    }
}

proof fn lemma_first_doc_push_all(docs: Seq<DocModel>, d: DocModel)
    ensures
        forall|b: bool, k: Seq<char>|
            #[trigger] first_doc(docs.push(d), b, k) == match first_doc(docs, b, k) {
                Some(v) => Some(v),
                None => if d.0 == b && d.1 == k {
                    Some(d.2)
                } else {
                    None
                },
            },
{
    assert forall|b: bool, k: Seq<char>|
        #[trigger] first_doc(docs.push(d), b, k) == match first_doc(docs, b, k) {
            Some(v) => Some(v),
            None => if d.0 == b && d.1 == k {
                Some(d.2)
            } else {
                None
            },
        } by {
        lemma_first_doc_push(docs, d, b, k);
    }
}

/// Content of a table after committing documents: what it held before, else
/// the first document of the kind under that key.
pub open spec fn committed(before: Option<Seq<char>>, docs: Seq<DocModel>, is_symbol: bool, key: Seq<char>) -> Option<Seq<char>> {
    match before {
        Some(v) => Some(v),
        None => first_doc(docs, is_symbol, key),
    }
}

proof fn lemma_first_doc_push(docs: Seq<DocModel>, d: DocModel, is_symbol: bool, key: Seq<char>)
    ensures
        first_doc(docs.push(d), is_symbol, key) == match first_doc(docs, is_symbol, key) {
            Some(v) => Some(v),
            None => if d.0 == is_symbol && d.1 == key {
                Some(d.2)
            } else {
                None
            },
        },
    decreases docs.len(),
{
    if docs.len() == 0 {
        assert(docs.push(d)[0] == d);
        assert(docs.push(d).drop_first().len() == 0);
    } else {
        assert(docs.push(d).drop_first() =~= docs.drop_first().push(d));
        lemma_first_doc_push(docs.drop_first(), d, is_symbol, key);
    }
}

/// Commits replayed documents: each symbol's text under its UUID in the symbol
/// data, each footprint's in the footprint data, keeping what was there before.
pub fn commit_documents(bundle: &mut OfflineBundle, docs: &Vec<ElibuDocument>)
    ensures
        forall|k: Seq<char>|
            opt_view(#[trigger] final(bundle).symbol_data.value_of(k)) == committed(
                opt_view(old(bundle).symbol_data.value_of(k)),
                docs_model(docs@),
                true,
                k,
            ),
        forall|k: Seq<char>|
            opt_view(#[trigger] final(bundle).footprint_data.value_of(k)) == committed(
                opt_view(old(bundle).footprint_data.value_of(k)),
                docs_model(docs@),
                false,
                k,
            ),
        final(bundle).devices == old(bundle).devices,
        final(bundle).footprint_titles == old(bundle).footprint_titles,
        final(bundle).symbol_titles == old(bundle).symbol_titles,
        final(bundle).symbol_prefix == old(bundle).symbol_prefix,
{
    let ghost dm = docs_model(docs@);
    let mut i: usize = 0;
    while i < docs.len()
        invariant
            0 <= i <= docs@.len(),
            dm == docs_model(docs@),
            forall|k: Seq<char>|
                opt_view(#[trigger] bundle.symbol_data.value_of(k)) == committed(
                    opt_view(old(bundle).symbol_data.value_of(k)),
                    dm.take(i as int),
                    true,
                    k,
                ),
            forall|k: Seq<char>|
                opt_view(#[trigger] bundle.footprint_data.value_of(k)) == committed(
                    opt_view(old(bundle).footprint_data.value_of(k)),
                    dm.take(i as int),
                    false,
                    k,
                ),
            bundle.devices == old(bundle).devices,
            bundle.footprint_titles == old(bundle).footprint_titles,
            bundle.symbol_titles == old(bundle).symbol_titles,
            bundle.symbol_prefix == old(bundle).symbol_prefix,
        decreases docs@.len() - i,
    {
        let d = &docs[i];
        proof {
            assert(dm.take(i + 1) =~= dm.take(i as int).push(dm[i as int]));
            lemma_first_doc_push_all(dm.take(i as int), dm[i as int]);
        }
        if d.is_symbol {
            bundle.symbol_data.insert_if_absent(d.uuid.clone(), d.text.clone());
        } else {
            bundle.footprint_data.insert_if_absent(d.uuid.clone(), d.text.clone());
        }
        i = i + 1;
    }
    assert(dm.take(i as int) =~= dm);
}

/// Replays an event log into the bundle (see `replayed_documents` and `commit_documents`).
pub fn parse_elibu_content(content: &str, bundle: &mut OfflineBundle)
    ensures
        forall|k: Seq<char>|
            opt_view(#[trigger] final(bundle).symbol_data.value_of(k)) == committed(
                opt_view(old(bundle).symbol_data.value_of(k)),
                crate::eventlog::replayed_documents(content@),
                true,
                k,
            ),
        forall|k: Seq<char>|
            opt_view(#[trigger] final(bundle).footprint_data.value_of(k)) == committed(
                opt_view(old(bundle).footprint_data.value_of(k)),
                crate::eventlog::replayed_documents(content@),
                false,
                k,
            ),
        final(bundle).devices == old(bundle).devices,
        final(bundle).footprint_titles == old(bundle).footprint_titles,
        final(bundle).symbol_titles == old(bundle).symbol_titles,
        final(bundle).symbol_prefix == old(bundle).symbol_prefix,
{
    let docs = replay_event_log(content);
    commit_documents(bundle, &docs);
}

/// The entry with the least key in key order (the first of equal keys) whose
/// part before any `|` is `short`, as (key, value).
pub open spec fn prefix_best(e: Seq<(String, String)>, short: Seq<char>) -> Option<(Seq<char>, Seq<char>)>
    decreases e.len(),
{
    if e.len() == 0 {
        None
    } else {
        let prev = prefix_best(e.drop_last(), short);
        let last = e.last();
        if before(last.0@, '|') == short && (prev is None || crate::text::key_lt(last.0@, prev.unwrap().0)) {
            Some((last.0@, last.1@))
        } else {
            prev
        }
    }
}

/// The value under the least key whose part before any `|` is `short`.
pub open spec fn prefix_lookup(e: Seq<(String, String)>, short: Seq<char>) -> Option<Seq<char>> {
    match prefix_best(e, short) {
        Some(b) => Some(b.1),
        None => None,
    }
}

/// Lookup by UUID tolerant of revision suffixes: the exact key, else the key
/// before any `|`, else the least key (in key order) that matches before its own `|`.
pub open spec fn uuid_lookup(e: Seq<(String, String)>, uuid: Seq<char>) -> Option<Seq<char>> {
    match lookup(e, uuid) {
        Some(v) => Some(v@),
        None => match lookup(e, before(uuid, '|')) {
            Some(v) => Some(v@),
            None => prefix_lookup(e, before(uuid, '|')),
        },
    }
}

fn prefix_find(t: &Table<String>, short: &Vec<char>) -> (r: Option<String>)
    ensures
        opt_view(r) == prefix_lookup(t.entries@, short@),
{
    let ghost e = t.entries@;
    let mut best: Option<usize> = None;
    let mut i: usize = 0;
    while i < t.entries.len()
        invariant
            0 <= i <= e.len(),
            e == t.entries@,
            match prefix_best(e.take(i as int), short@) {
                Some(b) => best matches Some(j) && j < i && b == (e[j as int].0@, e[j as int].1@),
                None => best is None,
            },
        decreases e.len() - i,
    {
        assert(e.take(i + 1).drop_last() =~= e.take(i as int));
        assert(e.take(i + 1).last() == e[i as int]);
        let k = chars_of(t.entries[i].0.as_str());
        let kp = before_char(&k, '|');
        if crate::chars::seq_eq(&kp, short) {
            let better = match best {
                None => true,
                Some(j) => crate::text::key_less(t.entries[i].0.as_str(), t.entries[j].0.as_str()),
            };
            if better {
                best = Some(i);
            }
        }
        i = i + 1;
    }
    assert(e.take(i as int) =~= e);
    match best {
        Some(j) => Some(t.entries[j].1.clone()),
        None => None,
    }
}

/// Looks a value up by UUID (see `uuid_lookup`).
pub fn get_by_uuid(t: &Table<String>, uuid: &str) -> (r: Option<String>)
    ensures
        opt_view(r) == uuid_lookup(t.entries@, uuid@),
{
    match t.get(uuid) {
        Some(v) => {
            return Some(v.clone());
        },
        None => {},
    }
    let c = chars_of(uuid);
    let short = before_char(&c, '|');
    let ss = string_of(&short);
    match t.get(ss.as_str()) {
        Some(v) => Some(v.clone()),
        None => prefix_find(t, &short),
    }
}

/// The geometry payload of a symbol by UUID (see `uuid_lookup`).
pub fn get_symbol_data_by_uuid(bundle: &OfflineBundle, symbol_uuid: &str) -> (r: Option<String>)
    ensures
        opt_view(r) == uuid_lookup(bundle.symbol_data.entries@, symbol_uuid@),
{
    get_by_uuid(&bundle.symbol_data, symbol_uuid)
}

/// The title of a footprint by UUID (see `uuid_lookup`).
pub fn get_footprint_title_by_uuid(bundle: &OfflineBundle, footprint_uuid: &str) -> (r: Option<String>)
    ensures
        opt_view(r) == uuid_lookup(bundle.footprint_titles.entries@, footprint_uuid@),
{
    get_by_uuid(&bundle.footprint_titles, footprint_uuid)
}

/// The geometry payload of a component blob: the `dataStr` field of a JSON
/// envelope (a string as it is, an object or array as JSON text), else the
/// whole envelope as JSON text when it has a `shape` field, else the trimmed
/// content itself; none for blank content.
pub open spec fn blob_payload(content: Seq<char>) -> Option<Seq<char>> {
    let t = trim(content);
    if t.len() == 0 {
        None
    } else {
        match parsed_json(t) {
            Some(v) => match field(v, "dataStr"@) {
                Some(Json::Str(s)) => Some(s@),
                Some(Json::Object(o)) => Some(json_text_of(Json::Object(o))),
                Some(Json::Array(a)) => Some(json_text_of(Json::Array(a))),
                _ => if field(v, "shape"@) is Some {
                    Some(json_text_of(v))
                } else {
                    Some(t)
                },
            },
            None => Some(t),
        }
    }
}

/// Normalizes the content of a component blob (see `blob_payload`).
pub fn extract_data_str_from_component_blob(content: &str) -> (r: Option<String>)
    ensures
        opt_view(r) == blob_payload(content@),
{
    let c = chars_of(content);
    let t = trim_chars(&c);
    if t.len() == 0 {
        return None;
    }
    let ts = string_of(&t);
    match parse_json(ts.as_str()) {
        Some(v) => {
            match get(&v, "dataStr") {
                Some(ds) => match ds {
                    Json::Str(s) => {
                        return Some(s.clone());
                    },
                    Json::Object(_) => {
                        return Some(json_to_string(ds));
                    },
                    Json::Array(_) => {
                        return Some(json_to_string(ds));
                    },
                    _ => {},
                },
                None => {},
            }
            match get(&v, "shape") {
                Some(_) => Some(json_to_string(&v)),
                None => Some(ts),
            }
        },
        None => Some(ts),
    }
}

/// A member of an archive: its name, and its content when that is UTF-8 text.
pub struct ArchiveMember {
    pub name: String,
    pub text: Option<String>,
}

/// What zip reads from the bytes of an archive: its members in order, or none
/// when the bytes are not a readable archive.
pub uninterp spec fn archive_listing(bytes: Seq<u8>) -> Option<Vec<ArchiveMember>>;

/// Relies on zip's `ZipArchive` over the bytes in memory (`new`, `len`,
/// `by_index`, `ZipFile::name`) and on `Read::read_to_string`: every member's
/// name and UTF-8 content, or none when the archive cannot be read.
#[verifier::external_body]
pub fn read_archive(bytes: &Vec<u8>) -> (r: Option<Vec<ArchiveMember>>)
    ensures
        r == archive_listing(bytes@),
{
    let mut archive = zip::ZipArchive::new(std::io::Cursor::new(bytes.as_slice())).ok()?;
    let mut members = Vec::new();
    for i in 0..archive.len() {
        let mut f = archive.by_index(i).ok()?;
        let name = f.name().to_string();
        let mut content = String::new();
        let text = std::io::Read::read_to_string(&mut f, &mut content).ok().map(|_| content);
        members.push(ArchiveMember { name, text });
    }
    Some(members)
}

/// The first member named `name`.
pub open spec fn member_named(ms: Seq<ArchiveMember>, name: Seq<char>) -> Option<ArchiveMember>
    decreases ms.len(),
{
    if ms.len() == 0 {
        None
    } else if ms[0].name@ == name {
        Some(ms[0])
    } else {
        member_named(ms.drop_first(), name)
    }
}

/// The device manifest: `device.json`, else `device2.json`.
pub open spec fn manifest_member(ms: Seq<ArchiveMember>) -> Option<ArchiveMember> {
    match member_named(ms, "device.json"@) {
        Some(m) => Some(m),
        None => member_named(ms, "device2.json"@),
    }
}

fn find_member<'a>(ms: &'a Vec<ArchiveMember>, name: &str) -> (r: Option<&'a ArchiveMember>)
    ensures
        match member_named(ms@, name@) {
            Some(m) => r matches Some(x) && *x == m,
            None => r is None,
        },
{
    let mut i: usize = 0;
    assert(ms@.skip(0) =~= ms@);
    while i < ms.len()
        invariant
            0 <= i <= ms@.len(),
            member_named(ms@, name@) == member_named(ms@.skip(i as int), name@),
        decreases ms@.len() - i,
    {
        assert(ms@.skip(i as int).drop_first() =~= ms@.skip(i + 1));
        assert(ms@.skip(i as int)[0] == ms@[i as int]);
        if str_eq(ms[i].name.as_str(), name) {
            return Some(&ms[i]);
        }
        i = i + 1;
    }
    None
}

pub open spec fn title_keys() -> Seq<Seq<char>> {
    seq!["title"@, "display_title"@, "name"@]
}

/// The title kept under `k` after reading the titled entries `es` in order: the
/// last entry keyed `k` that has a title.
pub open spec fn titles_value(es: Seq<(String, Json)>, k: Seq<char>) -> Option<Seq<char>>
    decreases es.len(),
{
    if es.len() == 0 {
        None
    } else if es.last().0@ == k && crate::json::first_str(es.last().1, title_keys()) is Some {
        crate::json::first_str(es.last().1, title_keys())
    } else {
        titles_value(es.drop_last(), k)
    }
}

/// The entries of the object under `key`, or none.
pub open spec fn object_entries(j: Json, key: Seq<char>) -> Seq<(String, Json)> {
    match field(j, key) {
        Some(Json::Object(es)) => es@,
        _ => seq![],
    }
}

fn object_entries_of<'a>(j: &'a Json, key: &str) -> (r: Option<&'a Vec<(String, Json)>>)
    ensures
        match r {
            Some(es) => object_entries(*j, key@) == es@,
            None => object_entries(*j, key@) == Seq::<(String, Json)>::empty(),
        },
{
    match get(j, key) {
        Some(Json::Object(es)) => Some(es),
        _ => None,
    }
}

/// Reads the titles of the titled entries under `key` into `t`.
fn read_titles(j: &Json, key: &str, t: &mut Table<String>)
    ensures
        forall|k: Seq<char>|
            opt_view(#[trigger] final(t).value_of(k)) == match titles_value(object_entries(*j, key@), k) {
                Some(v) => Some(v),
                None => opt_view(old(t).value_of(k)),
            },
{
    let es = match object_entries_of(j, key) {
        Some(es) => es,
        None => {
            return;
        },
    };
    let keys = vec!["title", "display_title", "name"];
    assert(crate::json::key_views(keys@) =~= title_keys());
    let mut i: usize = 0;
    while i < es.len()
        invariant
            0 <= i <= es@.len(),
            crate::json::key_views(keys@) == title_keys(),
            object_entries(*j, key@) == es@,
            forall|k: Seq<char>|
                opt_view(#[trigger] t.value_of(k)) == match titles_value(es@.take(i as int), k) {
                    Some(v) => Some(v),
                    None => opt_view(old(t).value_of(k)),
                },
        decreases es@.len() - i,
    {
        assert(es@.take(i + 1).drop_last() =~= es@.take(i as int));
        assert(es@.take(i + 1).last() == es@[i as int]);
        match crate::json::first_non_empty_str(&es[i].1, &keys) {
            Some(title) => {
                t.insert(es[i].0.clone(), title);
            },
            None => {},
        }
        i = i + 1;
    }
    assert(es@.take(i as int) =~= es@);
}

/// The reference prefix kept under `k` after reading the symbol entries `es`:
/// the last entry keyed `k` whose `head.c_para.pre` is a string.
pub open spec fn prefix_value(es: Seq<(String, Json)>, k: Seq<char>) -> Option<Seq<char>>
    decreases es.len(),
{
    if es.len() == 0 {
        None
    } else if es.last().0@ == k && symbol_pre(es.last().1) is Some {
        symbol_pre(es.last().1)
    } else {
        prefix_value(es.drop_last(), k)
    }
}

/// The `head.c_para.pre` string of a symbol record.
pub open spec fn symbol_pre(sym: Json) -> Option<Seq<char>> {
    match field(sym, "head"@) {
        Some(h) => match field(h, "c_para"@) {
            Some(c) => str_field(c, "pre"@),
            None => None,
        },
        None => None,
    }
}

fn symbol_pre_of(sym: &Json) -> (r: Option<String>)
    ensures
        opt_view(r) == symbol_pre(*sym),
{
    match get(sym, "head") {
        Some(h) => match get(h, "c_para") {
            Some(c) => match get_str(c, "pre") {
                Some(p) => Some(p.clone()),
                None => None,
            },
            None => None,
        },
        None => None,
    }
}

fn read_prefixes(j: &Json, t: &mut Table<String>)
    ensures
        forall|k: Seq<char>|
            opt_view(#[trigger] final(t).value_of(k)) == match prefix_value(object_entries(*j, "symbols"@), k) {
                Some(v) => Some(v),
                None => opt_view(old(t).value_of(k)),
            },
{
    let es = match object_entries_of(j, "symbols") {
        Some(es) => es,
        None => {
            return;
        },
    };
    let mut i: usize = 0;
    while i < es.len()
        invariant
            0 <= i <= es@.len(),
            object_entries(*j, "symbols"@) == es@,
            forall|k: Seq<char>|
                opt_view(#[trigger] t.value_of(k)) == match prefix_value(es@.take(i as int), k) {
                    Some(v) => Some(v),
                    None => opt_view(old(t).value_of(k)),
                },
        decreases es@.len() - i,
    {
        assert(es@.take(i + 1).drop_last() =~= es@.take(i as int));
        assert(es@.take(i + 1).last() == es@[i as int]);
        match symbol_pre_of(&es[i].1) {
            Some(p) => {
                t.insert(es[i].0.clone(), p);
            },
            None => {},
        }
        i = i + 1;
    }
    assert(es@.take(i as int) =~= es@);
}

/// A device as (identifier, name, footprint UUID, symbol UUIDs, 3D model title).
pub type DeviceModel = (Seq<char>, Seq<char>, Option<Seq<char>>, Seq<Seq<char>>, Option<Seq<char>>);

pub open spec fn device_model(d: OfflineDevice) -> DeviceModel {
    (d.id@, d.name@, opt_view(d.footprint_uuid), views_of(d.symbol_uuids@), opt_view(d.model_title))
}

pub open spec fn device_name_keys() -> Seq<Seq<char>> {
    seq!["display_title"@, "title"@, "name"@, "product_name"@]
}

pub open spec fn model_title_keys() -> Seq<Seq<char>> {
    seq!["3D Model Title"@, "Model Title"@]
}

/// A UUID reference of an attribute: the trimmed part before any `|`, when not empty.
pub open spec fn uuid_ref(attrs: Json, key: Seq<char>) -> Option<Seq<char>> {
    match str_field(attrs, key) {
        Some(s) => if trim(before(s, '|')).len() > 0 {
            Some(trim(before(s, '|')))
        } else {
            None
        },
        None => None,
    }
}

/// The device described by a manifest record, or none when it has no identifier.
pub open spec fn device_of(dev: Json) -> Option<DeviceModel> {
    match crate::metadata::preferred_id(dev) {
        None => None,
        Some(id) => if id.len() == 0 {
            None
        } else {
            let attrs = crate::metadata::record_attrs(dev);
            Some(
                (
                    id,
                    match crate::json::first_str(dev, device_name_keys()) {
                        Some(n) => n,
                        None => id,
                    },
                    uuid_ref(attrs, "Footprint"@),
                    match uuid_ref(attrs, "Symbol"@) {
                        Some(u) => seq![u],
                        None => seq![],
                    },
                    crate::json::first_str(attrs, model_title_keys()),
                ),
            )
        },
    }
}

/// The device kept under `k` after reading the manifest records `es`: the last one known by `k`.
pub open spec fn devices_value(es: Seq<(String, Json)>, k: Seq<char>) -> Option<DeviceModel>
    decreases es.len(),
{
    if es.len() == 0 {
        None
    } else if device_of(es.last().1) is Some && device_of(es.last().1).unwrap().0 == k {
        device_of(es.last().1)
    } else {
        devices_value(es.drop_last(), k)
    }
}

pub open spec fn opt_device(d: Option<OfflineDevice>) -> Option<DeviceModel> {
    match d {
        Some(x) => Some(device_model(x)),
        None => None,
    }
}

fn uuid_ref_of(attrs: &Json, key: &str) -> (r: Option<String>)
    ensures
        opt_view(r) == uuid_ref(*attrs, key@),
{
    match get_str(attrs, key) {
        Some(s) => crate::ident::split_uuid_first(Some(s.as_str())),
        None => None,
    }
}

/// Reads the device described by a manifest record (see `device_of`).
pub fn offline_device_of(dev: &Json) -> (r: Option<OfflineDevice>)
    ensures
        opt_device(r) == device_of(*dev),
{
    let id = match crate::metadata::extract_preferred_local_id(dev) {
        Some(id) => id,
        None => {
            return None;
        },
    };
    if crate::eventlog::is_empty_text(&id) {
        return None;
    }
    let attrs = match get(dev, "attributes") {
        Some(a) => a,
        None => dev,
    };
    let nk = vec!["display_title", "title", "name", "product_name"];
    assert(crate::json::key_views(nk@) =~= device_name_keys());
    let name = match crate::json::first_non_empty_str(dev, &nk) {
        Some(n) => n,
        None => id.clone(),
    };
    let footprint_uuid = uuid_ref_of(attrs, "Footprint");
    let mut symbol_uuids: Vec<String> = Vec::new();
    match uuid_ref_of(attrs, "Symbol") {
        Some(u) => {
            symbol_uuids.push(u);
        },
        None => {},
    }
    let mk = vec!["3D Model Title", "Model Title"];
    assert(crate::json::key_views(mk@) =~= model_title_keys());
    let model_title = crate::json::first_non_empty_str(attrs, &mk);
    let d = OfflineDevice { id, name, footprint_uuid, symbol_uuids, model_title };
    assert(views_of(d.symbol_uuids@) =~= device_of(*dev).unwrap().3);
    Some(d)
}

fn read_devices(j: &Json, t: &mut Table<OfflineDevice>)
    ensures
        forall|k: Seq<char>|
            opt_device(#[trigger] final(t).value_of(k)) == match devices_value(object_entries(*j, "devices"@), k) {
                Some(v) => Some(v),
                None => opt_device(old(t).value_of(k)),
            },
{
    let es = match object_entries_of(j, "devices") {
        Some(es) => es,
        None => {
            return;
        },
    };
    let mut i: usize = 0;
    while i < es.len()
        invariant
            0 <= i <= es@.len(),
            object_entries(*j, "devices"@) == es@,
            forall|k: Seq<char>|
                opt_device(#[trigger] t.value_of(k)) == match devices_value(es@.take(i as int), k) {
                    Some(v) => Some(v),
                    None => opt_device(old(t).value_of(k)),
                },
        decreases es@.len() - i,
    {
        assert(es@.take(i + 1).drop_last() =~= es@.take(i as int));
        assert(es@.take(i + 1).last() == es@[i as int]);
        match offline_device_of(&es[i].1) {
            Some(d) => {
                let key = d.id.clone();
                t.insert(key, d);
            },
            None => {},
        }
        i = i + 1;
    }
    assert(es@.take(i as int) =~= es@);
}

pub open spec fn ends_with(s: Seq<char>, suffix: Seq<char>) -> bool {
    s.len() >= suffix.len() && s.skip(s.len() - suffix.len()) == suffix
}

/// End of the last `/` in `s` (zero when there is none).
pub open spec fn dir_end(s: Seq<char>) -> nat
    decreases s.len(),
{
    if s.len() == 0 {
        0
    } else if s.last() == '/' {
        s.len()
    } else {
        dir_end(s.drop_last())
    }
}

/// The file name of a member ending in `ext`, without its directory and without `ext`.
pub open spec fn member_stem(name: Seq<char>, ext: Seq<char>) -> Seq<char> {
    let f = name.skip(dir_end(name) as int);
    f.take(f.len() - ext.len())
}

/// Whether a member is a blob of the given extension with a non-empty stem.
pub open spec fn is_blob(m: ArchiveMember, ext: Seq<char>) -> bool {
    ends_with(m.name@, ext) && member_stem(m.name@, ext).len() > 0
}

/// The payload kept under `k` after reading the blobs of extension `ext`: the
/// last readable blob whose stem is `k`.
pub open spec fn blob_value(ms: Seq<ArchiveMember>, ext: Seq<char>, k: Seq<char>) -> Option<Seq<char>>
    decreases ms.len(),
{
    if ms.len() == 0 {
        None
    } else {
        let m = ms.last();
        if is_blob(m, ext) && member_stem(m.name@, ext) == k && m.text is Some && blob_payload(
            m.text.unwrap()@,
        ) is Some {
            blob_payload(m.text.unwrap()@)
        } else {
            blob_value(ms.drop_last(), ext, k)
        }
    }
}

proof fn lemma_dir_end(s: Seq<char>, k: int)
    requires
        0 <= k <= s.len(),
        forall|j: int| k <= j < s.len() ==> #[trigger] s[j] != '/',
        k == 0 || s[k - 1] == '/',
    ensures
        dir_end(s) == k,
    decreases s.len(),
{
    if s.len() > 0 && s.len() > k {
        assert(s.drop_last().len() >= k);
        assert forall|j: int| k <= j < s.drop_last().len() implies #[trigger] s.drop_last()[j] != '/' by {
            assert(s.drop_last()[j] == s[j]);
        }
        if k > 0 {
            assert(s.drop_last()[k - 1] == s[k - 1]);
        }
        lemma_dir_end(s.drop_last(), k);
    }
}

fn ends_with_chars(s: &Vec<char>, suffix: &Vec<char>) -> (r: bool)
    ensures
        r == ends_with(s@, suffix@),
{
    if s.len() < suffix.len() {
        return false;
    }
    let off = s.len() - suffix.len();
    let mut j: usize = off;
    while j < s.len()
        invariant
            off <= j <= s@.len(),
            off + suffix@.len() == s@.len(),
            forall|t: int| off <= t < j ==> s@[t] == suffix@[t - off],
        decreases s@.len() - j,
    {
        if s[j] != suffix[j - off] {
            assert(s@.skip(off as int)[j - off] == s@[j as int]);
            return false;
        }
        j = j + 1;
    }
    assert(s@.skip(off as int) =~= suffix@);
    true
}

/// The stem of a member name ending in `ext` (see `member_stem`).
fn stem_of(name: &Vec<char>, ext: &Vec<char>) -> (r: Vec<char>)
    requires
        ends_with(name@, ext@),
        forall|j: int| 0 <= j < ext@.len() ==> #[trigger] ext@[j] != '/',
    ensures
        r@ == member_stem(name@, ext@),
{
    let mut k: usize = name.len();
    while k > 0 && name[k - 1] != '/'
        invariant
            k <= name@.len(),
            forall|j: int| k <= j < name@.len() ==> #[trigger] name@[j] != '/',
        decreases k,
    {
        k = k - 1;
    }
    proof {
        lemma_dir_end(name@, k as int);
    }
    let ghost f = name@.skip(k as int);
    proof {
        if k > name@.len() - ext@.len() {
            let j = k - 1 - (name@.len() - ext@.len());
            assert(name@.skip(name@.len() - ext@.len())[j] == name@[k - 1]);
        }
    }
    let end: usize = name.len() - ext.len();
    let mut r: Vec<char> = Vec::new();
    let mut i: usize = k;
    while i < end
        invariant
            k <= i <= end <= name@.len(),
            r@ == name@.subrange(k as int, i as int),
        decreases end - i,
    {
        r.push(name[i]);
        assert(r@ =~= name@.subrange(k as int, i + 1));
        i = i + 1;
    }
    assert(r@ =~= f.take(f.len() - ext@.len()));
    r
}

/// Whether a member is a footprint or symbol blob whose content is not UTF-8 text.
pub open spec fn unreadable_blob(m: ArchiveMember) -> bool {
    (is_blob(m, ".efoo"@) || is_blob(m, ".esym"@)) && m.text is None
}

/// The characters of a file extension, which holds no `/`.
fn ext_chars(ext: &str) -> (r: Vec<char>)
    requires
        forall|j: int| 0 <= j < ext@.len() ==> #[trigger] ext@[j] != '/',
    ensures
        r@ == ext@,
        forall|j: int| 0 <= j < r@.len() ==> #[trigger] r@[j] != '/',
{
    chars_of(ext)
}

/// Reads the footprint (`.efoo`) and symbol (`.esym`) blobs of the members,
/// keyed by file stem; fails on a blob that is not UTF-8 text.
fn read_blobs(ms: &Vec<ArchiveMember>, bundle: &mut OfflineBundle) -> (r: Result<(), JlcError>)
    ensures
        r is Err <==> exists|i: int| 0 <= i < ms@.len() && unreadable_blob(#[trigger] ms@[i]),
        r is Ok ==> forall|k: Seq<char>|
            opt_view(#[trigger] final(bundle).footprint_data.value_of(k)) == match blob_value(ms@, ".efoo"@, k) {
                Some(v) => Some(v),
                None => opt_view(old(bundle).footprint_data.value_of(k)),
            },
        r is Ok ==> forall|k: Seq<char>|
            opt_view(#[trigger] final(bundle).symbol_data.value_of(k)) == match blob_value(ms@, ".esym"@, k) {
                Some(v) => Some(v),
                None => opt_view(old(bundle).symbol_data.value_of(k)),
            },
        final(bundle).devices == old(bundle).devices,
        final(bundle).footprint_titles == old(bundle).footprint_titles,
        final(bundle).symbol_titles == old(bundle).symbol_titles,
        final(bundle).symbol_prefix == old(bundle).symbol_prefix,
{
    proof {
        reveal_strlit(".efoo");
        reveal_strlit(".esym");
    }
    let efoo = ext_chars(".efoo");
    let esym = ext_chars(".esym");
    let mut i: usize = 0;
    while i < ms.len()
        invariant
            0 <= i <= ms@.len(),
            efoo@ == ".efoo"@,
            esym@ == ".esym"@,
            forall|j: int| 0 <= j < efoo@.len() ==> #[trigger] efoo@[j] != '/',
            forall|j: int| 0 <= j < esym@.len() ==> #[trigger] esym@[j] != '/',
            forall|j: int| 0 <= j < i ==> !unreadable_blob(#[trigger] ms@[j]),
            forall|k: Seq<char>|
                opt_view(#[trigger] bundle.footprint_data.value_of(k)) == match blob_value(ms@.take(i as int), ".efoo"@, k) {
                    Some(v) => Some(v),
                    None => opt_view(old(bundle).footprint_data.value_of(k)),
                },
            forall|k: Seq<char>|
                opt_view(#[trigger] bundle.symbol_data.value_of(k)) == match blob_value(ms@.take(i as int), ".esym"@, k) {
                    Some(v) => Some(v),
                    None => opt_view(old(bundle).symbol_data.value_of(k)),
                },
            bundle.devices == old(bundle).devices,
            bundle.footprint_titles == old(bundle).footprint_titles,
            bundle.symbol_titles == old(bundle).symbol_titles,
            bundle.symbol_prefix == old(bundle).symbol_prefix,
        decreases ms@.len() - i,
    {
        assert(ms@.take(i + 1).drop_last() =~= ms@.take(i as int));
        assert(ms@.take(i + 1).last() == ms@[i as int]);
        let m = &ms[i];
        let name = chars_of(m.name.as_str());
        let is_fp = ends_with_chars(&name, &efoo);
        let is_sym = !is_fp && ends_with_chars(&name, &esym);
        proof {
            reveal_strlit(".efoo");
            reveal_strlit(".esym");
            if is_fp {
                assert(".efoo"@.len() == 5 && ".esym"@.len() == 5);
                assert(".efoo"@[2] == 'f');
                assert(".esym"@[2] == 's');
                assert(m.name@.skip(m.name@.len() - 5) == ".efoo"@);
                assert(!ends_with(m.name@, ".esym"@));
            }
        }
        if is_fp || is_sym {
            let stem = if is_fp {
                stem_of(&name, &efoo)
            } else {
                stem_of(&name, &esym)
            };
            if stem.len() > 0 {
                let text = match &m.text {
                    Some(t) => t,
                    None => {
                        return Err(JlcError::IoError(String::from_str("archive member is not UTF-8 text")));
                    },
                };
                match extract_data_str_from_component_blob(text.as_str()) {
                    Some(payload) => {
                        let key = string_of(&stem);
                        if is_fp {
                            bundle.footprint_data.insert(key, payload);
                        } else {
                            bundle.symbol_data.insert(key, payload);
                        }
                    },
                    None => {},
                }
            }
        }
        i = i + 1;
    }
    assert(ms@.take(i as int) =~= ms@);
    Ok(())
}

/// The documents of the event logs (`.elibu`) among the members, in order.
pub open spec fn log_docs(ms: Seq<ArchiveMember>) -> Seq<DocModel>
    decreases ms.len(),
{
    if ms.len() == 0 {
        seq![]
    } else {
        let m = ms.last();
        if ends_with(m.name@, ".elibu"@) && m.text is Some {
            log_docs(ms.drop_last()) + crate::eventlog::replayed_documents(m.text.unwrap()@)
        } else {
            log_docs(ms.drop_last())
        }
    }
}

proof fn lemma_first_doc_concat(a: Seq<DocModel>, b: Seq<DocModel>, s: bool, k: Seq<char>)
    ensures
        first_doc(a + b, s, k) == match first_doc(a, s, k) {
            Some(v) => Some(v),
            None => first_doc(b, s, k),
        },
    decreases a.len(),
{
    if a.len() == 0 {
        assert(a + b =~= b);
    } else {
        assert((a + b).drop_first() =~= a.drop_first() + b);
        assert((a + b)[0] == a[0]);
        lemma_first_doc_concat(a.drop_first(), b, s, k);
    }
}

/// Replays the event logs among the members into the bundle; fails on a log
/// that is not UTF-8 text.
fn replay_logs(ms: &Vec<ArchiveMember>, bundle: &mut OfflineBundle) -> (r: Result<(), JlcError>)
    ensures
        r is Err <==> exists|i: int|
            0 <= i < ms@.len() && ends_with((#[trigger] ms@[i]).name@, ".elibu"@) && ms@[i].text is None,
        r is Ok ==> forall|k: Seq<char>|
            opt_view(#[trigger] final(bundle).symbol_data.value_of(k)) == committed(
                opt_view(old(bundle).symbol_data.value_of(k)),
                log_docs(ms@),
                true,
                k,
            ),
        r is Ok ==> forall|k: Seq<char>|
            opt_view(#[trigger] final(bundle).footprint_data.value_of(k)) == committed(
                opt_view(old(bundle).footprint_data.value_of(k)),
                log_docs(ms@),
                false,
                k,
            ),
        final(bundle).devices == old(bundle).devices,
        final(bundle).footprint_titles == old(bundle).footprint_titles,
        final(bundle).symbol_titles == old(bundle).symbol_titles,
        final(bundle).symbol_prefix == old(bundle).symbol_prefix,
{
    let ext = chars_of(".elibu");
    let mut i: usize = 0;
    while i < ms.len()
        invariant
            0 <= i <= ms@.len(),
            ext@ == ".elibu"@,
            forall|j: int| 0 <= j < i ==> !(ends_with((#[trigger] ms@[j]).name@, ".elibu"@) && ms@[j].text is None),
            forall|k: Seq<char>|
                opt_view(#[trigger] bundle.symbol_data.value_of(k)) == committed(
                    opt_view(old(bundle).symbol_data.value_of(k)),
                    log_docs(ms@.take(i as int)),
                    true,
                    k,
                ),
            forall|k: Seq<char>|
                opt_view(#[trigger] bundle.footprint_data.value_of(k)) == committed(
                    opt_view(old(bundle).footprint_data.value_of(k)),
                    log_docs(ms@.take(i as int)),
                    false,
                    k,
                ),
            bundle.devices == old(bundle).devices,
            bundle.footprint_titles == old(bundle).footprint_titles,
            bundle.symbol_titles == old(bundle).symbol_titles,
            bundle.symbol_prefix == old(bundle).symbol_prefix,
        decreases ms@.len() - i,
    {
        assert(ms@.take(i + 1).drop_last() =~= ms@.take(i as int));
        assert(ms@.take(i + 1).last() == ms@[i as int]);
        let m = &ms[i];
        let name = chars_of(m.name.as_str());
        if ends_with_chars(&name, &ext) {
            let text = match &m.text {
                Some(t) => t,
                None => {
                    return Err(JlcError::IoError(String::from_str("archive member is not UTF-8 text")));
                },
            };
            proof {
                let a = log_docs(ms@.take(i as int));
                let b = crate::eventlog::replayed_documents(text@);
                assert forall|s: bool, k: Seq<char>| #[trigger] first_doc(a + b, s, k) == match first_doc(a, s, k) {
                    Some(v) => Some(v),
                    None => first_doc(b, s, k),
                } by {
                    lemma_first_doc_concat(a, b, s, k);
                }
            }
            parse_elibu_content(text.as_str(), bundle);
        }
        i = i + 1;
    }
    assert(ms@.take(i as int) =~= ms@);
    Ok(())
}

/// Whether the blobs of extension `ext` among the members give no payload at all.
pub open spec fn no_blobs(ms: Seq<ArchiveMember>, ext: Seq<char>) -> bool {
    forall|k: Seq<char>| #[trigger] blob_value(ms, ext, k) is None
}

/// The geometry payload kept under `k`: the blob payload, then, when the
/// footprint or the symbol blobs gave nothing, what the event logs commit.
pub open spec fn geometry_value(ms: Seq<ArchiveMember>, is_symbol: bool, k: Seq<char>) -> Option<Seq<char>> {
    let ext = if is_symbol {
        ".esym"@
    } else {
        ".efoo"@
    };
    if no_blobs(ms, ".efoo"@) || no_blobs(ms, ".esym"@) {
        committed(blob_value(ms, ext, k), log_docs(ms), is_symbol, k)
    } else {
        blob_value(ms, ext, k)
    }
}

proof fn lemma_table_empty<V>(t: Table<V>)
    ensures
        (t.entries@.len() == 0) <==> forall|k: Seq<char>| #[trigger] t.value_of(k) is None,
{
    if t.entries@.len() > 0 {
        assert(t.value_of(t.entries@[0].0@) is Some);
    }
}

pub open spec fn bundle_is_empty(b: OfflineBundle) -> bool {
    b.devices.entries@.len() == 0 && b.footprint_data.entries@.len() == 0
        && b.symbol_data.entries@.len() == 0 && b.footprint_titles.entries@.len() == 0
        && b.symbol_titles.entries@.len() == 0 && b.symbol_prefix.entries@.len() == 0
}

/// What a bundle read from the members `ms` with manifest `j` holds.
pub open spec fn bundle_from(b: OfflineBundle, ms: Seq<ArchiveMember>, j: Json) -> bool {
    &&& forall|k: Seq<char>|
        opt_view(#[trigger] b.footprint_titles.value_of(k)) == titles_value(
            object_entries(j, "footprints"@),
            k,
        )
    &&& forall|k: Seq<char>|
        opt_view(#[trigger] b.symbol_titles.value_of(k)) == titles_value(
            object_entries(j, "symbols"@),
            k,
        )
    &&& forall|k: Seq<char>|
        opt_view(#[trigger] b.symbol_prefix.value_of(k)) == prefix_value(
            object_entries(j, "symbols"@),
            k,
        )
    &&& forall|k: Seq<char>|
        opt_device(#[trigger] b.devices.value_of(k)) == devices_value(
            object_entries(j, "devices"@),
            k,
        )
    &&& forall|k: Seq<char>|
        opt_view(#[trigger] b.footprint_data.value_of(k)) == geometry_value(ms, false, k)
    &&& forall|k: Seq<char>|
        opt_view(#[trigger] b.symbol_data.value_of(k)) == geometry_value(ms, true, k)
}

/// The manifest member of the archive in `bytes`.
pub open spec fn listing_manifest(bytes: Seq<u8>) -> Option<ArchiveMember> {
    match archive_listing(bytes) {
        Some(ms) => manifest_member(ms@),
        None => None,
    }
}

/// The parsed manifest of the archive in `bytes`.
pub open spec fn manifest_json(bytes: Seq<u8>) -> Option<Json> {
    match listing_manifest(bytes) {
        Some(m) => match m.text {
            Some(t) => parsed_json(t@),
            None => None,
        },
        None => None,
    }
}

pub open spec fn has_unreadable_blob(ms: Seq<ArchiveMember>) -> bool {
    exists|i: int| 0 <= i < ms.len() && unreadable_blob(#[trigger] ms[i])
}

pub open spec fn has_unreadable_log(ms: Seq<ArchiveMember>) -> bool {
    exists|i: int|
        0 <= i < ms.len() && ends_with((#[trigger] ms[i]).name@, ".elibu"@) && ms[i].text is None
}

/// When reading a bundle from `bytes` fails: the archive cannot be read; or it
/// has a manifest and that is not UTF-8 text or not JSON, or a blob is not UTF-8
/// text, or the event logs are needed and one of them is not UTF-8 text.
pub open spec fn archive_fails(bytes: Seq<u8>) -> bool {
    match archive_listing(bytes) {
        None => true,
        Some(ms) => match manifest_member(ms@) {
            None => false,
            Some(m) => m.text is None || manifest_json(bytes) is None || has_unreadable_blob(ms@) || (
            (no_blobs(ms@, ".efoo"@) || no_blobs(ms@, ".esym"@)) && has_unreadable_log(ms@)),
        },
    }
}

/// When reading the manifest of `bytes` fails: the archive cannot be read, or
/// its manifest is not UTF-8 text.
pub open spec fn manifest_fails(bytes: Seq<u8>) -> bool {
    archive_listing(bytes) is None || (listing_manifest(bytes) is Some
        && listing_manifest(bytes).unwrap().text is None)
}

/// Reads an offline bundle from the bytes of an archive: titles, reference
/// prefixes and devices from its manifest; geometry from its blobs, and from
/// its event logs when the footprint or symbol blobs give nothing. An archive
/// without manifest gives an empty bundle.
pub fn load_offline_bundle_from_archive(bytes: &Vec<u8>) -> (r: Result<OfflineBundle, JlcError>)
    ensures
        r is Err <==> archive_fails(bytes@),
        archive_listing(bytes@) is None ==> r is Err,
        archive_listing(bytes@) is Some && listing_manifest(bytes@) is None ==> (r matches Ok(b)
            && bundle_is_empty(b)),
        listing_manifest(bytes@) is Some && listing_manifest(bytes@).unwrap().text is None ==> r is Err,
        listing_manifest(bytes@) is Some && listing_manifest(bytes@).unwrap().text is Some
            && manifest_json(bytes@) is None ==> r is Err,
        r is Ok ==> archive_listing(bytes@) is Some,
        r is Ok && listing_manifest(bytes@) is Some ==> manifest_json(bytes@) is Some && bundle_from(
            r.unwrap(),
            archive_listing(bytes@).unwrap()@,
            manifest_json(bytes@).unwrap(),
        ),
{
    let ms = match read_archive(bytes) {
        Some(ms) => ms,
        None => {
            return Err(JlcError::ApiError(String::from_str("cannot read the library archive")));
        },
    };
    let mut bundle = OfflineBundle::new();
    let manifest = match find_member(&ms, "device.json") {
        Some(m) => m,
        None => match find_member(&ms, "device2.json") {
            Some(m) => m,
            None => {
                return Ok(bundle);
            },
        },
    };
    let text = match &manifest.text {
        Some(t) => t,
        None => {
            return Err(JlcError::IoError(String::from_str("device manifest is not UTF-8 text")));
        },
    };
    let json = match parse_json(text.as_str()) {
        Some(j) => j,
        None => {
            return Err(JlcError::JsonError(String::from_str("device manifest is not valid JSON")));
        },
    };
    read_titles(&json, "footprints", &mut bundle.footprint_titles);
    read_titles(&json, "symbols", &mut bundle.symbol_titles);
    read_prefixes(&json, &mut bundle.symbol_prefix);
    read_devices(&json, &mut bundle.devices);
    let ghost after_manifest = bundle;
    match read_blobs(&ms, &mut bundle) {
        Ok(()) => {},
        Err(e) => {
            return Err(e);
        },
    }
    proof {
        lemma_table_empty(bundle.footprint_data);
        lemma_table_empty(bundle.symbol_data);
        assert forall|k: Seq<char>|
            (#[trigger] bundle.footprint_data.value_of(k) is None) == (blob_value(ms@, ".efoo"@, k) is None) by {
            assert(after_manifest.footprint_data.value_of(k) is None);
            assert(opt_view(bundle.footprint_data.value_of(k)) == match blob_value(ms@, ".efoo"@, k) {
                Some(v) => Some(v),
                None => opt_view(after_manifest.footprint_data.value_of(k)),
            });
        }
        assert forall|k: Seq<char>|
            (#[trigger] bundle.symbol_data.value_of(k) is None) == (blob_value(ms@, ".esym"@, k) is None) by {
            assert(after_manifest.symbol_data.value_of(k) is None);
            assert(opt_view(bundle.symbol_data.value_of(k)) == match blob_value(ms@, ".esym"@, k) {
                Some(v) => Some(v),
                None => opt_view(after_manifest.symbol_data.value_of(k)),
            });
        }
        if bundle.footprint_data.entries@.len() == 0 {
            assert forall|k: Seq<char>| #[trigger] blob_value(ms@, ".efoo"@, k) is None by {
                assert(bundle.footprint_data.value_of(k) is None);
            }
        } else {
            assert(!no_blobs(ms@, ".efoo"@)) by {
                let k0 = bundle.footprint_data.entries@[0].0@;
                assert(bundle.footprint_data.value_of(k0) is Some);
                assert(blob_value(ms@, ".efoo"@, k0) is Some);
            }
        }
        if bundle.symbol_data.entries@.len() == 0 {
            assert forall|k: Seq<char>| #[trigger] blob_value(ms@, ".esym"@, k) is None by {
                assert(bundle.symbol_data.value_of(k) is None);
            }
        } else {
            assert(!no_blobs(ms@, ".esym"@)) by {
                let k0 = bundle.symbol_data.entries@[0].0@;
                assert(bundle.symbol_data.value_of(k0) is Some);
                assert(blob_value(ms@, ".esym"@, k0) is Some);
            }
        }
    }
    let (has_fp, has_sym) = bundle.can_export();
    if !has_fp || !has_sym {
        match replay_logs(&ms, &mut bundle) {
            Ok(()) => {},
            Err(e) => {
                return Err(e);
            },
        }
    }
    Ok(bundle)
}

/// Takes every table of `part` into `into`; the values of `part` win.
pub fn merge_bundles(into: &mut OfflineBundle, part: OfflineBundle)
    ensures
        forall|k: Seq<char>|
            #[trigger] final(into).devices.value_of(k) == match part.devices.value_of(k) {
                Some(v) => Some(v),
                None => old(into).devices.value_of(k),
            },
        forall|k: Seq<char>|
            #[trigger] final(into).footprint_data.value_of(k) == match part.footprint_data.value_of(k) {
                Some(v) => Some(v),
                None => old(into).footprint_data.value_of(k),
            },
        forall|k: Seq<char>|
            #[trigger] final(into).symbol_data.value_of(k) == match part.symbol_data.value_of(k) {
                Some(v) => Some(v),
                None => old(into).symbol_data.value_of(k),
            },
        forall|k: Seq<char>|
            #[trigger] final(into).footprint_titles.value_of(k) == match part.footprint_titles.value_of(k) {
                Some(v) => Some(v),
                None => old(into).footprint_titles.value_of(k),
            },
        forall|k: Seq<char>|
            #[trigger] final(into).symbol_titles.value_of(k) == match part.symbol_titles.value_of(k) {
                Some(v) => Some(v),
                None => old(into).symbol_titles.value_of(k),
            },
        forall|k: Seq<char>|
            #[trigger] final(into).symbol_prefix.value_of(k) == match part.symbol_prefix.value_of(k) {
                Some(v) => Some(v),
                None => old(into).symbol_prefix.value_of(k),
            },
{
    let OfflineBundle {
        devices,
        footprint_data,
        symbol_data,
        footprint_titles,
        symbol_titles,
        symbol_prefix,
    } = part;
    into.devices.absorb(devices);
    into.footprint_data.absorb(footprint_data);
    into.symbol_data.absorb(symbol_data);
    into.footprint_titles.absorb(footprint_titles);
    into.symbol_titles.absorb(symbol_titles);
    into.symbol_prefix.absorb(symbol_prefix);
}

/// Collects the identifiers named in the device manifest of an archive (see
/// `json_ids`); an archive without manifest, or with one that is not JSON, names none.
pub fn component_ids_in_archive(bytes: &Vec<u8>) -> (r: Result<Vec<String>, JlcError>)
    ensures
        r is Err <==> manifest_fails(bytes@),
        archive_listing(bytes@) is Some && listing_manifest(bytes@) is None ==> (r matches Ok(v) && v@.len() == 0),
        r matches Ok(v) ==> views_of(v@) == match manifest_json(bytes@) {
            Some(j) => crate::metadata::json_ids(j),
            None => seq![],
        },
{
    let ms = match read_archive(bytes) {
        Some(ms) => ms,
        None => {
            return Err(JlcError::ApiError(String::from_str("cannot read the library archive")));
        },
    };
    let mut out: Vec<String> = Vec::new();
    assert(views_of(out@) =~= Seq::<Seq<char>>::empty());
    let manifest = match find_member(&ms, "device.json") {
        Some(m) => m,
        None => match find_member(&ms, "device2.json") {
            Some(m) => m,
            None => {
                return Ok(out);
            },
        },
    };
    let text = match &manifest.text {
        Some(t) => t,
        None => {
            return Err(JlcError::IoError(String::from_str("device manifest is not UTF-8 text")));
        },
    };
    match parse_json(text.as_str()) {
        Some(j) => {
            crate::metadata::extract_component_ids_from_json_value(&j, &mut out);
        },
        None => {},
    }
    Ok(out)
}

/// The parsed device manifest of an archive, or none when it has none or it is not JSON.
pub fn read_manifest(bytes: &Vec<u8>) -> (r: Result<Option<Json>, JlcError>)
    ensures
        r is Err <==> manifest_fails(bytes@),
        r matches Ok(m) ==> m == manifest_json(bytes@),
{
    let ms = match read_archive(bytes) {
        Some(ms) => ms,
        None => {
            return Err(JlcError::ApiError(String::from_str("cannot read the library archive")));
        },
    };
    let manifest = match find_member(&ms, "device.json") {
        Some(m) => m,
        None => match find_member(&ms, "device2.json") {
            Some(m) => m,
            None => {
                return Ok(None);
            },
        },
    };
    match &manifest.text {
        Some(t) => Ok(parse_json(t.as_str())),
        None => Err(JlcError::IoError(String::from_str("device manifest is not UTF-8 text"))),
    }
}

} // verus!
