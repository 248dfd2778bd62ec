//! JSON values as the library reads them, parsed and written by serde_json.
use vstd::prelude::*;

use crate::text::{trim, trim_chars};
use crate::chars::{chars_of, str_eq, string_of};

verus! {

/// A JSON value. A number keeps its decimal text; an object keeps its entries
/// in the order serde_json lists them.
pub enum Json {
    Null,
    Bool(bool),
    Number(String),
    Str(String),
    Array(Vec<Json>),
    Object(Vec<(String, Json)>),
}

#[verifier::external_type_specification]
#[verifier::external_body]
pub struct ExJsonValue(serde_json::Value);

/// What serde_json makes of `text`: the value, or none when it is not JSON.
pub uninterp spec fn parsed_json(text: Seq<char>) -> Option<Json>;

/// The JSON text serde_json writes for a value.
pub uninterp spec fn json_text_of(j: Json) -> Seq<char>;

/// Relies on serde_json's `Value` variants: moves each into the variant of
/// `Json` of the same name, a number as its text.
#[verifier::external_body]
fn json_from_value(v: serde_json::Value) -> Json {
    match v {
        serde_json::Value::Null => Json::Null,
        serde_json::Value::Bool(b) => Json::Bool(b),
        serde_json::Value::Number(n) => Json::Number(n.to_string()),
        serde_json::Value::String(s) => Json::Str(s),
        serde_json::Value::Array(a) => Json::Array(a.into_iter().map(json_from_value).collect()),
        serde_json::Value::Object(m) => Json::Object(
            m.into_iter().map(|(k, v)| (k, json_from_value(v))).collect(),
        ),
    }
}

/// Relies on serde_json's `Value` variants: the inverse of `json_from_value`,
/// a number read back from its text.
#[verifier::external_body]
fn json_to_value(j: &Json) -> serde_json::Value {
    match j {
        Json::Null => serde_json::Value::Null,
        Json::Bool(b) => serde_json::Value::Bool(*b),
        Json::Number(n) => n.parse::<serde_json::Number>().map_or(serde_json::Value::Null, serde_json::Value::Number),
        Json::Str(s) => serde_json::Value::String(s.clone()),
        Json::Array(a) => serde_json::Value::Array(a.iter().map(json_to_value).collect()),
        Json::Object(m) => serde_json::Value::Object(
            m.iter().map(|(k, v)| (k.clone(), json_to_value(v))).collect(),
        ),
    }
}

/// Relies on `serde_json::from_str` into a `Value`: the parsed value, or none
/// on malformed text.
#[verifier::external_body]
pub fn parse_json(text: &str) -> (r: Option<Json>)
    ensures
        r == parsed_json(text@),
{
    serde_json::from_str::<serde_json::Value>(text).ok().map(json_from_value)
}

/// Relies on `serde_json::Value`'s `to_string`: the compact JSON text of the value.
#[verifier::external_body]
pub fn json_to_string(j: &Json) -> (r: String)
    ensures
        r@ == json_text_of(*j),
{
    json_to_value(j).to_string()
}

/// The value under the first entry named `key` among `entries`.
pub open spec fn entry_value(entries: Seq<(String, Json)>, key: Seq<char>) -> Option<Json>
    decreases entries.len(),
{
    if entries.len() == 0 {
        None
    } else if entries[0].0@ == key {
        Some(entries[0].1)
    } else {
        entry_value(entries.drop_first(), key)
    }
}

/// The field `key` of an object; none for a missing field or a value that is not an object.
pub open spec fn field(j: Json, key: Seq<char>) -> Option<Json> {
    match j {
        Json::Object(entries) => entry_value(entries@, key),
        _ => None,
    }
}

/// The field `key` of an object when it is a string.
pub open spec fn str_field(j: Json, key: Seq<char>) -> Option<Seq<char>> {
    match field(j, key) {
        Some(Json::Str(s)) => Some(s@),
        _ => None,
    }
}

/// The first of `keys` whose field is a string that is not blank, trimmed.
pub open spec fn first_str(j: Json, keys: Seq<Seq<char>>) -> Option<Seq<char>>
    decreases keys.len(),
{
    if keys.len() == 0 {
        None
    } else {
        match str_field(j, keys[0]) {
            Some(s) => if trim(s).len() > 0 {
                Some(trim(s))
            } else {
                first_str(j, keys.drop_first())
            },
            None => first_str(j, keys.drop_first()),
        }
    }
}

pub open spec fn key_views(keys: Seq<&str>) -> Seq<Seq<char>> {
    keys.map_values(|k: &str| k@)
}

proof fn lemma_entry_value_skip(entries: Seq<(String, Json)>, key: Seq<char>, i: int)
    requires
        0 <= i <= entries.len(),
        forall|j: int| 0 <= j < i ==> (#[trigger] entries[j]).0@ != key,
    ensures
        entry_value(entries, key) == entry_value(entries.skip(i), key),
    decreases i,
{
    if i > 0 {
        let t = entries.drop_first();
        assert(entries[0].0@ != key);
        assert forall|j: int| 0 <= j < i - 1 implies (#[trigger] t[j]).0@ != key by {
            assert(t[j] == entries[j + 1]);
        }
        lemma_entry_value_skip(t, key, i - 1);
        assert(t.skip(i - 1) =~= entries.skip(i));
    } else {
        assert(entries.skip(0) =~= entries);
    }
}

/// The field `key` of an object.
pub fn get<'a>(j: &'a Json, key: &str) -> (r: Option<&'a Json>)
    ensures
        match r {
            Some(v) => field(*j, key@) == Some(*v),
            None => field(*j, key@) is None,
        },
{
    match j {
        Json::Object(entries) => {
            let mut i: usize = 0;
            while i < entries.len()
                invariant
                    0 <= i <= entries@.len(),
                    *j == Json::Object(*entries),
                    forall|k: int| 0 <= k < i ==> (#[trigger] entries@[k]).0@ != key@,
                decreases entries@.len() - i,
            {
                if str_eq(entries[i].0.as_str(), key) {
                    proof {
                        lemma_entry_value_skip(entries@, key@, i as int);
                        assert(entries@.skip(i as int)[0] == entries@[i as int]);
                    }
                    return Some(&entries[i].1);
                }
                i = i + 1;
            }
            proof {
                lemma_entry_value_skip(entries@, key@, i as int);
            }
            None
        },
        _ => None,
    }
}

/// The field `key` of an object when it is a string.
pub fn get_str<'a>(j: &'a Json, key: &str) -> (r: Option<&'a String>)
    ensures
        match r {
            Some(s) => str_field(*j, key@) == Some(s@),
            None => str_field(*j, key@) is None,
        },
{
    match get(j, key) {
        Some(Json::Str(s)) => Some(s),
        _ => None,
    }
}

/// The first of `keys` whose field is a string that is not blank, trimmed.
pub fn first_non_empty_str(value: &Json, keys: &Vec<&str>) -> (r: Option<String>)
    ensures
        match first_str(*value, key_views(keys@)) {
            Some(s) => r matches Some(t) && t@ == s,
            None => r is None,
        },
{
    let ghost kv = key_views(keys@);
    let mut i: usize = 0;
    assert(kv.skip(0) =~= kv);
    while i < keys.len()
        invariant
            0 <= i <= keys@.len(),
            kv == key_views(keys@),
            first_str(*value, kv) == first_str(*value, kv.skip(i as int)),
        decreases keys@.len() - i,
    {
        assert(kv.skip(i as int).drop_first() =~= kv.skip(i + 1));
        assert(kv.skip(i as int)[0] == keys@[i as int]@);
        match get_str(value, keys[i]) {
            Some(s) => {
                let c = chars_of(s.as_str());
                let t = trim_chars(&c);
                if t.len() > 0 {
                    return Some(string_of(&t));
                }
            },
            None => {},
        }
        i = i + 1;
    }
    assert(kv.skip(i as int).len() == 0);
    None
}

} // verus!
