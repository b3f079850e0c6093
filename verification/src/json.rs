//! The JSON messages of the Codex app server, as plain values: reading a
//! line of JSON, and the accessors the account queries use.
use vstd::prelude::*;
use crate::text::str_eq;

verus! {

/// A JSON number, as the three readings `serde_json` offers: as an
/// unsigned integer, as a signed integer, and the bit pattern of its
/// floating-point reading.
pub struct JsonNumber {
    pub unsigned: Option<u64>,
    pub signed: Option<i64>,
    pub float_bits: u64,
}

/// A JSON value. An object keeps its members in the order `serde_json`
/// holds them (sorted by key, each key once).
pub enum JsonValue {
    Null,
    Bool(bool),
    Number(JsonNumber),
    Str(String),
    Array(Vec<JsonValue>),
    Object(Vec<(String, JsonValue)>),
}

/// The value of the first member named `key`.
pub open spec fn entry_get(entries: Seq<(String, JsonValue)>, key: Seq<char>) -> Option<JsonValue>
    decreases entries.len(),
{
    if entries.len() == 0 {
        None
    } else if entries[0].0@ == key {
        Some(entries[0].1)
    } else {
        entry_get(entries.drop_first(), key)
    }
}

/// The member `key` of an object (`Value::get`); nothing for other values.
pub open spec fn json_get(v: JsonValue, key: Seq<char>) -> Option<JsonValue> {
    match v {
        JsonValue::Object(entries) => entry_get(entries@, key),
        _ => None,
    }
}

/// The member `b` of the member `a` (`Value::pointer("/a/b")` for keys
/// that are not array indices).
pub open spec fn json_get2(v: JsonValue, a: Seq<char>, b: Seq<char>) -> Option<JsonValue> {
    match json_get(v, a) {
        Some(x) => json_get(x, b),
        None => None,
    }
}

/// A string value (`Value::as_str`).
pub open spec fn str_of(v: Option<JsonValue>) -> Option<Seq<char>> {
    match v {
        Some(JsonValue::Str(s)) => Some(s@),
        _ => None,
    }
}

/// An unsigned integer (`Value::as_u64`).
pub open spec fn u64_of(v: Option<JsonValue>) -> Option<u64> {
    match v {
        Some(JsonValue::Number(n)) => n.unsigned,
        _ => None,
    }
}

/// A signed integer (`Value::as_i64`).
pub open spec fn i64_of(v: Option<JsonValue>) -> Option<i64> {
    match v {
        Some(JsonValue::Number(n)) => n.signed,
        _ => None,
    }
}

/// Any number, as the bits of its floating-point reading (`Value::as_f64`).
pub open spec fn float_of(v: Option<JsonValue>) -> Option<u64> {
    match v {
        Some(JsonValue::Number(n)) => Some(n.float_bits),
        _ => None,
    }
}

proof fn lemma_entry_get_skip(entries: Seq<(String, JsonValue)>, key: Seq<char>, i: int)
    requires
        0 <= i < entries.len(),
        entries[i].0@ != key,
    ensures
        entry_get(entries.skip(i), key) == entry_get(entries.skip(i + 1), key),
{
    assert(entries.skip(i).drop_first() =~= entries.skip(i + 1));
}

/// The member `key` of an object.
pub fn get<'a>(v: &'a JsonValue, key: &str) -> (r: Option<&'a JsonValue>)
    ensures
        match r {
            Some(x) => json_get(*v, key@) == Some(*x),
            None => json_get(*v, key@) is None,
        },
{
    match v {
        JsonValue::Object(entries) => {
            let mut i: usize = 0;
            assert(entries@.skip(0) =~= entries@);
            while i < entries.len()
                invariant
                    i <= entries@.len(),
                    json_get(*v, key@) == entry_get(entries@, key@),
                    entry_get(entries@, key@) == entry_get(entries@.skip(i as int), key@),
                decreases entries@.len() - i,
            {
                if str_eq(entries[i].0.as_str(), key) {
                    assert(entries@.skip(i as int)[0] == entries@[i as int]);
                    return Some(&entries[i].1);
                }
                proof {
                    lemma_entry_get_skip(entries@, key@, i as int);
                }
                i = i + 1;
            }
            None
        },
        _ => None,
    }
}

/// The member `key` of an object, taken out of it.
pub fn into_member(v: JsonValue, key: &str) -> (r: Option<JsonValue>)
    ensures
        r == json_get(v, key@),
{
    match v {
        JsonValue::Object(entries) => {
            let ghost all = entries@;
            let mut entries = entries;
            let mut i: usize = 0;
            assert(all.skip(0) =~= all);
            while i < entries.len()
                invariant
                    entries@ == all,
                    i <= all.len(),
                    json_get(v, key@) == entry_get(all, key@),
                    entry_get(all, key@) == entry_get(all.skip(i as int), key@),
                decreases all.len() - i,
            {
                if str_eq(entries[i].0.as_str(), key) {
                    assert(all.skip(i as int)[0] == all[i as int]);
                    let (_, value) = entries.remove(i);
                    return Some(value);
                }
                proof {
                    lemma_entry_get_skip(all, key@, i as int);
                }
                i = i + 1;
            }
            None
        },
        _ => None,
    }
}

/// The member `b` of the member `a`.
pub fn get2<'a>(v: &'a JsonValue, a: &str, b: &str) -> (r: Option<&'a JsonValue>)
    ensures
        match r {
            Some(x) => json_get2(*v, a@, b@) == Some(*x),
            None => json_get2(*v, a@, b@) is None,
        },
{
    match get(v, a) {
        Some(x) => get(x, b),
        None => None,
    }
}

/// A string value.
pub fn as_str<'a>(v: Option<&'a JsonValue>) -> (r: Option<&'a str>)
    ensures
        match r {
            Some(s) => v is Some && str_of(Some(*v.unwrap())) == Some(s@),
            None => v is None || str_of(Some(*v.unwrap())) is None,
        },
{
    match v {
        Some(JsonValue::Str(s)) => Some(s.as_str()),
        _ => None,
    }
}

/// An unsigned integer value.
pub fn as_u64(v: Option<&JsonValue>) -> (r: Option<u64>)
    ensures
        r == match v {
            Some(x) => u64_of(Some(*x)),
            None => None,
        },
{
    match v {
        Some(JsonValue::Number(n)) => n.unsigned,
        _ => None,
    }
}

/// A signed integer value.
pub fn as_i64(v: Option<&JsonValue>) -> (r: Option<i64>)
    ensures
        r == match v {
            Some(x) => i64_of(Some(*x)),
            None => None,
        },
{
    match v {
        Some(JsonValue::Number(n)) => n.signed,
        _ => None,
    }
}

/// Any number, as the bits of its floating-point reading.
pub fn as_float_bits(v: Option<&JsonValue>) -> (r: Option<u64>)
    ensures
        r == match v {
            Some(x) => float_of(Some(*x)),
            None => None,
        },
{
    match v {
        Some(JsonValue::Number(n)) => Some(n.float_bits),
        _ => None,
    }
}

#[verifier::external_type_specification]
#[verifier::external_body]
pub struct ExSerdeJsonValue(serde_json::Value);

/// What `serde_json::from_str::<serde_json::Value>` reads from a text, as a
/// `JsonValue`; `None` where the text is not one JSON value.
pub uninterp spec fn spec_parse_json(text: Seq<char>) -> Option<JsonValue>;

/// The `JsonValue` holding the same data as a `serde_json::Value`, member
/// for member, with each number given by `as_u64`, `as_i64` and the bits of
/// `as_f64`.
#[verifier::external_body]
fn json_of(v: &serde_json::Value) -> JsonValue {
    match v {
        serde_json::Value::Null => JsonValue::Null,
        serde_json::Value::Bool(b) => JsonValue::Bool(*b),
        serde_json::Value::Number(n) => JsonValue::Number(JsonNumber {
            unsigned: n.as_u64(),
            signed: n.as_i64(),
            float_bits: n.as_f64().unwrap_or_default().to_bits(),
        }),
        serde_json::Value::String(s) => JsonValue::Str(s.clone()),
        serde_json::Value::Array(items) => JsonValue::Array(items.iter().map(json_of).collect()),
        serde_json::Value::Object(members) => JsonValue::Object(
            members.iter().map(|(k, m)| (k.clone(), json_of(m))).collect(),
        ),
    }
}

/// Reads one JSON value from a text (`serde_json::from_str` into a
/// `serde_json::Value`). The contract names the result: which texts are
/// JSON, and what they hold, is `serde_json`'s grammar.
#[verifier::external_body]
fn parse_json(text: &str) -> (r: Option<JsonValue>)
    ensures
        r == spec_parse_json(text@),
{
    match serde_json::from_str::<serde_json::Value>(text) {
        Ok(v) => Some(json_of(&v)),
        Err(_) => None,
    }
}

/// A message of the app server: one line of its output read as JSON, or
/// nothing when the line is not JSON (such lines are skipped).
pub fn read_message(line: &str) -> (r: Option<JsonValue>)
    ensures
        r == spec_parse_json(line@),
{
    parse_json(line)
}

} // verus!
