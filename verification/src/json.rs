//! A plain model of JSON documents, with serde_json doing the reading and
//! writing. The parsers of this crate read the model; none of them needs
//! more than what a document says at a few fixed depths.

use vstd::prelude::*;
use serde::de::Unexpected;
use serde_json::Value;

verus! {

#[verifier::external_type_specification]
#[verifier::external_body]
pub struct ExJsonNumber(serde_json::Number);

#[verifier::external_type_specification]
#[verifier::external_body]
pub struct ExSerdeValue(serde_json::Value);

/// A JSON number, carried through unchanged. `unexpected` is how serde names
/// the number in a type error (for example "integer `5`").
#[derive(Debug)]
pub struct JsonNumber {
    pub value: serde_json::Number,
    pub unexpected: String,
}

/// A JSON value. An object lists its members in the order serde_json keeps
/// them (sorted by key, each key once).
#[derive(Debug)]
pub enum JsonValue {
    Null,
    Bool(bool),
    Number(JsonNumber),
    String(String),
    Array(Vec<JsonValue>),
    Object(Vec<(String, JsonValue)>),
}

/// What `serde_json::from_slice::<Value>` makes of the bytes: the document,
/// or the text of the error it reports.
pub uninterp spec fn json_parse(bytes: Seq<u8>) -> Result<JsonValue, Seq<char>>;

/// The compact text that serde_json writes for a value.
pub uninterp spec fn json_text(v: JsonValue) -> Seq<char>;

/// Turns a `serde_json::Value` into the model, one node for one node; a
/// number keeps its `serde_json::Number` and gets serde's description of it.
/// Only the two wrappers below call it.
#[verifier::external_body]
fn from_serde(v: Value) -> JsonValue {
    match v {
        Value::Null => JsonValue::Null,
        Value::Bool(b) => JsonValue::Bool(b),
        Value::Number(n) => JsonValue::Number(JsonNumber { unexpected: describe_number(&n), value: n }),
        Value::String(s) => JsonValue::String(s),
        Value::Array(a) => JsonValue::Array(a.into_iter().map(from_serde).collect()),
        Value::Object(m) => JsonValue::Object(m.into_iter().map(|(k, v)| (k, from_serde(v))).collect()),
    }
}

/// How serde's `Unexpected` names a number in a type error, by the kind the
/// number reads as: unsigned, signed or floating. Only `from_serde` calls it.
#[verifier::external_body]
fn describe_number(n: &serde_json::Number) -> String {
    match (n.as_u64(), n.as_i64(), n.as_f64()) {
        (Some(u), _, _) => Unexpected::Unsigned(u).to_string(),
        (None, Some(i), _) => Unexpected::Signed(i).to_string(),
        (None, None, Some(f)) => Unexpected::Float(f).to_string(),
        (None, None, None) => String::new(),
    }
}

/// Turns the model back into a `serde_json::Value`, one node for one node.
/// Only the wrappers below call it.
#[verifier::external_body]
fn to_serde(v: &JsonValue) -> serde_json::Value {
    match v {
        JsonValue::Null => serde_json::Value::Null,
        JsonValue::Bool(b) => serde_json::Value::Bool(*b),
        JsonValue::Number(n) => serde_json::Value::Number(n.value.clone()),
        JsonValue::String(s) => serde_json::Value::String(s.clone()),
        JsonValue::Array(a) => serde_json::Value::Array(a.iter().map(to_serde).collect()),
        JsonValue::Object(m) => serde_json::Value::Object(m.iter().map(|(k, v)| (k.clone(), to_serde(v))).collect()),
    }
}

/// Reads a JSON document with `serde_json::from_slice` into a
/// `serde_json::Value` and converts it. Claimed: the outcome, the document or
/// the error's text, is a function of the bytes alone.
#[verifier::external_body]
pub(crate) fn parse_json_bytes(bytes: &[u8]) -> (res: Result<JsonValue, String>)
    ensures
        match res {
            Ok(v) => json_parse(bytes@) == Ok::<JsonValue, Seq<char>>(v),
            Err(e) => json_parse(bytes@) == Err::<JsonValue, Seq<char>>(e@),
        },
{
    match serde_json::from_slice::<serde_json::Value>(bytes) {
        Ok(v) => Ok(from_serde(v)),
        Err(e) => Err(e.to_string()),
    }
}

/// Every element is a string.
pub open spec fn all_strings(a: Seq<JsonValue>) -> bool {
    forall|i: int| 0 <= i < a.len() ==> #[trigger] a[i] is String
}

/// The texts of the string elements (an empty text for any other element).
pub open spec fn string_texts(a: Seq<JsonValue>) -> Seq<Seq<char>> {
    a.map_values(|x: JsonValue| match x {
        JsonValue::String(s) => s@,
        _ => Seq::<char>::empty(),
    })
}

/// Reading back what was written: an array of strings reads back as an
/// array of the same strings.
pub open spec fn reads_back(v: JsonValue, text: Seq<char>) -> bool {
    match v {
        JsonValue::Array(a) => all_strings(a@) ==> match json_parse(vstd::utf8::encode_utf8(text)) {
            Ok(JsonValue::Array(b)) => all_strings(b@) && string_texts(b@) == string_texts(a@),
            _ => false,
        },
        _ => true,
    }
}

/// Writes a value as compact JSON with serde_json's `Display` for `Value`.
/// Claimed: the text is a function of the value alone, and serde_json reads
/// an array of strings back from its text as the same strings (it escapes
/// every string it writes).
#[verifier::external_body]
pub(crate) fn write_json(v: &JsonValue) -> (res: String)
    ensures
        res@ == json_text(*v),
        reads_back(*v, res@),
{
    to_serde(v).to_string()
}

/// Reads a JSON document into the model: the document, or the text of
/// serde_json's error.
pub fn read_json(bytes: &[u8]) -> (res: Result<JsonValue, String>)
    ensures
        match res {
            Ok(v) => json_parse(bytes@) == Ok::<JsonValue, Seq<char>>(v),
            Err(e) => json_parse(bytes@) == Err::<JsonValue, Seq<char>>(e@),
        },
{
    parse_json_bytes(bytes)
}

/// Writes a value as compact JSON.
pub fn to_json_text(v: &JsonValue) -> (res: String)
    ensures
        res@ == json_text(*v),
{
    write_json(v)
}

/// The value of the last member named `key` (`Value::get` on an object).
pub open spec fn member(fields: Seq<(String, JsonValue)>, key: Seq<char>) -> Option<JsonValue>
    decreases fields.len(),
{
    if fields.len() == 0 {
        None
    } else if fields.last().0@ == key {
        Some(fields.last().1)
    } else {
        member(fields.drop_last(), key)
    }
}

/// `Value::get(key)`: a member of an object; nothing for any other value.
pub open spec fn spec_get(v: JsonValue, key: Seq<char>) -> Option<JsonValue> {
    match v {
        JsonValue::Object(fields) => member(fields@, key),
        _ => None,
    }
}

/// `Value::as_str`.
pub open spec fn spec_as_str(v: JsonValue) -> Option<Seq<char>> {
    match v {
        JsonValue::String(s) => Some(s@),
        _ => None,
    }
}

/// `get(key)` followed by `as_str`.
pub open spec fn get_str(v: JsonValue, key: Seq<char>) -> Option<Seq<char>> {
    match spec_get(v, key) {
        Some(x) => spec_as_str(x),
        None => None,
    }
}

/// Whether a string holds exactly the characters of a `str`.
pub fn same_text(a: &String, b: &str) -> (res: bool)
    ensures
        res == (a@ == b@),
{
    let owned = b.to_owned();
    a.eq(&owned)
}

/// `Value::get(key)`.
pub fn get<'a>(v: &'a JsonValue, key: &str) -> (res: Option<&'a JsonValue>)
    ensures
        match res {
            Some(r) => spec_get(*v, key@) == Some(*r),
            None => spec_get(*v, key@) is None,
        },
{
    match v {
        JsonValue::Object(fields) => {
            let mut i = fields.len();
            assert(fields@.take(i as int) == fields@);
            while i > 0
                invariant
                    i <= fields@.len(),
                    spec_get(*v, key@) == member(fields@, key@),
                    member(fields@, key@) == member(fields@.take(i as int), key@),
                decreases i,
            {
                assert(fields@.take(i as int).drop_last() == fields@.take(i - 1));
                assert(fields@.take(i as int).last() == fields@[i - 1]);
                if same_text(&fields[i - 1].0, key) {
                    assert(member(fields@.take(i as int), key@) == Some(fields@[i - 1].1));
                    return Some(&fields[i - 1].1);
                }
                i = i - 1;
            }
            None
        },
        _ => None,
    }
}

/// `Value::as_str`.
pub fn as_str(v: &JsonValue) -> (res: Option<&String>)
    ensures
        match res {
            Some(s) => spec_as_str(*v) == Some(s@),
            None => spec_as_str(*v) is None,
        },
{
    match v {
        JsonValue::String(s) => Some(s),
        _ => None,
    }
}

/// `get(key)` followed by `as_str`.
pub fn get_string<'a>(v: &'a JsonValue, key: &str) -> (res: Option<&'a String>)
    ensures
        match res {
            Some(s) => get_str(*v, key@) == Some(s@),
            None => get_str(*v, key@) is None,
        },
{
    match get(v, key) {
        Some(x) => as_str(x),
        None => None,
    }
}

} // verus!
