//! The JSON values that messages carry, and the two things this crate relies
//! on serde_json for: quoting a string and parsing JSON text.
use vstd::prelude::*;
use serde_json::Value;

verus! {

#[verifier::external_type_specification]
#[verifier::external_body]
pub struct ExValue(serde_json::Value);

/// The bytes of the JSON string literal that stands for `s`, quotes and
/// escapes included.
pub uninterp spec fn json_string(s: Seq<char>) -> Seq<u8>;

/// Relies on `serde_json::to_vec` on a `&str`: the JSON string literal for
/// `s`. Writing into a `Vec` cannot fail, so neither can the call.
#[verifier::external_body]
pub(crate) fn quote_json(s: &str) -> (r: Vec<u8>)
    ensures
        r@ == json_string(s@),
{
    serde_json::to_vec(s).expect("serializing a str into memory does not fail")
}

/// A JSON value as this crate reads it. A number is kept as the text that
/// serde_json writes for it (decimal digits, with `-` when negative, for an
/// integer), and an object as its members in order, keys as UTF-8 bytes.
#[derive(Debug)]
pub enum Json {
    Null,
    Bool(bool),
    Number(Vec<u8>),
    Str(String),
    Array(Vec<Json>),
    Object(Vec<(Vec<u8>, Json)>),
}

/// The JSON value that the bytes `b` hold as JSON text, or `None`.
pub uninterp spec fn json_of(b: Seq<u8>) -> Option<Json>;

/// Relies on `serde_json::from_slice` into a `serde_json::Value`: whether
/// `b` is JSON, and which value, depends on the bytes alone.
#[verifier::external_body]
pub(crate) fn parse_json(b: &[u8]) -> (r: Option<Json>)
    ensures
        r == json_of(b@),
{
    serde_json::from_slice::<Value>(b).ok().map(json_from_value)
}

/// Turns a `serde_json::Value` into a `Json`, variant for variant; numbers
/// through `serde_json::Number`'s `Display`. Only `parse_json` uses it.
#[verifier::external_body]
fn json_from_value(v: Value) -> Json {
    match v {
        Value::Null => Json::Null,
        Value::Bool(b) => Json::Bool(b),
        Value::Number(n) => Json::Number(n.to_string().into_bytes()),
        Value::String(s) => Json::Str(s),
        Value::Array(a) => Json::Array(a.into_iter().map(json_from_value).collect()),
        Value::Object(m) => Json::Object(m.into_iter().map(|(k, v)| (k.into_bytes(), json_from_value(v))).collect()),
    }
}

} // verus!
