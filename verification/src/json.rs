//! JSON documents as plain data, and the reading of JSON text.

use vstd::prelude::*;

verus! {

/// A JSON number as the reader classifies it.
#[derive(Clone, Debug, PartialEq, Eq)]
pub enum Number {
    /// A whole number that is not negative.
    PosInt(u64),
    /// A whole number below zero.
    NegInt(i64),
    /// Any other number, by its text.
    Float(String),
}

/// A JSON value.
#[derive(Debug, PartialEq, Eq)]
pub enum Json {
    Null,
    Bool(bool),
    Number(Number),
    Text(String),
    Array(Vec<Json>),
    /// The members of an object, each with its key.
    Object(Vec<(String, Json)>),
}

#[verifier::external_type_specification]
#[verifier::external_body]
pub struct ExValue(serde_json::Value);

/// The JSON value that the reader makes of a run of bytes, if it accepts
/// them as one JSON document. The reader refuses some documents that the
/// grammar of JSON allows, such as one nested deeper than its limit.
pub uninterp spec fn document(bytes: Seq<u8>) -> Option<Json>;

/// What a value of the JSON reader holds.
pub uninterp spec fn content(value: serde_json::Value) -> Json;

/// Reads bytes as one JSON document, through `serde_json::from_slice`.
/// Believed of it: what it returns depends on the bytes alone, so that the
/// bytes it accepts and the value it gives for them can be named. Where it
/// fails, the reader's own message comes back, with nothing claimed of it.
#[verifier::external_body]
fn read_value(bytes: &[u8]) -> (r: Result<serde_json::Value, String>)
    ensures
        r matches Ok(value) ==> document(bytes@) == Some(content(value)),
        r is Err ==> document(bytes@) is None,
{
    serde_json::from_slice::<serde_json::Value>(bytes).map_err(|error| error.to_string())
}

/// Writes a value of the JSON reader as plain data, variant by variant:
/// `serde_json::Value` and, for numbers, `serde_json::Number::as_u64`,
/// `as_i64` and its text. The members of an object come in the order in which
/// the reader's map hands them out.
#[verifier::external_body]
fn plain(value: serde_json::Value) -> (json: Json)
    ensures
        json == content(value),
{
    match value {
        serde_json::Value::Null => Json::Null,
        serde_json::Value::Bool(b) => Json::Bool(b),
        serde_json::Value::Number(n) => Json::Number(match (n.as_u64(), n.as_i64()) {
            (Some(u), _) => Number::PosInt(u),
            (None, Some(i)) => Number::NegInt(i),
            (None, None) => Number::Float(n.to_string()),
        }),
        serde_json::Value::String(s) => Json::Text(s),
        serde_json::Value::Array(items) => Json::Array(items.into_iter().map(plain).collect()),
        serde_json::Value::Object(m) => Json::Object(m.into_iter().map(|(k, v)| (k, plain(v))).collect()),
    }
}

/// Why bytes could not be read: the reader does not accept them as a JSON
/// document. Holds the reader's message, with line and column.
#[derive(Clone, Debug, PartialEq, Eq)]
pub struct SyntaxError {
    pub message: String,
}

/// Reads bytes as one JSON document: the value that the reader makes of
/// them, or its message where it does not accept them.
pub fn parse(bytes: &[u8]) -> (r: Result<Json, SyntaxError>)
    ensures
        r matches Ok(json) ==> document(bytes@) == Some(json),
        r is Err <==> document(bytes@) is None,
{
    match read_value(bytes) {
        Ok(value) => Ok(plain(value)),
        Err(message) => Err(SyntaxError { message }),
    }
}

} // verus!
