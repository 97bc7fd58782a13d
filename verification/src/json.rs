//! The JSON model used across the engine.
//!
//! Tool responses and tool arguments travel as JSON. The engine holds
//! them in its own closed datatype, `JsonValue`; the one place where an
//! outside parser runs is the trusted `parse_json` below. Numbers that
//! fit a signed 64-bit integer are held as integers; any other number is
//! kept as its decimal text, so that no floating point enters the core.

use crate::engine_error::EngineError;
use vstd::prelude::*;

verus! {

use vstd::string::StringExecFns;

/// A JSON document.
#[derive(Debug, PartialEq, Eq)]
pub enum JsonValue {
    Null,
    Bool(bool),
    /// A number that fits `i64`.
    Int(i64),
    /// Any other number, as its decimal rendering.
    NumText(String),
    Str(String),
    Array(Vec<JsonValue>),
    /// Fields in document order.
    Object(Vec<(String, JsonValue)>),
}

#[verifier::external_type_specification]
#[verifier::external_body]
pub struct ExSerdeValue(serde_json::Value);

/// The JSON document that a text parses to, in the model above; `None`
/// when the text is not JSON. The parse is a function of the text alone.
pub uninterp spec fn parsed_json(s: Seq<char>) -> Option<JsonValue>;

/// Converts a parsed outside document into the engine's model, variant
/// by variant; numbers go through `Number::as_i64` and fall back to
/// their decimal text.
#[verifier::external_body]
fn value_to_model(v: &serde_json::Value) -> JsonValue {
    match v {
        serde_json::Value::Null => JsonValue::Null,
        serde_json::Value::Bool(b) => JsonValue::Bool(*b),
        serde_json::Value::Number(n) => match n.as_i64() {
            Some(i) => JsonValue::Int(i),
            None => JsonValue::NumText(n.to_string()),
        },
        serde_json::Value::String(s) => JsonValue::Str(s.clone()),
        serde_json::Value::Array(a) => JsonValue::Array(a.iter().map(value_to_model).collect()),
        serde_json::Value::Object(m) => JsonValue::Object(
            m.iter().map(|(k, x)| (k.clone(), value_to_model(x))).collect(),
        ),
    }
}

/// Relies on `serde_json::from_str::<serde_json::Value>`: parses JSON
/// text; the result depends on the text alone.
#[verifier::external_body]
pub(crate) fn parse_json(s: &str) -> (r: Option<JsonValue>)
    ensures
        r == parsed_json(s@),
{
    match serde_json::from_str::<serde_json::Value>(s) {
        Ok(v) => Some(value_to_model(&v)),
        Err(_) => None,
    }
}

/// Normalizes a parsed tool response so that it always yields table
/// rows: an array yields its elements, a lone object yields itself as
/// the only row, and any other document is rejected.
pub fn normalize_rows(v: JsonValue, server_name: &str) -> (r: Result<Vec<JsonValue>, EngineError>)
    ensures
        (v matches JsonValue::Array(a) ==> r == Ok::<Vec<JsonValue>, EngineError>(a)),
        (v matches JsonValue::Object(_) ==> r matches Ok(rows) && rows@ == seq![v]),
        !(v is Array) && !(v is Object) ==> (r matches Err(e) && e is Exec),
{
    match v {
        JsonValue::Array(a) => Ok(a),
        JsonValue::Object(m) => Ok(vec![JsonValue::Object(m)]),
        _ => Err(
            EngineError::Exec(
                String::from_str("mcp-server(").concat(server_name).concat(
                    ") not return array or object.",
                ),
            ),
        ),
    }
}

} // verus!
