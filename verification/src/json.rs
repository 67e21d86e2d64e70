//! Trusted bridge to the JSON parser.  The proposal payload is a strict
//! two-key JSON object produced by the model; what its parser returns is a
//! pure function of the document text, named here so that the extraction
//! logic above it can be exact and deterministic.

use vstd::prelude::*;

verus! {

/// Whether `text` parses as a JSON document holding a field named `key`.
pub uninterp spec fn json_field_present_of(text: Seq<char>, key: Seq<char>) -> bool;

/// The string value of field `key` of the JSON document `text`: present
/// exactly when `text` parses, the field exists and holds a string.
pub uninterp spec fn json_str_field_of(text: Seq<char>, key: Seq<char>) -> Option<Seq<char>>;

/// The view of an optional owned string.
pub open spec fn opt_string_view(o: Option<String>) -> Option<Seq<char>> {
    match o {
        Option::Some(s) => Option::Some(s@),
        Option::None => Option::None,
    }
}

/// Relies on serde_json::from_str::<Value> and serde_json::Value::get:
/// whether `text` is a JSON document with a field named `key`.  Both are
/// deterministic in their arguments, so the result is a function of
/// `text` and `key` alone.
#[verifier::external_body]
pub fn json_field_present(text: &str, key: &str) -> (r: bool)
    ensures
        r == json_field_present_of(text@, key@),
{
    match serde_json::from_str::<serde_json::Value>(text) {
        Ok(v) => match v.get(key) {
            Some(_) => true,
            None => false,
        },
        Err(_) => false,
    }
}

/// Relies on serde_json::from_str::<Value>, serde_json::Value::get and
/// serde_json::Value::as_str: the string value of field `key` of the JSON
/// document `text`, absent when the document does not parse, the field is
/// missing, or its value is not a string.  All three are deterministic in
/// their arguments, so the result is a function of `text` and `key` alone.
#[verifier::external_body]
pub fn json_str_field(text: &str, key: &str) -> (r: Option<String>)
    ensures
        opt_string_view(r) == json_str_field_of(text@, key@),
{
    match serde_json::from_str::<serde_json::Value>(text) {
        Ok(v) => match v.get(key) {
            Some(f) => match f.as_str() {
                Some(s) => Some(s.to_string()),
                None => None,
            },
            None => None,
        },
        Err(_) => None,
    }
}

} // verus!
