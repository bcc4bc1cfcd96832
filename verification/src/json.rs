//! Trusted boundary to the JSON crate's parsed values.
//!
//! The probe tool reports metadata as JSON; the parsed tree is the JSON
//! crate's type, opaque here, and these wrappers take its fields out as
//! plain values.  Every contract of this crate speaks only of what came
//! out of it.

use vstd::prelude::*;

verus! {

/// Relies on serde_json::Value, the parsed JSON tree, carried through
/// these wrappers as an opaque value.
#[verifier::external_type_specification]
#[verifier::external_body]
pub struct ExValue(serde_json::Value);

/// Relies on serde_json::Value::get with a string index: the entry under
/// this key, or `None` when the value is not an object or has no such key.
#[verifier::external_body]
pub(crate) fn json_key<'a>(v: &'a serde_json::Value, key: &str) -> Option<&'a serde_json::Value> {
    v.get(key)
}

/// Relies on serde_json::Value::get with a numeric index: the array
/// element, or `None` when the value is not an array or the index is out
/// of bounds.
#[verifier::external_body]
pub(crate) fn json_index<'a>(v: &'a serde_json::Value, i: usize) -> Option<
    &'a serde_json::Value,
> {
    v.get(i)
}

/// Relies on serde_json::Value::as_i64: the value as a signed integer,
/// or `None` when it is not an integer number in that range.
#[verifier::external_body]
pub(crate) fn json_as_i64(v: &serde_json::Value) -> Option<i64> {
    v.as_i64()
}

/// Relies on serde_json::Value::as_str: the value's text when it is a
/// JSON string, owned so the tree can be dropped.
#[verifier::external_body]
pub(crate) fn json_as_string(v: &serde_json::Value) -> Option<String> {
    match v.as_str() {
        Some(s) => Some(s.to_owned()),
        None => None,
    }
}

} // verus!
