//! The JSON values that endpoints store and replies carry are
//! `serde_json::Value`s. This crate never looks inside them: it stores
//! them, clones them, and hands them back. The declarations here let the
//! rest of the crate hold such values and say "the same value" about them.

use vstd::prelude::*;
use vstd::string::StringSliceAdditionalSpecFns;

verus! {

#[verifier::external_type_specification]
#[verifier::external_body]
pub struct ExJsonValue(serde_json::Value);

/// Relies on `serde_json::Value`'s derived `Clone`: the clone is a deep
/// copy, indistinguishable from the original.
pub assume_specification[ <serde_json::Value as Clone>::clone ](v: &serde_json::Value) -> (r:
    serde_json::Value)
    ensures
        r == *v,
;

/// What parsing a byte sequence as one JSON document yields: `Some` of the
/// parsed value exactly when the bytes are a valid document, `None`
/// otherwise. The outcome depends on the bytes alone.
pub uninterp spec fn parsed_json(bytes: Seq<u8>) -> Option<serde_json::Value>;

/// Relies on `serde_json::from_slice::<Value>`: parses one JSON document
/// from bytes, deterministically in the bytes.
#[verifier::external_body]
pub fn parse_json_bytes(bytes: &Vec<u8>) -> (r: Option<serde_json::Value>)
    ensures
        r == parsed_json(bytes@),
{
    serde_json::from_slice::<serde_json::Value>(bytes.as_slice()).ok()
}

/// The fallback reply body an import stores when an operation offers no
/// example: the parse of the fixed document `{"message": "OK"}`.
pub open spec fn spec_default_import_response() -> serde_json::Value {
    parsed_json("{\"message\": \"OK\"}".spec_bytes())->0
}

/// Relies on `serde_json::from_slice::<Value>`: the fixed document
/// `{"message": "OK"}` is valid JSON, so its parse succeeds, and this is
/// that parsed value.
#[verifier::external_body]
pub fn default_import_response() -> (r: serde_json::Value)
    ensures
        parsed_json("{\"message\": \"OK\"}".spec_bytes()) == Some(r),
{
    serde_json::from_slice::<serde_json::Value>(b"{\"message\": \"OK\"}").unwrap()
}

} // verus!
