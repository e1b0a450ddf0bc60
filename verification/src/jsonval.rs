//! Trusted interface to raw JSON payloads held as `serde_json::Value`.
//!
//! A payload is opaque here: all the pipeline ever reads from it is the
//! string field or unsigned-integer field under a key, and both reads are
//! pure functions of the document value, named below so that extraction
//! contracts can speak of them exactly.

use vstd::prelude::*;

verus! {

#[verifier::external_type_specification]
#[verifier::external_body]
pub struct ExValue(serde_json::Value);

/// The string field of a JSON document under a key: present exactly when the
/// document is an object whose entry under the key is a JSON string.
pub uninterp spec fn str_field(v: serde_json::Value, key: Seq<char>) -> Option<Seq<char>>;

/// The unsigned-integer field of a JSON document under a key: present exactly
/// when the document is an object whose entry under the key is an integer
/// representable as `u64`.
pub uninterp spec fn u64_field(v: serde_json::Value, key: Seq<char>) -> Option<u64>;

/// Relies on serde_json::Value::get and Value::as_str: `get` looks the key up
/// in the document when it is an object, `as_str` yields the string when the
/// entry is a JSON string. Both are pure reads, so the result is a function
/// of the document value and the key alone.
#[verifier::external_body]
pub(crate) fn get_str_field(v: &serde_json::Value, key: &str) -> (r: Option<String>)
    ensures
        (r matches Some(s) ==> str_field(*v, key@) == Some(s@)),
        (r is None ==> str_field(*v, key@) is None),
{
    match v.get(key) {
        Some(f) => f.as_str().map(|s| s.to_string()),
        None => None,
    }
}

/// Relies on serde_json::Value::get and Value::as_u64: `get` looks the key up
/// in the document when it is an object, `as_u64` yields the integer when the
/// entry is a non-negative integer that fits in `u64`. Both are pure reads,
/// so the result is a function of the document value and the key alone.
#[verifier::external_body]
pub(crate) fn get_u64_field(v: &serde_json::Value, key: &str) -> (r: Option<u64>)
    ensures
        (r matches Some(n) ==> u64_field(*v, key@) == Some(n)),
        (r is None ==> u64_field(*v, key@) is None),
{
    match v.get(key) {
        Some(f) => f.as_u64(),
        None => None,
    }
}

} // verus!
