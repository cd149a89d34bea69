//! JSON values and their text, as `serde_json` has them.
//!
//! A [`Value`] stays closed here: the library hands it on, asks `serde_json`
//! for its text, and asks whether it is an unsigned integer or a string.

use serde_json::Value;
use vstd::prelude::*;

verus! {

/// Declares `serde_json::Value`, a parsed JSON value.
#[verifier::external_type_specification]
#[verifier::external_body]
pub struct ExValue(serde_json::Value);

/// Declares `serde_json::Error`.
#[verifier::external_type_specification]
#[verifier::external_body]
pub struct ExJsonError(serde_json::Error);

/// What `Value::as_u64` returns for `value`.
pub uninterp spec fn json_u64(value: Value) -> Option<u64>;

/// What `Value::as_str` returns for `value`.
pub uninterp spec fn json_str(value: Value) -> Option<Seq<char>>;

/// What `Value::is_null` returns for `value`.
pub uninterp spec fn json_null(value: Value) -> bool;

/// The compact JSON text that `serde_json::to_string` writes for `value`.
pub uninterp spec fn json_text(value: Value) -> Seq<char>;

/// The JSON string literal, quotes and escapes included, that
/// `serde_json::to_string` writes for a string.
pub uninterp spec fn json_string(text: Seq<char>) -> Seq<char>;

/// `Value::as_u64`: the number, if the value is an integer that fits `u64`.
/// The result depends on the value alone and has the name [`json_u64`].
pub assume_specification[ serde_json::Value::as_u64 ](value: &Value) -> (r: Option<u64>)
    ensures
        r == json_u64(*value),
;

/// `Value::as_str`: the text, if the value is a string.
/// The result depends on the value alone and has the name [`json_str`].
pub assume_specification[ serde_json::Value::as_str ](value: &Value) -> (r: Option<&str>)
    ensures
        match r {
            Some(text) => json_str(*value) == Some(text@),
            None => json_str(*value) is None,
        },
;

/// Calls nothing but the constructor `Value::Null`: a value of which
/// `Value::is_null` says that it is null.
#[verifier::external_body]
pub(crate) fn null() -> (r: Value)
    ensures
        json_null(r),
{
    Value::Null
}

/// Calls `serde_json::to_string` on a string. The serializer writes a string
/// to memory, which never fails, and what it writes depends on the string
/// alone: the literal that has the name [`json_string`].
#[verifier::external_body]
pub(crate) fn string_text(text: &str) -> (r: Result<String, serde_json::Error>)
    ensures
        r is Ok,
        r->Ok_0@ == json_string(text@),
{
    serde_json::to_string(text)
}

/// Calls `serde_json::to_string` on a JSON value. The serializer writes it to
/// memory, and the keys of a JSON object are strings, so it never fails. What
/// it writes depends on the value alone and has the name [`json_text`].
#[verifier::external_body]
pub(crate) fn value_text(value: &Value) -> (r: Result<String, serde_json::Error>)
    ensures
        r is Ok,
        r->Ok_0@ == json_text(*value),
{
    serde_json::to_string(value)
}

} // verus!
