//! Reading single fields of JSON response bodies.
use vstd::prelude::*;

verus! {

/// Whether `text` is a JSON document whose value is an object.
pub uninterp spec fn json_object(text: Seq<char>) -> bool;

/// The boolean under `key` of the JSON object `text`, if there is one.
pub uninterp spec fn json_bool_at(text: Seq<char>, key: Seq<char>) -> Option<bool>;

/// The integer under `key` of the JSON object `text`, if it fits an `i64`.
pub uninterp spec fn json_i64_at(text: Seq<char>, key: Seq<char>) -> Option<i64>;

/// The integer under `key` of the JSON object `text`, if it fits a `u64`.
pub uninterp spec fn json_u64_at(text: Seq<char>, key: Seq<char>) -> Option<u64>;

/// The string under `key` of the JSON object `text`, if there is one.
pub uninterp spec fn json_str_at(text: Seq<char>, key: Seq<char>) -> Option<Seq<char>>;

/// `s` written as a JSON string literal, quotes and escapes included.
pub uninterp spec fn json_quoted_of(s: Seq<char>) -> Seq<char>;

/// Relies on `serde_json::to_string` of a `str`: the JSON string literal for
/// `s`. Serialising a string cannot fail.
#[verifier::external_body]
pub(crate) fn quote_json(s: &str) -> (r: String)
    ensures
        r@ == json_quoted_of(s@),
{
    match serde_json::to_string(s) {
        Ok(t) => t,
        Err(_) => String::new(),
    }
}

/// Relies on `serde_json::from_str::<serde_json::Value>` and `Value::is_object`:
/// whether the text parses as a JSON object.
#[verifier::external_body]
pub(crate) fn is_json_object(text: &str) -> (r: bool)
    ensures
        r == json_object(text@),
{
    serde_json::from_str::<serde_json::Value>(text).map_or(false, |v| v.is_object())
}

/// Relies on `serde_json::from_str`, `Value::get` and `Value::as_bool`: the
/// boolean field `key` of a JSON object; `None` for any other text, as
/// `get` finds nothing in a value that is not an object.
#[verifier::external_body]
pub(crate) fn bool_field(text: &str, key: &str) -> (r: Option<bool>)
    ensures
        r == json_bool_at(text@, key@),
        !json_object(text@) ==> r is None,
{
    serde_json::from_str::<serde_json::Value>(text).ok().and_then(|v| v.get(key)?.as_bool())
}

/// Relies on `serde_json::from_str`, `Value::get` and `Value::as_i64`: the
/// integer field `key` of a JSON object; `None` for other text.
#[verifier::external_body]
pub(crate) fn i64_field(text: &str, key: &str) -> (r: Option<i64>)
    ensures
        r == json_i64_at(text@, key@),
        !json_object(text@) ==> r is None,
{
    serde_json::from_str::<serde_json::Value>(text).ok().and_then(|v| v.get(key)?.as_i64())
}

/// Relies on `serde_json::from_str`, `Value::get` and `Value::as_u64`: the
/// unsigned integer field `key` of a JSON object; `None` for other text.
#[verifier::external_body]
pub(crate) fn u64_field(text: &str, key: &str) -> (r: Option<u64>)
    ensures
        r == json_u64_at(text@, key@),
        !json_object(text@) ==> r is None,
{
    serde_json::from_str::<serde_json::Value>(text).ok().and_then(|v| v.get(key)?.as_u64())
}

/// Relies on `serde_json::from_str`, `Value::get` and `Value::as_str`: the
/// string field `key` of a JSON object; `None` for other text.
#[verifier::external_body]
pub(crate) fn str_field(text: &str, key: &str) -> (r: Option<String>)
    ensures
        r is Some <==> json_str_at(text@, key@) is Some,
        r is Some ==> r->0@ == json_str_at(text@, key@)->0,
        !json_object(text@) ==> r is None,
{
    serde_json::from_str::<serde_json::Value>(text)
        .ok()
        .and_then(|v| v.get(key)?.as_str().map(|s| s.to_string()))
}

} // verus!
