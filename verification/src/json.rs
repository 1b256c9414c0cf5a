//! The JSON reader. Lines in the structured encoding are read by
//! `serde_json`; what it returns is taken on trust and named here, so that
//! the decoder's contract can speak of it.

use vstd::prelude::*;

verus! {

/// `serde_json::Value`, a JSON value. Nothing of its inside is seen here.
#[verifier::external_type_specification]
#[verifier::external_body]
pub struct ExValue(serde_json::Value);

/// The JSON value that `text` writes, as `serde_json::from_str` reads it;
/// none where the text as a whole is no JSON value.
pub uninterp spec fn json_value(text: Seq<char>) -> Option<serde_json::Value>;

/// The member of the JSON object `value` under `key`, as `Value::get`
/// finds it; none where `value` is no object or has no such member.
pub uninterp spec fn member(value: serde_json::Value, key: Seq<char>) -> Option<serde_json::Value>;

/// Whether `value` is JSON's `null`, as `Value::is_null` tells.
pub uninterp spec fn is_null(value: serde_json::Value) -> bool;

/// The text of `value` where it is a JSON string, as `Value::as_str` gives
/// it.
pub uninterp spec fn as_text(value: serde_json::Value) -> Option<Seq<char>>;

/// The whole number that `value` is, as `Value::as_i64` gives it; none
/// where `value` is no number, or a number that `serde_json` does not hold
/// as a whole number of 64 bits.
pub uninterp spec fn as_whole(value: serde_json::Value) -> Option<i64>;

/// The text that `serde_json` writes the JSON number `value` as; none where
/// `value` is no number.
pub uninterp spec fn number_text(value: serde_json::Value) -> Option<Seq<char>>;

/// Reads `text` with `serde_json::from_str` as one JSON value. The result
/// is what that function returns on `text`, its error left out.
#[verifier::external_body]
pub(crate) fn read_json(text: &str) -> (value: Option<serde_json::Value>)
    ensures
        value == json_value(text@),
{
    serde_json::from_str::<serde_json::Value>(text).ok()
}

/// Looks `key` up in `value` with `Value::get`.
#[verifier::external_body]
pub(crate) fn get_member<'a>(value: &'a serde_json::Value, key: &str) -> (found: Option<
    &'a serde_json::Value,
>)
    ensures
        found matches Some(v) ==> member(*value, key@) == Some(*v),
        found is None ==> member(*value, key@) is None,
{
    value.get(key)
}

/// Asks `Value::is_null` whether `value` is `null`.
#[verifier::external_body]
pub(crate) fn value_is_null(value: &serde_json::Value) -> (null: bool)
    ensures
        null == is_null(*value),
{
    value.is_null()
}

/// Asks `Value::as_str` for the text of a JSON string.
#[verifier::external_body]
pub(crate) fn value_as_text<'a>(value: &'a serde_json::Value) -> (text: Option<&'a str>)
    ensures
        text matches Some(t) ==> as_text(*value) == Some(t@),
        text is None ==> as_text(*value) is None,
{
    value.as_str()
}

/// Asks `Value::as_i64` for the whole number that a JSON number is.
#[verifier::external_body]
pub(crate) fn value_as_whole(value: &serde_json::Value) -> (whole: Option<i64>)
    ensures
        whole == as_whole(*value),
{
    value.as_i64()
}

/// Asks `Value::as_number` for the JSON number and has `serde_json` write
/// it out, through `Number`'s `Display`.
#[verifier::external_body]
pub(crate) fn value_number_text(value: &serde_json::Value) -> (text: Option<String>)
    ensures
        text matches Some(t) ==> number_text(*value) == Some(t@),
        text is None ==> number_text(*value) is None,
{
    match value.as_number() {
        Some(number) => Some(number.to_string()),
        None => None,
    }
}

} // verus!
