//! Reading the members of a JSON value.
use vstd::prelude::*;

use serde_json::Value;

verus! {

/// `serde_json::Value::get` with a key: the member of an object under
/// `key`, if the value is an object that has one.
pub uninterp spec fn json_member(value: Value, key: Seq<char>) -> Option<Value>;

/// `serde_json::Value::as_str`: the text of a JSON string.
pub uninterp spec fn json_text(value: Value) -> Option<Seq<char>>;

/// `serde_json::Value::is_null`: whether the value is `null`.
pub uninterp spec fn json_null(value: Value) -> bool;

/// `serde_json::Value::is_number`: whether the value is a number.
pub uninterp spec fn json_number(value: Value) -> bool;

/// `serde_json::Value::as_u64`: the value of a JSON number that is a
/// non-negative integer fitting in `u64`.
pub uninterp spec fn json_unsigned(value: Value) -> Option<u64>;

/// `serde_json::Value::is_object`: whether the value is an object.
pub uninterp spec fn json_object(value: Value) -> bool;

/// `serde_json::Value::as_array`: the items of a JSON array.
pub uninterp spec fn json_items(value: Value) -> Option<Seq<Value>>;

/// `serde_json::Value::as_u64`: the value of a non-negative integer that
/// fits in `u64`, or `None` for any other value.
#[verifier::external_body]
pub(crate) fn as_unsigned(value: &Value) -> (n: Option<u64>)
    ensures
        n == json_unsigned(*value),
{
    value.as_u64()
}

/// `serde_json::Value::is_object`: whether the value is an object.
#[verifier::external_body]
pub(crate) fn is_object(value: &Value) -> (object: bool)
    ensures
        object == json_object(*value),
{
    value.is_object()
}

/// `serde_json::Value::as_array`: the items of a JSON array, or `None`
/// for any other value.
#[verifier::external_body]
pub(crate) fn as_items(value: &Value) -> (items: Option<&Vec<Value>>)
    ensures
        match json_items(*value) {
            None => items is None,
            Some(xs) => items matches Some(a) && a@ == xs,
        },
{
    value.as_array()
}

/// `serde_json::Value::get` with a key: the member of an object under
/// `key`; `None` for a value that is no object or has no such member.
#[verifier::external_body]
pub(crate) fn member<'a>(value: &'a Value, key: &str) -> (found: Option<&'a Value>)
    ensures
        match json_member(*value, key@) {
            None => found is None,
            Some(m) => found matches Some(f) && *f == m,
        },
{
    value.get(key)
}

/// `serde_json::Value::as_str`: the text of a JSON string, or `None` for
/// any other value.
#[verifier::external_body]
pub(crate) fn as_text(value: &Value) -> (text: Option<&str>)
    ensures
        match json_text(*value) {
            None => text is None,
            Some(t) => text matches Some(s) && s@ == t,
        },
{
    value.as_str()
}

/// `serde_json::Value::is_null`: whether the value is `null`.
#[verifier::external_body]
pub(crate) fn is_null(value: &Value) -> (null: bool)
    ensures
        null == json_null(*value),
{
    value.is_null()
}

/// `serde_json::Value::is_number`: whether the value is a number.
#[verifier::external_body]
pub(crate) fn is_number(value: &Value) -> (number: bool)
    ensures
        number == json_number(*value),
{
    value.is_number()
}

/// The items of the member `key`, when the value has one and it is an
/// array.
pub open spec fn array_member(value: Value, key: Seq<char>) -> Option<Seq<Value>> {
    match json_member(value, key) {
        Some(m) => json_items(m),
        None => None,
    }
}

/// The items of the member `key`, when the value has one and it is an
/// array.
pub fn array_field<'a>(value: &'a Value, key: &str) -> (items: Option<&'a Vec<Value>>)
    ensures
        match array_member(*value, key@) {
            None => items is None,
            Some(xs) => items matches Some(a) && a@ == xs,
        },
{
    match member(value, key) {
        Some(m) => as_items(m),
        None => None,
    }
}

/// The text of the member `key`, when the value has one and it is a string.
pub open spec fn text_member(value: Value, key: Seq<char>) -> Option<Seq<char>> {
    match json_member(value, key) {
        Some(m) => json_text(m),
        None => None,
    }
}

/// The member `key` as an owned string, when the value has one and it is
/// a string.
pub fn owned_text_field(value: &Value, key: &str) -> (text: Option<String>)
    ensures
        match text_member(*value, key@) {
            None => text is None,
            Some(t) => text matches Some(s) && s@ == t,
        },
{
    match text_field(value, key) {
        Some(t) => {
            let mut owned = String::new();
            owned.append(t);
            assert(owned@ =~= t@);
            Some(owned)
        },
        None => None,
    }
}

/// The text of the member `key`, when the value has one and it is a string.
pub fn text_field<'a>(value: &'a Value, key: &str) -> (text: Option<&'a str>)
    ensures
        match text_member(*value, key@) {
            None => text is None,
            Some(t) => text matches Some(s) && s@ == t,
        },
{
    match member(value, key) {
        Some(m) => as_text(m),
        None => None,
    }
}

} // verus!
