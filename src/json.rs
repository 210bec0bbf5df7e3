//! The JSON documents of the API, read through `serde_json`.
use vstd::prelude::*;

use crate::reading::is_numeral;

verus! {

#[verifier::external_type_specification]
#[verifier::external_body]
pub struct ExValue(serde_json::Value);

#[verifier::external_type_specification]
#[verifier::external_body]
pub struct ExJsonError(serde_json::Error);

/// A JSON value as a tree. A number is held as the text `serde_json`
/// writes for it (`5.0`, `-3`, `10.65`).
pub enum JsonTree {
    Null,
    Bool(bool),
    Number(Seq<char>),
    Text(Seq<char>),
    Array(Seq<JsonTree>),
    Object(Map<Seq<char>, JsonTree>),
}

/// What a `serde_json::Value` holds.
pub uninterp spec fn json_tree(v: serde_json::Value) -> JsonTree;

/// The JSON document that a text is, if it is one.
pub uninterp spec fn json_document(text: Seq<char>) -> Option<JsonTree>;

/// The member `key` of an object; `Null` where there is none (or `t` is no
/// object).
pub open spec fn field(t: JsonTree, key: Seq<char>) -> JsonTree {
    match t {
        JsonTree::Object(m) => if m.contains_key(key) {
            m[key]
        } else {
            JsonTree::Null
        },
        _ => JsonTree::Null,
    }
}

/// Relies on `serde_json::from_str` into a `Value`: whether it succeeds, and
/// the document it gives, depend on the text alone. It fails on text that is
/// no JSON document, and on documents nested more than 128 levels deep.
#[verifier::external_body]
pub(crate) fn parse_document(text: &str) -> (r: Result<serde_json::Value, serde_json::Error>)
    ensures
        match r {
            Ok(v) => json_document(text@) == Some(json_tree(v)),
            Err(_) => json_document(text@) is None,
        },
{
    serde_json::from_str::<serde_json::Value>(text)
}

/// Relies on `serde_json::Value::get` with a string key: the member of that
/// name of an object, `None` for a missing member or a value that is no
/// object.
#[verifier::external_body]
pub(crate) fn member<'a>(v: &'a serde_json::Value, key: &str) -> (r: Option<&'a serde_json::Value>)
    ensures
        match json_tree(*v) {
            JsonTree::Object(m) => if m.contains_key(key@) {
                r matches Some(x) && json_tree(*x) == m[key@]
            } else {
                r is None
            },
            _ => r is None,
        },
{
    v.get(key)
}

/// Relies on `serde_json::Value::as_str`: the text of a string value.
#[verifier::external_body]
pub(crate) fn as_text<'a>(v: &'a serde_json::Value) -> (r: Option<&'a str>)
    ensures
        match json_tree(*v) {
            JsonTree::Text(s) => r matches Some(x) && x@ == s,
            _ => r is None,
        },
{
    v.as_str()
}

/// Relies on `serde_json::Value::as_number`, with the number written out
/// by `Number`'s `Display` (without the `arbitrary_precision` feature): the
/// text of a number value. An integer is written by `itoa` (an optional `-`
/// and at most 20 digits); a float, always finite, by
/// `zmij::Buffer::format_finite` into its 24-byte buffer, as `12.34`,
/// `0.001234`, `12340000000.0`, `1.234e+33` or `1e-7`. Either way the text
/// is a JSON numeral of at most 24 characters.
#[verifier::external_body]
pub(crate) fn number_text(v: &serde_json::Value) -> (r: Option<String>)
    ensures
        match json_tree(*v) {
            JsonTree::Number(s) => r matches Some(x) && x@ == s,
            _ => r is None,
        },
        r matches Some(x) ==> is_numeral(x@) && x@.len() <= 24,
{
    v.as_number().map(serde_json::Number::to_string)
}

/// Relies on `serde_json::Value::as_array`: the elements of an array value.
#[verifier::external_body]
pub(crate) fn as_items<'a>(v: &'a serde_json::Value) -> (r: Option<&'a Vec<serde_json::Value>>)
    ensures
        match json_tree(*v) {
            JsonTree::Array(items) => r matches Some(x) && x@.map_values(|e: serde_json::Value| json_tree(e)) == items,
            _ => r is None,
        },
{
    v.as_array()
}

} // verus!
