//! Reading single string members out of JSON text with `serde_json`.

use vstd::prelude::*;
use crate::messages::opt_view;
use crate::text::strings_view;

verus! {

/// The string that `serde_json` finds at member `key` of the top-level object
/// of the JSON text `text`, if the text parses and that member is a string.
pub uninterp spec fn json_member_str(text: Seq<char>, key: Seq<char>) -> Option<Seq<char>>;

/// The string that `serde_json` finds at member `inner` of the object at
/// member `outer` of the JSON text `text`, if the text parses and that member
/// is a string.
pub uninterp spec fn json_nested_str(text: Seq<char>, outer: Seq<char>, inner: Seq<char>) -> Option<
    Seq<char>,
>;

/// Parses `text` with `serde_json::from_str` into a `serde_json::Value` and
/// reads member `key` with `Value::get` and `Value::as_str`. The result is
/// named, not described: it is `None` when the text does not parse, is not an
/// object, lacks the member or the member is not a string.
#[verifier::external_body]
pub(crate) fn json_member_string(text: &str, key: &str) -> (r: Option<String>)
    ensures
        opt_view(r) == json_member_str(text@, key@),
{
    serde_json::from_str::<serde_json::Value>(text)
        .ok()
        .and_then(|v| v.get(key).and_then(|x| x.as_str()).map(String::from))
}

/// Parses `text` with `serde_json::from_str` into a `serde_json::Value` and
/// reads member `inner` of member `outer` with `Value::get` and
/// `Value::as_str`. The result is named, not described.
#[verifier::external_body]
pub(crate) fn json_nested_string(text: &str, outer: &str, inner: &str) -> (r: Option<String>)
    ensures
        opt_view(r) == json_nested_str(text@, outer@, inner@),
{
    serde_json::from_str::<serde_json::Value>(text)
        .ok()
        .and_then(|v| v.get(outer)?.get(inner)?.as_str().map(String::from))
}

/// A list of texts, by its view.
pub open spec fn opt_strings_view(v: Option<Vec<String>>) -> Option<Seq<Seq<char>>> {
    match v {
        Some(items) => Some(strings_view(items@)),
        None => None,
    }
}

/// The items of the JSON list `text`, each written back as JSON text, if the
/// text parses as a list.
pub uninterp spec fn json_list_items(text: Seq<char>) -> Option<Seq<Seq<char>>>;

/// The items of the list at member `key` of the JSON text `text`, each
/// written back as JSON text, if the text parses, is an object with that
/// member and the member is a list.
pub uninterp spec fn json_member_items(text: Seq<char>, key: Seq<char>) -> Option<Seq<Seq<char>>>;

/// Whether the JSON text `text` parses as an object that has member `key`.
pub uninterp spec fn json_has_member(text: Seq<char>, key: Seq<char>) -> bool;

/// Parses `text` with `serde_json::from_str` into a `Vec<serde_json::Value>`
/// and writes each item back with `Value`'s `Display` (`to_string`). The
/// result is named, not described: `None` when the text is not a JSON list.
#[verifier::external_body]
pub(crate) fn json_list(text: &str) -> (r: Option<Vec<String>>)
    ensures
        opt_strings_view(r) == json_list_items(text@),
{
    let items: Vec<serde_json::Value> = serde_json::from_str(text).ok()?;
    let mut out = Vec::new();
    for v in &items {
        out.push(v.to_string());
    }
    Some(out)
}

/// Parses `text` with `serde_json::from_str` into a `serde_json::Value`,
/// reads member `key` with `Value::get` and `Value::as_array`, and writes each
/// item back with `to_string`. The result is named, not described.
#[verifier::external_body]
pub(crate) fn json_member_list(text: &str, key: &str) -> (r: Option<Vec<String>>)
    ensures
        opt_strings_view(r) == json_member_items(text@, key@),
{
    let v: serde_json::Value = serde_json::from_str(text).ok()?;
    let items = v.get(key)?.as_array()?;
    let mut out = Vec::new();
    for item in items {
        out.push(item.to_string());
    }
    Some(out)
}

/// Parses `text` with `serde_json::from_str` into a `serde_json::Value` and
/// tells whether `Value::get` finds member `key`. The result is named, not
/// described.
#[verifier::external_body]
pub(crate) fn json_member_present(text: &str, key: &str) -> (r: bool)
    ensures
        r == json_has_member(text@, key@),
{
    match serde_json::from_str::<serde_json::Value>(text) {
        Ok(v) => v.get(key).is_some(),
        Err(_) => false,
    }
}

} // verus!
