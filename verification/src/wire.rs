//! JSON text, as far as the messages of this crate need it: writing one
//! string, reading a document and reading one member of it. All are left
//! to `serde_json`.

use vstd::prelude::*;

verus! {

/// The JSON text that `serde_json::to_string` writes for the string `s`:
/// the string in quotes with its escapes; `None` where it reports an error.
pub uninterp spec fn json_string(s: Seq<char>) -> Option<Seq<char>>;

/// The document that `serde_json::from_str` reads from `text`; `None`
/// where it reports an error: `text` is no JSON.
pub uninterp spec fn json_document(text: Seq<char>) -> Option<serde_json::Value>;

/// The member under `key` that `serde_json::Value::get` finds in `doc`;
/// `None` where `doc` is no object or has no such member.
pub uninterp spec fn json_member(doc: serde_json::Value, key: Seq<char>) -> Option<
    serde_json::Value,
>;

/// The string that `serde_json::Value::as_str` finds in `value`; `None`
/// where `value` is no string.
pub uninterp spec fn json_text(value: serde_json::Value) -> Option<Seq<char>>;

/// The number that `serde_json::Value::as_u64` finds in `value`; `None`
/// where `value` is not an integer from 0 to `u64::MAX`.
pub uninterp spec fn json_number(value: serde_json::Value) -> Option<u64>;

/// The string under `key` in the document `doc`.
pub open spec fn json_text_member(doc: serde_json::Value, key: Seq<char>) -> Option<Seq<char>> {
    match json_member(doc, key) {
        Some(value) => json_text(value),
        None => None,
    }
}

/// The number under `key` in the document `doc`.
pub open spec fn json_number_member(doc: serde_json::Value, key: Seq<char>) -> Option<u64> {
    match json_member(doc, key) {
        Some(value) => json_number(value),
        None => None,
    }
}

#[verifier::external_type_specification]
#[verifier::external_body]
pub struct ExJsonValue(serde_json::Value);

#[verifier::external_type_specification]
#[verifier::external_body]
pub struct ExJsonError(serde_json::Error);

/// Calls `serde_json::to_string` on a string. Trusted: the text and the
/// failure depend on the string alone; they are named `json_string`.
#[verifier::external_body]
fn to_json_string(s: &str) -> (r: Result<String, serde_json::Error>)
    ensures
        json_string(s@) == match r {
            Ok(t) => Some(t@),
            Err(_) => None,
        },
{
    serde_json::to_string(s)
}

/// Calls `serde_json::from_str` for a `serde_json::Value`. Trusted: the
/// document and the failure depend on the text alone; they are named
/// `json_document`.
#[verifier::external_body]
fn parse_document(text: &str) -> (r: Result<serde_json::Value, serde_json::Error>)
    ensures
        json_document(text@) == match r {
            Ok(doc) => Some(doc),
            Err(_) => None,
        },
{
    serde_json::from_str(text)
}

/// Calls `serde_json::Value::get` with a string key. Trusted: the
/// result depends on the document and the key alone and is named
/// `json_member`.
#[verifier::external_body]
fn get_member<'a>(doc: &'a serde_json::Value, key: &str) -> (r: Option<&'a serde_json::Value>)
    ensures
        json_member(*doc, key@) == match r {
            Some(value) => Some(*value),
            None => None,
        },
{
    doc.get(key)
}

/// Calls `serde_json::Value::as_str` and copies the string. Trusted: the
/// result depends on the value alone and is named `json_text`.
#[verifier::external_body]
fn text_in(value: &serde_json::Value) -> (r: Option<String>)
    ensures
        r.deep_view() == json_text(*value),
{
    value.as_str().map(String::from)
}

/// Calls `serde_json::Value::as_u64`. Trusted: the result depends on the
/// value alone and is named `json_number`.
#[verifier::external_body]
fn number_in(value: &serde_json::Value) -> (r: Option<u64>)
    ensures
        r == json_number(*value),
{
    value.as_u64()
}

/// Reads `text` as a JSON document, or `None` where it is none.
pub fn parse(text: &str) -> (r: Option<serde_json::Value>)
    ensures
        r == json_document(text@),
{
    match parse_document(text) {
        Ok(doc) => Some(doc),
        Err(_) => None,
    }
}

/// The string under `key` in the document `doc`, if it holds one.
pub fn text_member(doc: &serde_json::Value, key: &str) -> (r: Option<String>)
    ensures
        r.deep_view() == json_text_member(*doc, key@),
{
    match get_member(doc, key) {
        Some(value) => text_in(value),
        None => None,
    }
}

/// The number under `key` in the document `doc`, if it holds one.
pub fn number_member(doc: &serde_json::Value, key: &str) -> (r: Option<u64>)
    ensures
        r == json_number_member(*doc, key@),
{
    match get_member(doc, key) {
        Some(value) => number_in(value),
        None => None,
    }
}

/// The string `s` as JSON text, or `None` where it cannot be written.
pub fn quote(s: &str) -> (r: Option<String>)
    ensures
        r.deep_view() == json_string(s@),
{
    match to_json_string(s) {
        Ok(t) => Some(t),
        Err(_) => None,
    }
}

/// Whether two texts are the same.
pub fn same_text(a: &str, b: &str) -> (same: bool)
    ensures
        same == (a@ == b@),
{
    a.to_owned() == b.to_owned()
}

} // verus!
