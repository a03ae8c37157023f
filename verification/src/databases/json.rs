//! JSON values, as the relational store compares them.
//!
//! The values are built and written out by `serde_json`. A value is known
//! here by the compact text that `serde_json` writes for it; what is taken
//! for granted of that text is stated below, and nothing in this file is
//! proved.

use vstd::prelude::*;

verus! {

#[verifier::external_type_specification]
#[verifier::external_body]
pub struct ExValue(serde_json::Value);

/// The compact JSON text of a value: what its `Display` writes.
pub uninterp spec fn json_text(v: serde_json::Value) -> Seq<char>;

/// A character that JSON writes inside a string as it is: neither the quote
/// nor the backslash, and no control character.
pub open spec fn unescaped(c: char) -> bool {
    c != '"' && c != '\\' && (c as u32) >= 0x20
}

/// Text that JSON writes between quotes without changing it.
pub open spec fn plain(s: Seq<char>) -> bool {
    forall|i: int| 0 <= i < s.len() ==> unescaped(#[trigger] s[i])
}

/// `s` between double quotes.
pub open spec fn quoted(s: Seq<char>) -> Seq<char> {
    seq!['"'] + s + seq!['"']
}

/// `serde_json::Value::String`: a string without characters to escape is
/// written between double quotes, unchanged.
#[verifier::external_body]
pub(crate) fn json_string(s: &str) -> (v: serde_json::Value)
    ensures
        plain(s@) ==> json_text(v) == quoted(s@),
{
    serde_json::Value::String(s.to_string())
}

/// `serde_json::Value::Array` of one item: the item's text between square
/// brackets.
#[verifier::external_body]
pub(crate) fn json_array_of(item: serde_json::Value) -> (v: serde_json::Value)
    ensures
        json_text(v) == seq!['['] + json_text(item) + seq![']'],
{
    serde_json::Value::Array(vec![item])
}

/// `serde_json::Value::Object` of one entry: between braces the key, quoted,
/// a colon and the value's text.
#[verifier::external_body]
pub(crate) fn json_object_of(key: &str, value: serde_json::Value) -> (v: serde_json::Value)
    ensures
        plain(key@) ==> json_text(v) == seq!['{'] + quoted(key@) + seq![':'] + json_text(value)
            + seq!['}'],
{
    let mut entries = serde_json::Map::new();
    entries.insert(key.to_string(), value);
    serde_json::Value::Object(entries)
}

/// `Display` of `serde_json::Value`: the compact text of the value.
#[verifier::external_body]
pub(crate) fn json_render(v: &serde_json::Value) -> (text: String)
    ensures
        text@ == json_text(*v),
{
    v.to_string()
}

} // verus!
