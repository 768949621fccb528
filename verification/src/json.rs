//! The boundary to the JSON parser.
//!
//! A parsed document is carried through the crate as a `serde_json::Value`,
//! of which the verifier sees nothing. What the contracts say of a document
//! they say of its compact text, [`json_text`]; the other names below are
//! functions from text to text. Nothing in this file is proved: each function
//! states what the parser's documentation and source give.

use vstd::prelude::*;

verus! {

/// A parsed JSON document.
#[verifier::external_type_specification]
#[verifier::external_body]
pub struct ExValue(serde_json::Value);

/// Why a text could not be parsed.
#[verifier::external_type_specification]
#[verifier::external_body]
pub struct ExError(serde_json::Error);

/// The compact JSON text of a document, as its `Display` impl writes it:
/// no white space between tokens, strings enclosed in double quotes with
/// their escapes.
pub uninterp spec fn json_text(document: serde_json::Value) -> Seq<char>;

/// The compact text of the document that `text` parses to; `None` where
/// `text` is not one JSON document.
pub uninterp spec fn json_parsed(text: Seq<char>) -> Option<Seq<char>>;

/// The compact text of the member `key` of the object with the compact text
/// `document`; `None` where the document is no object or has no such member.
pub uninterp spec fn json_member(document: Seq<char>, key: Seq<char>) -> Option<Seq<char>>;

/// The compact texts of the elements of the array with the compact text
/// `document`, in order; `None` where the document is no array.
pub uninterp spec fn json_elements(document: Seq<char>) -> Option<Seq<Seq<char>>>;

/// The compact texts of a vector of documents.
pub open spec fn json_texts(documents: Seq<serde_json::Value>) -> Seq<Seq<char>> {
    documents.map_values(|document: serde_json::Value| json_text(document))
}

/// `serde_json::from_str` at `Value`: parses one JSON document. The claim is
/// that success and the compact text of the result depend on `text` alone.
#[verifier::external_body]
pub(crate) fn parse(text: &str) -> (parsed: Result<serde_json::Value, serde_json::Error>)
    ensures
        match parsed {
            Ok(document) => json_parsed(text@) == Some(json_text(document)),
            Err(_) => json_parsed(text@) is None,
        },
{
    serde_json::from_str::<serde_json::Value>(text)
}

/// `Value::get` with a string index: the member of that name if the value is
/// an object that has one. The claim is that the member's compact text
/// depends on the object's compact text and the name alone.
#[verifier::external_body]
pub(crate) fn member<'a>(document: &'a serde_json::Value, key: &str) -> (found: Option<
    &'a serde_json::Value,
>)
    ensures
        match found {
            Some(inner) => json_member(json_text(*document), key@) == Some(json_text(*inner)),
            None => json_member(json_text(*document), key@) is None,
        },
{
    document.get(key)
}

/// `Value::as_array`: the elements if the value is an array. The claim is
/// that their compact texts depend on the array's compact text alone.
#[verifier::external_body]
pub(crate) fn elements<'a>(document: &'a serde_json::Value) -> (found: Option<
    &'a Vec<serde_json::Value>,
>)
    ensures
        match found {
            Some(items) => json_elements(json_text(*document)) == Some(json_texts(items@)),
            None => json_elements(json_text(*document)) is None,
        },
{
    document.as_array()
}

/// `Value`'s `Display` through `to_string`: the compact text.
#[verifier::external_body]
pub(crate) fn render(document: &serde_json::Value) -> (text: String)
    ensures
        text@ == json_text(*document),
{
    document.to_string()
}

} // verus!
