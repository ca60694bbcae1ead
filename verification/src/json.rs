//! The JSON that the session logic reads and writes, by way of
//! `serde_json`. Nothing here is proved: each contract says what the
//! `serde_json` source shows of the call that the function makes.

use vstd::prelude::*;

verus! {

/// A parsed JSON document, `serde_json::Value`. Verified code carries it
/// around and asks it for members; it never looks inside.
#[verifier::external_type_specification]
#[verifier::external_body]
pub struct ExValue(serde_json::Value);

/// Why a text is not JSON, `serde_json::Error`.
#[verifier::external_type_specification]
#[verifier::external_body]
pub struct ExError(serde_json::Error);

/// The members of a document whose values are JSON strings, name to text.
/// A document that is not an object has none.
pub uninterp spec fn text_members(value: serde_json::Value) -> Map<Seq<char>, Seq<char>>;

/// The text members of the document that `text` parses to, or `None` where
/// `text` is not one JSON value followed by nothing but white space.
pub uninterp spec fn parsed_members(text: Seq<char>) -> Option<Map<Seq<char>, Seq<char>>>;

/// `text` written as a JSON string: in double quotes, with the characters
/// escaped that JSON wants escaped.
pub uninterp spec fn quoted(text: Seq<char>) -> Seq<char>;

/// Calls `serde_json::from_str` for a `serde_json::Value`.
///
/// Parsing depends on the text alone, so the text members of the document
/// that comes back are a function of the text, and whether an error comes
/// back is too.
#[verifier::external_body]
pub(crate) fn parse(text: &str) -> (result: Result<serde_json::Value, serde_json::Error>)
    ensures
        result matches Ok(value) ==> parsed_members(text@) == Some(text_members(value)),
        result is Err ==> parsed_members(text@) is None,
{
    serde_json::from_str(text)
}

/// Indexes the document by `key` and calls `Value::as_str` on what is
/// there.
///
/// Indexing by a string yields the member of that name where the document
/// is an object that has one, and `Null` otherwise; `as_str` yields the
/// text of a JSON string and `None` for anything else. So the answer is the
/// text member of that name, if there is one.
#[verifier::external_body]
pub(crate) fn member_text(value: &serde_json::Value, key: &str) -> (result: Option<String>)
    ensures
        result matches Some(text) ==> text_members(*value).contains_key(key@) && text_members(
            *value,
        )[key@] == text@,
        result is None ==> !text_members(*value).contains_key(key@),
{
    value[key].as_str().map(String::from)
}

/// Makes a `Value::String` of `text` and calls `to_string` on it, which
/// writes the compact JSON form of the value: for a string, the string as a
/// JSON string.
#[verifier::external_body]
pub(crate) fn quote(text: &str) -> (result: String)
    ensures
        result@ == quoted(text@),
{
    serde_json::Value::String(text.to_owned()).to_string()
}

} // verus!
