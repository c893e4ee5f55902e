//! JSON documents, held as their bytes.
//!
//! Parsing is `serde_json`'s. A document is looked into one step at a time: a step takes the bytes
//! of a document and gives the bytes of a part of it, which is a document again.
use vstd::prelude::*;

verus! {

/// Whether `serde_json` accepts the bytes as a JSON document.
pub uninterp spec fn json_valid(document: Seq<u8>) -> bool;

/// The value that an object has under a key, as a document; none where the bytes are no object or
/// the object lacks the key.
pub uninterp spec fn json_member(document: Seq<u8>, key: Seq<char>) -> Option<Seq<u8>>;

/// The elements of an array, each as a document; none where the bytes are no array.
pub uninterp spec fn json_elements(document: Seq<u8>) -> Option<Seq<Seq<u8>>>;

/// The text of a JSON string; none where the bytes are no JSON string.
pub uninterp spec fn json_text(document: Seq<u8>) -> Option<Seq<char>>;

/// A document as `serde_json` writes it, without spaces between its parts.
pub uninterp spec fn json_written(document: Seq<u8>) -> Seq<char>;

/// The contents of a list of documents.
pub open spec fn documents(list: Seq<Vec<u8>>) -> Seq<Seq<u8>> {
    list.map_values(|document: Vec<u8>| document@)
}

/// `serde_json::from_slice` into a `serde_json::Value`: whether it succeeds is a function of the
/// bytes alone, here called [`json_valid`].
#[verifier::external_body]
pub(crate) fn is_valid(document: &[u8]) -> (valid: bool)
    ensures
        valid == json_valid(document@),
{
    serde_json::from_slice::<serde_json::Value>(document).is_ok()
}

/// `serde_json::Value::get` with a key, on the parsed bytes, and the value found written out by
/// `serde_json::to_vec`. The result is a function of the bytes and the key alone, here called
/// [`json_member`].
#[verifier::external_body]
pub(crate) fn member(document: &[u8], key: &str) -> (value: Option<Vec<u8>>)
    ensures
        match value {
            Some(v) => json_member(document@, key@) == Some(v@),
            None => json_member(document@, key@) is None,
        },
{
    let value: serde_json::Value = serde_json::from_slice(document).ok()?;
    serde_json::to_vec(value.get(key)?).ok()
}

/// `serde_json::Value::as_array` on the parsed bytes, and each element written out by
/// `serde_json::to_vec`. The result is a function of the bytes alone, here called
/// [`json_elements`].
#[verifier::external_body]
pub(crate) fn elements(document: &[u8]) -> (items: Option<Vec<Vec<u8>>>)
    ensures
        match items {
            Some(v) => json_elements(document@) == Some(documents(v@)),
            None => json_elements(document@) is None,
        },
{
    let value: serde_json::Value = serde_json::from_slice(document).ok()?;
    value.as_array()?.iter().map(|item| serde_json::to_vec(item).ok()).collect()
}

/// `serde_json::Value::as_str` on the parsed bytes. The result is a function of the bytes alone,
/// here called [`json_text`].
#[verifier::external_body]
pub(crate) fn text(document: &[u8]) -> (content: Option<String>)
    ensures
        match content {
            Some(s) => json_text(document@) == Some(s@),
            None => json_text(document@) is None,
        },
{
    let value: serde_json::Value = serde_json::from_slice(document).ok()?;
    value.as_str().map(str::to_string)
}

/// `serde_json::to_string` of the parsed bytes, or nothing where they are no document. The result is
/// a function of the bytes alone, here called [`json_written`].
#[verifier::external_body]
pub(crate) fn written(document: &[u8]) -> (content: String)
    ensures
        content@ == json_written(document@),
{
    let value = serde_json::from_slice::<serde_json::Value>(document);
    value.ok().and_then(|v| serde_json::to_string(&v).ok()).unwrap_or_default()
}

} // verus!
