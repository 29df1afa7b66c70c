//! Values out of JSON documents, read with `serde_json`.

use crate::text::opt_string;
use vstd::prelude::*;

verus! {

/// The text member `key` of the JSON object `doc`, as `serde_json` reads it.
///
/// `None` where `doc` is no JSON document, is no object, has no such member, or the member
/// is no string.
pub uninterp spec fn json_text_member(doc: Seq<u8>, key: Seq<char>) -> Option<Seq<char>>;

/// `serde_json::from_slice` into a `serde_json::Value`, then `Value::get` with `key` and
/// `Value::as_str`: the result is a function of the document and the key, and that function
/// is called [`json_text_member`].
#[verifier::external_body]
pub(crate) fn text_member(doc: &[u8], key: &str) -> (r: Option<String>)
    ensures
        opt_string(r) == json_text_member(doc@, key@),
{
    let value: serde_json::Value = serde_json::from_slice(doc).ok()?;
    Some(value.get(key)?.as_str()?.to_owned())
}

/// The member `key` of the JSON object `doc` as an unsigned number of 64 bits, as
/// `serde_json` reads it.
///
/// `None` where `doc` is no JSON document, is no object, has no such member, or the member
/// is no such number.
pub uninterp spec fn json_number_member(doc: Seq<u8>, key: Seq<char>) -> Option<u64>;

/// `serde_json::from_slice` into a `serde_json::Value`, then `Value::get` with `key` and
/// `Value::as_u64`: the result is a function of the document and the key, and that function
/// is called [`json_number_member`].
#[verifier::external_body]
pub(crate) fn number_member(doc: &[u8], key: &str) -> (r: Option<u64>)
    ensures
        r == json_number_member(doc@, key@),
{
    let value: serde_json::Value = serde_json::from_slice(doc).ok()?;
    value.get(key)?.as_u64()
}

/// How many elements the JSON array `doc` has, as `serde_json` reads it.
///
/// `None` where `doc` is no JSON document or no array.
pub uninterp spec fn json_array_length(doc: Seq<u8>) -> Option<usize>;

/// `serde_json::from_slice` into a `serde_json::Value`, then `Value::as_array` and its
/// length: the result is a function of the document, and that function is called
/// [`json_array_length`].
#[verifier::external_body]
pub(crate) fn array_length(doc: &[u8]) -> (r: Option<usize>)
    ensures
        r == json_array_length(doc@),
{
    let value: serde_json::Value = serde_json::from_slice(doc).ok()?;
    value.as_array().map(Vec::len)
}

} // verus!
