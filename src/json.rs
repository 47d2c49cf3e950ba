//! JSON values and URLs as the event model uses them: serde_json and url do
//! the work, and each result is named here so that contracts can speak of it.
use vstd::prelude::*;
use vstd::utf8::{decode_utf8, valid_utf8};

verus! {

#[verifier::external_type_specification]
#[verifier::external_body]
pub struct ExValue(serde_json::Value);

/// Relies on the derived `Clone` of `serde_json::Value`: a structural copy.
pub assume_specification[ <serde_json::Value as Clone>::clone ](v: &serde_json::Value) -> (r:
    serde_json::Value)
    ensures
        r == *v,
;

/// The bytes `serde_json::to_vec` writes for a value.
pub uninterp spec fn json_encoding(v: serde_json::Value) -> Seq<u8>;

/// What `serde_json::from_slice` reads from bytes, or `None` where it fails.
pub uninterp spec fn json_decoding(b: Seq<u8>) -> Option<serde_json::Value>;

/// The text `serde_json::to_string` writes for a value.
pub uninterp spec fn json_text(v: serde_json::Value) -> Seq<char>;

/// The serialisation of a URL that `url::Url::parse` accepts, or `None` where
/// it rejects the text.
pub uninterp spec fn url_serialization(s: Seq<char>) -> Option<Seq<char>>;

/// The text `String::from_utf8_lossy` makes of bytes that are not valid
/// UTF-8.
pub uninterp spec fn lossy_text(b: Seq<u8>) -> Seq<char>;

/// The text of received bytes: valid UTF-8 decoded as it is, anything else
/// with replacement characters.
pub open spec fn text_of(b: Seq<u8>) -> Seq<char> {
    if valid_utf8(b) {
        decode_utf8(b)
    } else {
        lossy_text(b)
    }
}

/// Relies on `String::from_utf8_lossy`: valid UTF-8 decodes as it is, other
/// bytes with replacement characters.
#[verifier::external_body]
pub(crate) fn text_of_bytes(b: &[u8]) -> (r: String)
    ensures
        r@ == (if valid_utf8(b@) {
            decode_utf8(b@)
        } else {
            lossy_text(b@)
        }),
{
    String::from_utf8_lossy(b).into_owned()
}

/// Relies on `serde_json::to_vec`: the JSON encoding of a value.
#[verifier::external_body]
pub(crate) fn encode_json(v: &serde_json::Value) -> (r: Result<Vec<u8>, String>)
    ensures
        r is Ok,
        r matches Ok(b) ==> b@ == json_encoding(*v),
{
    serde_json::to_vec(v).map_err(|e| e.to_string())
}

/// Relies on `serde_json::from_slice`: parses JSON text into a value.
#[verifier::external_body]
pub(crate) fn decode_json(b: &[u8]) -> (r: Result<serde_json::Value, String>)
    ensures
        r is Ok <==> json_decoding(b@) is Some,
        r matches Ok(v) ==> json_decoding(b@) == Some(v),
{
    serde_json::from_slice(b).map_err(|e| e.to_string())
}

/// Relies on `serde_json::to_string`: the JSON text of a value.
#[verifier::external_body]
pub(crate) fn json_to_text(v: &serde_json::Value) -> (r: Result<String, String>)
    ensures
        r is Ok,
        r matches Ok(s) ==> s@ == json_text(*v),
{
    serde_json::to_string(v).map_err(|e| e.to_string())
}

/// Relies on `serde_json::Value::Null`, the JSON `null`, which serde_json
/// writes as the four characters `null`.
#[verifier::external_body]
pub(crate) fn json_null() -> (r: serde_json::Value)
    ensures
        json_text(r) == seq!['n', 'u', 'l', 'l'],
        json_encoding(r) == seq![110u8, 117u8, 108u8, 108u8],
{
    serde_json::Value::Null
}

/// Relies on `url::Url::parse` and the URL's `to_string`: validates and
/// normalises a URL.
#[verifier::external_body]
pub(crate) fn parse_url(s: &str) -> (r: Result<String, String>)
    ensures
        r is Ok <==> url_serialization(s@) is Some,
        r matches Ok(u) ==> url_serialization(s@) == Some(u@),
{
    url::Url::parse(s).map(|u| u.to_string()).map_err(|e| e.to_string())
}

} // verus!
