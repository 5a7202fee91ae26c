//! Byte and text encodings: Base64 through the `base64` crate, and UTF-8
//! through `std`.
use vstd::prelude::*;
use vstd::utf8::{valid_utf8, decode_utf8};

verus! {

/// The bytes that `base64::engine::general_purpose::STANDARD.decode` gives
/// for the UTF-8 bytes of `text`, or `None` where it reports an error.
pub uninterp spec fn spec_base64_decode(text: Seq<char>) -> Option<Seq<u8>>;

/// The text that `base64::engine::general_purpose::STANDARD.encode` gives
/// for the UTF-8 bytes of `text`.
pub uninterp spec fn spec_base64_encode(text: Seq<char>) -> Seq<char>;

/// The text that `String::from_utf8_lossy` reads from `bytes`.
pub uninterp spec fn spec_utf8_lossy(bytes: Seq<u8>) -> Seq<char>;

/// `STANDARD.decode(text)` (standard alphabet, padding required); the bytes
/// are named, not stated.
#[verifier::external_body]
pub(crate) fn base64_decode(text: &str) -> (r: Option<Vec<u8>>)
    ensures
        match r {
            Some(b) => spec_base64_decode(text@) == Some(b@),
            None => spec_base64_decode(text@) is None,
        },
{
    <base64::engine::GeneralPurpose as base64::Engine>::decode(&base64::engine::general_purpose::STANDARD, text).ok()
}

/// `STANDARD.encode(text)`; the text is named, not stated.
#[verifier::external_body]
pub(crate) fn base64_encode(text: &str) -> (r: String)
    ensures
        r@ == spec_base64_encode(text@),
{
    <base64::engine::GeneralPurpose as base64::Engine>::encode(&base64::engine::general_purpose::STANDARD, text)
}

/// `String::from_utf8(bytes)`: the text the bytes encode, where they are
/// valid UTF-8, else an error.
#[verifier::external_body]
pub(crate) fn utf8_decode(bytes: Vec<u8>) -> (r: Option<String>)
    ensures
        match r {
            Some(s) => valid_utf8(bytes@) && s@ == decode_utf8(bytes@),
            None => !valid_utf8(bytes@),
        },
{
    String::from_utf8(bytes).ok()
}

/// `String::from_utf8_lossy(bytes)`: the text the bytes encode, with each
/// invalid sequence replaced by U+FFFD; for valid UTF-8 that is the text
/// they encode.
#[verifier::external_body]
pub(crate) fn utf8_lossy(bytes: &[u8]) -> (r: String)
    ensures
        r@ == spec_utf8_lossy(bytes@),
        valid_utf8(bytes@) ==> r@ == decode_utf8(bytes@),
{
    String::from_utf8_lossy(bytes).into_owned()
}

} // verus!
