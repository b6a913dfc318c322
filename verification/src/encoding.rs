//! Bytes as text: Base64, which is done by the crate `base64`, and UTF-8.
//!
//! The contracts in this module are believed, not proved.

use vstd::prelude::*;
use vstd::utf8::{encode_utf8, valid_utf8};
use base64::Engine;

verus! {

/// `base64::DecodeError`, the fault that reading Base64 reports.
#[verifier::external_type_specification]
#[verifier::external_body]
pub struct ExDecodeError(base64::DecodeError);

/// `std::string::FromUtf8Error`, the fault that reading UTF-8 reports.
#[verifier::external_type_specification]
#[verifier::external_body]
pub struct ExFromUtf8Error(std::string::FromUtf8Error);

/// What the standard Base64 engine of `base64`, with padding, makes of
/// bytes.
pub uninterp spec fn base64_text(bytes: Seq<u8>) -> Seq<char>;

/// What the standard Base64 engine of `base64`, with padding, reads from a
/// text: the bytes, or `None` where it reports an error.
pub uninterp spec fn base64_bytes(text: Seq<char>) -> Option<Seq<u8>>;

/// Calls `base64::Engine::encode` on the engine
/// `base64::engine::general_purpose::STANDARD`. The bound keeps the length
/// of the text within `usize`, beyond which the call panics.
#[verifier::external_body]
pub(crate) fn encode_base64(bytes: &[u8]) -> (text: String)
    requires
        bytes@.len() <= usize::MAX / 2,
    ensures
        text@ == base64_text(bytes@),
{
    base64::engine::general_purpose::STANDARD.encode(bytes)
}

/// Calls `base64::Engine::decode` on the engine
/// `base64::engine::general_purpose::STANDARD`.
#[verifier::external_body]
pub(crate) fn decode_base64(text: &str) -> (r: Result<Vec<u8>, base64::DecodeError>)
    ensures
        match r {
            Ok(bytes) => base64_bytes(text@) == Some(bytes@),
            Err(_) => base64_bytes(text@) is None,
        },
{
    base64::engine::general_purpose::STANDARD.decode(text)
}

/// Calls `String::from_utf8`. Claimed: the string has the given bytes, and
/// there is an error only where the bytes are no UTF-8.
#[verifier::external_body]
pub(crate) fn text_from_utf8(bytes: Vec<u8>) -> (r: Result<String, std::string::FromUtf8Error>)
    ensures
        match r {
            Ok(text) => encode_utf8(text@) == bytes@,
            Err(_) => !valid_utf8(bytes@),
        },
{
    String::from_utf8(bytes)
}

} // verus!
