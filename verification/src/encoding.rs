//! The base64 boundary for photo payloads.

use vstd::prelude::*;

use base64::Engine;

verus! {

/// The base64 text of a byte sequence, under the standard alphabet with padding.
pub uninterp spec fn base64_encoding(b: Seq<u8>) -> Seq<char>;

/// The bytes a base64 text stands for, under the standard alphabet with
/// padding; `None` for malformed text.
pub uninterp spec fn base64_decoding(s: Seq<char>) -> Option<Seq<u8>>;

/// Relies on base64's standard-alphabet `Engine::encode`: the text depends on
/// the bytes alone, and decoding it yields the bytes back.
#[verifier::external_body]
pub(crate) fn encode_base64(bytes: &Vec<u8>) -> (r: String)
    ensures
        r@ == base64_encoding(bytes@),
        base64_decoding(r@) == Some(bytes@),
{
    base64::engine::general_purpose::STANDARD.encode(bytes)
}

/// Relies on base64's standard-alphabet `Engine::decode`: the outcome depends
/// on the text alone, and malformed text is rejected. The engine is strict
/// (canonical padding and trailing bits enforced), so accepted text is the
/// canonical encoding of its bytes and re-encoding yields it back.
#[verifier::external_body]
pub(crate) fn decode_base64(text: &str) -> (r: Result<Vec<u8>, String>)
    ensures
        r matches Ok(v) ==> base64_decoding(text@) == Some(v@) && base64_encoding(v@) == text@,
        r matches Err(_) ==> base64_decoding(text@) is None,
{
    base64::engine::general_purpose::STANDARD.decode(text).map_err(|e| e.to_string())
}

} // verus!
