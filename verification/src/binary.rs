//! The `<base64>` leaf: bytes, carried on the wire in the standard base64
//! alphabet with padding.

use vstd::prelude::*;
use base64::Engine;

verus! {

/// The text that the `base64` crate's standard engine encodes bytes to.
pub uninterp spec fn base64_text(bytes: Seq<u8>) -> Seq<char>;

/// The bytes that the `base64` crate's standard engine decodes a text to;
/// `None` where it refuses the text.
pub uninterp spec fn base64_bytes(text: Seq<char>) -> Option<Seq<u8>>;

/// Calls `Engine::encode` on `base64::engine::general_purpose::STANDARD`.
/// The contract only names the outcome.
#[verifier::external_body]
pub(crate) fn encode_base64(bytes: &Vec<u8>) -> (r: String)
    ensures
        r@ == base64_text(bytes@),
{
    base64::engine::general_purpose::STANDARD.encode(bytes)
}

/// Calls `Engine::decode` on `base64::engine::general_purpose::STANDARD`.
/// The contract only names the outcome.
#[verifier::external_body]
pub(crate) fn decode_base64(text: &str) -> (r: Option<Vec<u8>>)
    ensures
        match r {
            Some(bytes) => base64_bytes(text@) == Some(bytes@),
            None => base64_bytes(text@) is None,
        },
{
    base64::engine::general_purpose::STANDARD.decode(text).ok()
}

/// Whether bytes survive the wire: their base64 text decodes to them again.
pub open spec fn bytes_survive_wire(bytes: Seq<u8>) -> bool {
    base64_bytes(base64_text(bytes)) == Some(bytes)
}

} // verus!
