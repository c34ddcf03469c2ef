//! Base64, as applications write it.

use base64::Engine;
use vstd::prelude::*;

verus! {

/// What the engine `STANDARD` of `base64` decodes bytes to, if it takes them.
pub uninterp spec fn base64_padded(data: Seq<u8>) -> Option<Seq<u8>>;

/// What the engine `STANDARD_NO_PAD` of `base64` decodes bytes to, if it takes
/// them.
pub uninterp spec fn base64_bare(data: Seq<u8>) -> Option<Seq<u8>>;

/// What base64 writes, with or without the padding at its end.
pub open spec fn base64_either(data: Seq<u8>) -> Option<Seq<u8>> {
    match base64_padded(data) {
        Some(bytes) => Some(bytes),
        None => base64_bare(data),
    }
}

/// Calls `decode` of `base64::engine::general_purpose::STANDARD`. What comes of it
/// depends on the bytes alone; which of them are base64 is left unsaid.
#[verifier::external_body]
fn decode_padded(data: &[u8]) -> (bytes: Option<Vec<u8>>)
    ensures
        match bytes {
            Some(b) => base64_padded(data@) == Some(b@),
            None => base64_padded(data@) is None,
        },
{
    match base64::engine::general_purpose::STANDARD.decode(data) {
        Ok(bytes) => Some(bytes),
        Err(_) => None,
    }
}

/// Calls `decode` of `base64::engine::general_purpose::STANDARD_NO_PAD`. What comes
/// of it depends on the bytes alone; which of them are base64 is left unsaid.
#[verifier::external_body]
fn decode_bare(data: &[u8]) -> (bytes: Option<Vec<u8>>)
    ensures
        match bytes {
            Some(b) => base64_bare(data@) == Some(b@),
            None => base64_bare(data@) is None,
        },
{
    match base64::engine::general_purpose::STANDARD_NO_PAD.decode(data) {
        Ok(bytes) => Some(bytes),
        Err(_) => None,
    }
}

/// Decodes base64 with or without the padding at its end.
pub fn decode_either(data: &[u8]) -> (bytes: Option<Vec<u8>>)
    ensures
        match bytes {
            Some(b) => base64_either(data@) == Some(b@),
            None => base64_either(data@) is None,
        },
{
    match decode_padded(data) {
        Some(bytes) => Some(bytes),
        None => decode_bare(data),
    }
}

} // verus!
