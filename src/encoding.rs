use vstd::prelude::*;

use base64::engine::{DecodePaddingMode, GeneralPurpose, GeneralPurposeConfig};

use crate::error::DecodeError;

verus! {

/// What the shared Base64 configuration (standard alphabet, padding
/// optional) decodes a text to: `None` where the text is no Base64.
pub uninterp spec fn base64_decoded(s: Seq<char>) -> Option<Seq<u8>>;

/// Relies on `base64::Engine::decode` of a `GeneralPurpose` engine with the
/// standard alphabet and `DecodePaddingMode::Indifferent`: the result depends
/// on the text alone.
#[verifier::external_body]
fn base64_decode(s: &str) -> (r: Option<Vec<u8>>)
    ensures
        match r {
            Some(b) => base64_decoded(s@) == Some(b@),
            None => base64_decoded(s@) is None,
        },
{
    let config = GeneralPurposeConfig::new().with_decode_padding_mode(DecodePaddingMode::Indifferent);
    let engine = GeneralPurpose::new(&base64::alphabet::STANDARD, config);
    base64::Engine::decode(&engine, s).ok()
}

/// Decodes the Base64 segment that older link formats embed (credentials or
/// a whole parameter blob), with the standard alphabet and padding optional.
pub fn decode_base64(s: &str) -> (r: Result<Vec<u8>, DecodeError>)
    ensures
        match base64_decoded(s@) {
            Some(b) => r matches Ok(v) && v@ == b,
            None => r matches Err(DecodeError::InvalidEncoding),
        },
{
    match base64_decode(s) {
        Some(b) => Ok(b),
        None => Err(DecodeError::InvalidEncoding),
    }
}

} // verus!
