//! Declarations the verifier takes on trust: calls into outside
//! crates, each with the contract its source supports.

use vstd::prelude::*;

use base64::Engine;

verus! {

/// What base64's standard-alphabet decoder yields for a byte string:
/// the decoded bytes, or nothing when the input is not valid base64.
/// The result depends on the input bytes alone.
pub uninterp spec fn b64_decoded(s: Seq<u8>) -> Option<Seq<u8>>;

/// Relies on base64's `engine::general_purpose::STANDARD.decode`: a
/// pure function of the input bytes that decodes the standard
/// alphabet with padding, or reports invalid input.
#[verifier::external_body]
pub(crate) fn base64_decode(bytes: &[u8]) -> (r: Option<Vec<u8>>)
    ensures
        r.is_some() == b64_decoded(bytes@).is_some(),
        r matches Some(v) ==> b64_decoded(bytes@) == Some(v@),
{
    match base64::engine::general_purpose::STANDARD.decode(bytes) {
        Ok(v) => Some(v),
        Err(_) => None,
    }
}

} // verus!
