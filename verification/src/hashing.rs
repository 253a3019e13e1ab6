//! The one digest the on-chain interface needs: Keccak-256, named here and
//! computed by the chain client's primitives.

use vstd::prelude::*;

verus! {

/// The Keccak-256 digest of a byte string. The digest is a function of the
/// input bytes alone; it is named, not written out.
pub uninterp spec fn keccak256_of(input: Seq<u8>) -> Seq<u8>;

/// Relies on `alloy::primitives::keccak256`: the Keccak-256 digest of the
/// input, always 32 bytes, depending on the input bytes alone.
#[verifier::external_body]
pub(crate) fn keccak256(input: &[u8]) -> (r: Vec<u8>)
    ensures
        r@ == keccak256_of(input@),
        r@.len() == 32,
{
    alloy::primitives::keccak256(input).to_vec()
}

} // verus!
