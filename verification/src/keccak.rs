//! The Keccak-256 hash, taken from the `sha3` crate.

use sha3::Digest;
use vstd::prelude::*;

verus! {

/// The Keccak-256 digest of `data`: 32 bytes that depend on `data` alone.
pub uninterp spec fn keccak256_digest(data: Seq<u8>) -> Seq<u8>;

/// Calls `sha3::Keccak256::digest`, which feeds `data` to a fresh hasher and
/// finalizes it. The contract claims only that the 32 bytes returned are the
/// digest of `data`, the same for the same bytes on every call.
#[verifier::external_body]
pub(crate) fn keccak256(data: &[u8]) -> (digest: [u8; 32])
    ensures
        digest@ == keccak256_digest(data@),
{
    sha3::Keccak256::digest(data).into()
}

} // verus!
