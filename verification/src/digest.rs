//! The SHA-256 digest, computed by the `sha2` crate.

use sha2::Digest;
use vstd::prelude::*;

verus! {

/// The SHA-256 digest of `data`: thirty-two bytes that depend on `data` alone.
pub uninterp spec fn sha256_of(data: Seq<u8>) -> [u8; 32];

/// Calls `sha2::Sha256::digest`, the one-shot form of the hasher.
///
/// Trusted, not proved: the bytes returned are the SHA-256 digest of `data`,
/// which this library names `sha256_of(data@)`. The call accepts every input
/// and does not panic.
#[verifier::external_body]
pub(crate) fn sha256(data: &[u8]) -> (digest: [u8; 32])
    ensures
        digest == sha256_of(data@),
{
    sha2::Sha256::digest(data).into()
}

} // verus!
