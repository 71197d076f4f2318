//! SHA-256.

use sha2::{Digest, Sha256};
use vstd::prelude::*;

verus! {

/// The SHA-256 digest of some bytes.
pub uninterp spec fn sha256(data: Seq<u8>) -> Seq<u8>;

/// `sha2::Sha256::digest`: the digest is a function of the bytes alone.
#[verifier::external_body]
pub(crate) fn sha256_digest(data: &[u8]) -> (digest: [u8; 32])
    ensures
        digest@ == sha256(data@),
{
    Sha256::digest(data).into()
}

/// The first sixteen bytes of a digest.
pub fn digest_prefix(digest: &[u8; 32]) -> (prefix: [u8; 16])
    ensures
        prefix@ == digest@.subrange(0, 16),
{
    crate::bytes::read_16(digest, 0)
}

} // verus!
