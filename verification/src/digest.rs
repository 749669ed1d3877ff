//! SHA-256, from the `sha2` crate.
//!
//! Everything in this file is trusted: the contracts say what `sha2` does, and are not proved.

use sha2::Digest;
use vstd::prelude::*;

verus! {

/// The length of a SHA-256 digest.
pub const DIGEST_LEN: usize = 32;

/// `sha2::Sha256`: a digest under way.
#[verifier::external_type_specification]
#[verifier::external_body]
pub struct ExSha256(sha2::Sha256);

/// The bytes that a hasher has taken in so far.
pub uninterp spec fn hashed_bytes(h: sha2::Sha256) -> Seq<u8>;

/// The SHA-256 digest of `data`.
pub uninterp spec fn sha256(data: Seq<u8>) -> Seq<u8>;

/// Calls `sha2::Sha256::new`, of the trait `Digest`: a hasher that has taken in nothing.
#[verifier::external_body]
pub(crate) fn new_hasher() -> (h: sha2::Sha256)
    ensures
        hashed_bytes(h) == Seq::<u8>::empty(),
{
    sha2::Sha256::new()
}

/// Calls `sha2::Sha256::update`, of the trait `Digest`: `data` joins what was taken in.
#[verifier::external_body]
pub(crate) fn absorb(h: &mut sha2::Sha256, data: &[u8])
    ensures
        hashed_bytes(*final(h)) == hashed_bytes(*old(h)) + data@,
{
    h.update(data);
}

/// Calls `sha2::Sha256::finalize`, of the trait `Digest`: the digest of what was taken in, which
/// depends on those bytes alone, however they were split, and has 32 bytes.
#[verifier::external_body]
pub(crate) fn finish(h: sha2::Sha256) -> (digest: Vec<u8>)
    ensures
        digest@ == sha256(hashed_bytes(h)),
        digest@.len() == DIGEST_LEN,
{
    h.finalize().to_vec()
}

} // verus!
