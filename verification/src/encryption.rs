//! The SHA-256 digest, taken on trust from the sha2 crate as k256 re-exports
//! it.
use vstd::prelude::*;
use k256::sha2::Digest;

verus! {

/// The SHA-256 digest of a byte string; a function of the input alone.
pub uninterp spec fn sha256_of(data: Seq<u8>) -> Seq<u8>;

/// Relies on sha2's Sha256 (re-exported by k256): the digest is 32 bytes and
/// depends on the input bytes alone.
#[verifier::external_body]
pub fn sha256(data: &[u8]) -> (r: Vec<u8>)
    ensures
        r@ == sha256_of(data@),
        r@.len() == 32,
{
    let digest = k256::sha2::Sha256::digest(data);
    digest.to_vec()
}

} // verus!
