//! The digest algorithms a hashlock commitment can be computed with. The
//! engine is constructed with one of them and verifies every revealed secret
//! against the stored hashlock under that algorithm.

use vstd::prelude::*;

verus! {

/// The digest algorithm an escrow engine verifies secrets with.
#[derive(Clone, Copy, Debug, PartialEq, Eq, Structural)]
pub enum HashAlgo {
    Keccak256,
    Sha256,
}

/// The Keccak-256 digest of a byte sequence; a function of the bytes alone.
pub uninterp spec fn keccak256_of(data: Seq<u8>) -> Seq<u8>;

/// The SHA-256 digest of a byte sequence; a function of the bytes alone.
pub uninterp spec fn sha256_of(data: Seq<u8>) -> Seq<u8>;

/// Relies on `sha3::Keccak256` through the `Digest` trait: a 32-byte digest
/// that depends on the input bytes alone.
#[verifier::external_body]
fn keccak256_digest(data: &[u8]) -> (r: Vec<u8>)
    ensures
        r@ == keccak256_of(data@),
        r@.len() == 32,
{
    <sha3::Keccak256 as sha3::Digest>::digest(data).to_vec()
}

/// Relies on `sha2::Sha256` through the `Digest` trait: a 32-byte digest
/// that depends on the input bytes alone.
#[verifier::external_body]
fn sha256_digest(data: &[u8]) -> (r: Vec<u8>)
    ensures
        r@ == sha256_of(data@),
        r@.len() == 32,
{
    <sha2::Sha256 as sha2::Digest>::digest(data).to_vec()
}

/// The digest of a byte sequence under the chosen algorithm.
pub open spec fn digest_of(algo: HashAlgo, data: Seq<u8>) -> Seq<u8> {
    match algo {
        HashAlgo::Keccak256 => keccak256_of(data),
        HashAlgo::Sha256 => sha256_of(data),
    }
}

/// Computes the digest of `data` under `algo`.
pub fn compute_digest(algo: HashAlgo, data: &[u8]) -> (r: Vec<u8>)
    ensures
        r@ == digest_of(algo, data@),
        r@.len() == 32,
{
    match algo {
        HashAlgo::Keccak256 => keccak256_digest(data),
        HashAlgo::Sha256 => sha256_digest(data),
    }
}

} // verus!
