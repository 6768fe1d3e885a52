//! The hash functions that the runtime logic calls: BLAKE3 and BLAKE2b.
use vstd::prelude::*;
use crate::scale::append_bytes;

verus! {

/// The BLAKE3 digest of a byte string, as computed by the `blake3` crate.
pub uninterp spec fn blake3_digest(data: Seq<u8>) -> Seq<u8>;

/// Calls `blake3::hash` on `data` and returns the 32 bytes of the digest.
/// Trusted: the result is the BLAKE3 digest of exactly the bytes of `data`.
#[verifier::external_body]
pub(crate) fn blake3_hash(data: &[u8]) -> (digest: [u8; 32])
    ensures
        digest@ == blake3_digest(data@),
{
    *blake3::hash(data).as_bytes()
}

/// The BLAKE2b-256 digest of a byte string, as computed by `sp-crypto-hashing`.
pub uninterp spec fn blake2_256_digest(data: Seq<u8>) -> Seq<u8>;

/// Calls `sp_crypto_hashing::blake2_256` on `data`.
/// Trusted: the result is the BLAKE2b-256 digest of exactly the bytes of `data`.
#[verifier::external_body]
pub(crate) fn blake2_256(data: &[u8]) -> (digest: [u8; 32])
    ensures
        digest@ == blake2_256_digest(data@),
{
    sp_crypto_hashing::blake2_256(data)
}

/// The BLAKE2b-128 digest of a byte string, as computed by `sp-crypto-hashing`.
pub uninterp spec fn blake2_128_digest(data: Seq<u8>) -> Seq<u8>;

/// Calls `sp_crypto_hashing::blake2_128` on `data`.
/// Trusted: the result is the BLAKE2b-128 digest of exactly the bytes of `data`.
#[verifier::external_body]
pub(crate) fn blake2_128(data: &[u8]) -> (digest: [u8; 16])
    ensures
        digest@ == blake2_128_digest(data@),
{
    sp_crypto_hashing::blake2_128(data)
}

/// The BLAKE3 digest of two byte strings one after the other.
pub(crate) fn digest2(a: &[u8], b: &[u8]) -> (digest: [u8; 32])
    ensures
        digest@ == blake3_digest(a@ + b@),
{
    let mut data: Vec<u8> = Vec::new();
    append_bytes(&mut data, a);
    append_bytes(&mut data, b);
    assert(data@ =~= a@ + b@);
    blake3_hash(data.as_slice())
}

/// The BLAKE3 digest of three byte strings one after the other.
pub(crate) fn digest3(a: &[u8], b: &[u8], c: &[u8]) -> (digest: [u8; 32])
    ensures
        digest@ == blake3_digest(a@ + b@ + c@),
{
    let mut data: Vec<u8> = Vec::new();
    append_bytes(&mut data, a);
    append_bytes(&mut data, b);
    append_bytes(&mut data, c);
    assert(data@ =~= a@ + b@ + c@);
    blake3_hash(data.as_slice())
}

} // verus!
