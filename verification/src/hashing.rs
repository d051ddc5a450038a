//! Cryptographic digests, computed by the `sha2`, `sha3` and `blake2` crates.
//!
//! The digests are not modelled bit by bit. Each one is a named function of the
//! input bytes; contracts elsewhere speak of these names.

use vstd::prelude::*;
use sha2::Digest;

verus! {

/// The SHA-256 digest of a byte string.
pub uninterp spec fn spec_sha256(data: Seq<u8>) -> Seq<u8>;

/// The Keccak-256 digest of a byte string.
pub uninterp spec fn spec_keccak256(data: Seq<u8>) -> Seq<u8>;

/// The BLAKE2b digest of a byte string, with a 512-bit output.
pub uninterp spec fn spec_blake2b512(data: Seq<u8>) -> Seq<u8>;

/// Calls `sha2::Sha256::digest`. Trusted: the result is the SHA-256 digest of
/// `data`, which is 32 bytes long.
#[verifier::external_body]
pub(crate) fn sha256(data: &[u8]) -> (digest: Vec<u8>)
    ensures
        digest@ == spec_sha256(data@),
        digest@.len() == 32,
{
    sha2::Sha256::digest(data).to_vec()
}

/// Calls `sha3::Keccak256::digest`. Trusted: the result is the Keccak-256
/// digest of `data`, which is 32 bytes long.
#[verifier::external_body]
pub(crate) fn keccak256(data: &[u8]) -> (digest: Vec<u8>)
    ensures
        digest@ == spec_keccak256(data@),
        digest@.len() == 32,
{
    sha3::Keccak256::digest(data).to_vec()
}

/// Calls `blake2::Blake2b512::digest`. Trusted: the result is the BLAKE2b-512
/// digest of `data`, which is 64 bytes long.
#[verifier::external_body]
pub(crate) fn blake2b512(data: &[u8]) -> (digest: Vec<u8>)
    ensures
        digest@ == spec_blake2b512(data@),
        digest@.len() == 64,
{
    blake2::Blake2b512::digest(data).to_vec()
}

/// The order of the group of the curve secp256k1.
pub open spec fn secp256k1_order() -> nat {
    0xFFFFFFFFFFFFFFFFFFFFFFFFFFFFFFFEBAAEDCE6AF48A03BBFD25E8CD0364141nat
}

/// The number that bytes stand for, the most significant byte first.
pub open spec fn be_nat(bytes: Seq<u8>) -> nat
    decreases bytes.len(),
{
    if bytes.len() == 0 {
        0
    } else {
        be_nat(bytes.drop_last()) * 256 + bytes.last() as nat
    }
}

/// The bytes are an ECDSA signature over secp256k1: 64 bytes, of which each
/// half stands for a number from 1 up to the order of the group.
pub open spec fn is_secp256k1_signature(bytes: Seq<u8>) -> bool {
    &&& bytes.len() == 64
    &&& 0 < be_nat(bytes.subrange(0, 32)) < secp256k1_order()
    &&& 0 < be_nat(bytes.subrange(32, 64)) < secp256k1_order()
}

/// Calls `k256::ecdsa::Signature::try_from` on a byte slice. Trusted: the
/// call succeeds exactly on 64 bytes whose halves, read as big-endian
/// numbers, both lie from 1 up to the order of the group.
#[verifier::external_body]
pub(crate) fn parses_as_signature(bytes: &[u8]) -> (ok: bool)
    ensures
        ok == is_secp256k1_signature(bytes@),
{
    k256::ecdsa::Signature::try_from(bytes).is_ok()
}

} // verus!
