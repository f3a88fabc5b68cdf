//! Proof-of-work solutions and the hashes that the protocol draws from
//! outside: drillx's equihash check and solution hash, and keccak-256.
use vstd::prelude::*;

verus! {

/// Whether drillx accepts `digest` as an equihash solution for the seed made
/// of `challenge` and `nonce`.
pub uninterp spec fn drillx_valid(challenge: Seq<u8>, digest: Seq<u8>, nonce: Seq<u8>) -> bool;

/// The 32-byte hash that drillx computes for a solution.
pub uninterp spec fn drillx_hash(digest: Seq<u8>, nonce: Seq<u8>) -> Seq<u8>;

/// The keccak-256 digest of `data`.
pub uninterp spec fn keccak256(data: Seq<u8>) -> Seq<u8>;

/// Number of leading zero bits of a byte.
pub open spec fn byte_leading_zeros(b: u8) -> nat {
    if b >= 128 {
        0
    } else if b >= 64 {
        1
    } else if b >= 32 {
        2
    } else if b >= 16 {
        3
    } else if b >= 8 {
        4
    } else if b >= 4 {
        5
    } else if b >= 2 {
        6
    } else if b >= 1 {
        7
    } else {
        8
    }
}

/// Number of leading zero bits of a byte string, first byte first and most
/// significant bit first: the difficulty of a hash.
pub open spec fn leading_zero_bits(h: Seq<u8>) -> nat
    decreases h.len(),
{
    if h.len() == 0 {
        0
    } else if h[0] == 0 {
        8 + leading_zero_bits(h.drop_first())
    } else {
        byte_leading_zeros(h[0])
    }
}

/// Relies on drillx's `Solution::is_valid`, which depends on the challenge,
/// digest and nonce alone.
#[verifier::external_body]
pub(crate) fn solution_is_valid(challenge: &[u8; 32], digest: [u8; 16], nonce: [u8; 8]) -> (r: bool)
    ensures
        r == drillx_valid(challenge@, digest@, nonce@),
{
    drillx::Solution::new(digest, nonce).is_valid(challenge)
}

/// Relies on drillx's `Solution::to_hash`, whose hash depends on the digest
/// and nonce alone.
#[verifier::external_body]
pub(crate) fn solution_hash(digest: [u8; 16], nonce: [u8; 8]) -> (r: [u8; 32])
    ensures
        r@ == drillx_hash(digest@, nonce@),
{
    drillx::Solution::new(digest, nonce).to_hash().h
}

/// Relies on drillx's `difficulty`: it adds up the leading zeros of the
/// bytes, first to last, and stops after the first byte that is not zero.
#[verifier::external_body]
pub(crate) fn hash_difficulty(hash: [u8; 32]) -> (r: u32)
    ensures
        r == leading_zero_bits(hash@),
{
    drillx::difficulty(hash)
}

/// Relies on keccak's `hashv`, which hashes the concatenation of its slices.
#[verifier::external_body]
#[allow(deprecated)]
pub(crate) fn keccak_concat(a: &[u8], b: &[u8]) -> (r: [u8; 32])
    ensures
        r@ == keccak256(a@ + b@),
{
    solana_program::keccak::hashv(&[a, b]).to_bytes()
}

} // verus!
