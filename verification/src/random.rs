//! Derivation of sixteen unpredictable bytes from seed material, the caller and the
//! index of the call.
use crate::config::Trait;
use crate::types::AccountId;
use parity_scale_codec::Encode;
use vstd::prelude::*;

verus! {

/// The four bytes of `x`, least significant first.
pub open spec fn le_bytes_u32(x: u32) -> Seq<u8> {
    seq![
        (x & 0xff) as u8,
        ((x >> 8) & 0xff) as u8,
        ((x >> 16) & 0xff) as u8,
        ((x >> 24) & 0xff) as u8,
    ]
}

/// The eight bytes of `x`, least significant first.
pub open spec fn le_bytes_u64(x: u64) -> Seq<u8> {
    seq![
        (x & 0xff) as u8,
        ((x >> 8) & 0xff) as u8,
        ((x >> 16) & 0xff) as u8,
        ((x >> 24) & 0xff) as u8,
        ((x >> 32) & 0xff) as u8,
        ((x >> 40) & 0xff) as u8,
        ((x >> 48) & 0xff) as u8,
        ((x >> 56) & 0xff) as u8,
    ]
}

/// The bytes that are hashed for one derivation: the seed as it is, the sender's
/// identifier least significant byte first, then a zero byte where there is no call
/// index, or a one byte followed by the index, least significant byte first.
pub open spec fn payload_bytes(seed: Seq<u8>, sender: AccountId, index: Option<u32>) -> Seq<u8> {
    seed + le_bytes_u64(sender) + match index {
        None => seq![0u8],
        Some(i) => seq![1u8] + le_bytes_u32(i),
    }
}

/// The 128-bit BLAKE2b digest of `data`, as sixteen bytes.
pub uninterp spec fn blake2_128_digest(data: Seq<u8>) -> Seq<u8>;

/// The bytes that a derivation yields for the given seed, sender and call index.
pub open spec fn spec_random_value(seed: Seq<u8>, sender: AccountId, index: Option<u32>) -> Seq<
    u8,
> {
    blake2_128_digest(payload_bytes(seed, sender, index))
}

/// Calls `parity_scale_codec::Encode::encode` on the tuple of seed, sender and call
/// index. Trusted: the tuple is encoded field after field, a byte array as its bytes,
/// an integer in little-endian order, an option as a tag byte and its content.
#[verifier::external_body]
fn encode_payload(seed: &[u8; 32], sender: AccountId, index: Option<u32>) -> (r: Vec<u8>)
    ensures
        r@ == payload_bytes(seed@, sender, index),
{
    (seed, &sender, index).encode()
}

/// Calls `sp_io::hashing::blake2_128`. Trusted: the result is a function of the bytes
/// of `data` alone.
#[verifier::external_body]
fn blake2_128(data: &[u8]) -> (r: [u8; 16])
    ensures
        r@ == blake2_128_digest(data@),
{
    sp_io::hashing::blake2_128(data)
}

/// Sixteen bytes derived from the seed material on offer, the sender and the index of
/// the call being executed.
pub fn random_value<T: Trait>(rt: &T, sender: AccountId) -> (r: [u8; 16])
    requires
        rt.wf(),
    ensures
        r@ == spec_random_value(rt.seed(), sender, rt.call_index()),
{
    let seed = rt.random_seed();
    let index = rt.extrinsic_index();
    let payload = encode_payload(&seed, sender, index);
    blake2_128(payload.as_slice())
}

} // verus!
