//! Reproducible selectors: a digest of the randomness seed, the caller and
//! the index of the command being applied.
//!
//! The selector is a derivation, not a secret: whoever knows the three inputs
//! can compute it.

use crate::system::AccountId;
use parity_scale_codec::Encode;
use vstd::prelude::*;

verus! {

/// The seed handed out by the randomness source.
pub type Seed = [u8; 32];

/// What `sp_io::hashing::blake2_128` returns for `data`: the 16-byte BLAKE2b
/// digest of the bytes.
pub uninterp spec fn blake2_128_digest(data: Seq<u8>) -> Seq<u8>;

/// The `width` low-order bytes of `value`, least significant first.
pub open spec fn le_bytes(value: nat, width: nat) -> Seq<u8>
    decreases width,
{
    if width == 0 {
        Seq::empty()
    } else {
        seq![(value % 256) as u8] + le_bytes(value / 256, (width - 1) as nat)
    }
}

/// How an optional index is laid out: a zero byte for none, else a one byte
/// followed by the four bytes of the index.
pub open spec fn index_bytes(index: Option<u32>) -> Seq<u8> {
    match index {
        None => seq![0u8],
        Some(i) => seq![1u8] + le_bytes(i as nat, 4),
    }
}

/// The bytes that are digested: the seed, then the eight bytes of the
/// caller, then the index.
pub open spec fn payload_bytes(seed: Seq<u8>, sender: AccountId, index: Option<u32>) -> Seq<u8> {
    seed + le_bytes(sender as nat, 8) + index_bytes(index)
}

/// The selector for a seed, a caller and a command index.
pub open spec fn selector(seed: Seq<u8>, sender: AccountId, index: Option<u32>) -> Seq<u8> {
    blake2_128_digest(payload_bytes(seed, sender, index))
}

/// `parity_scale_codec::Encode::encode` on the tuple of the three values: a
/// tuple is laid out as its fields in order, a byte array as its bytes, an
/// integer as its bytes least significant first, and an option as a tag byte
/// followed by the value if there is one.
#[verifier::external_body]
fn encode_payload(seed: &Seed, sender: AccountId, index: Option<u32>) -> (bytes: Vec<u8>)
    ensures
        bytes@ == payload_bytes(seed@, sender, index),
{
    (seed, sender, index).encode()
}

/// `sp_io::hashing::blake2_128`: the digest depends on the bytes alone.
#[verifier::external_body]
fn blake2_128(data: &Vec<u8>) -> (digest: [u8; 16])
    ensures
        digest@ == blake2_128_digest(data@),
{
    sp_io::hashing::blake2_128(data.as_slice())
}

/// The bytes from which the selector is derived.
pub fn selector_payload(seed: &Seed, sender: AccountId, index: Option<u32>) -> (bytes: Vec<u8>)
    ensures
        bytes@ == payload_bytes(seed@, sender, index),
{
    encode_payload(seed, sender, index)
}

/// Derives the selector for `sender` from the seed and the index of the
/// command being applied. Equal inputs give equal selectors.
pub fn random_value(seed: &Seed, sender: AccountId, index: Option<u32>) -> (value: [u8; 16])
    ensures
        value@ == selector(seed@, sender, index),
{
    let payload = selector_payload(seed, sender, index);
    blake2_128(&payload)
}

} // verus!
