//! Derivation of a listing's public id.
//!
//! The public id is a 128-bit keyed hash of the creation context, so that
//! the externally visible identifier looks opaque while the engine keeps
//! addressing listings by their sequential internal id.

use vstd::prelude::*;

verus! {

/// The public id that the keyed hash assigns to a creation context: block
/// height, price, current listing counter, creator account and public
/// message, keyed by the creation timestamp.  The value depends on these
/// arguments alone.
pub uninterp spec fn fardel_hash_of(
    height: u64,
    cost: u128,
    counter: u128,
    owner: u64,
    public_message: Seq<u8>,
    seed: u64,
) -> u128;

/// Relies on `twox_hash::xxh3::hash128_with_seed`: a pure function of the
/// input bytes and the seed.  The body only lays the arguments out as the
/// hashed byte string, big-endian fields first, then the message.
#[verifier::external_body]
pub fn compute_fardel_hash(
    height: u64,
    cost: u128,
    counter: u128,
    owner: u64,
    public_message: &Vec<u8>,
    seed: u64,
) -> (r: u128)
    ensures
        r == fardel_hash_of(height, cost, counter, owner, public_message@, seed),
{
    let mut data: Vec<u8> = Vec::with_capacity(8 + 16 + 16 + 8 + public_message.len());
    data.extend_from_slice(&height.to_be_bytes());
    data.extend_from_slice(&cost.to_be_bytes());
    data.extend_from_slice(&counter.to_be_bytes());
    data.extend_from_slice(&owner.to_be_bytes());
    data.extend_from_slice(public_message.as_slice());
    twox_hash::xxh3::hash128_with_seed(&data, seed)
}

} // verus!
