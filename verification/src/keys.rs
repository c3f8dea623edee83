//! Combined keys for the point-lookup indexes.
//!
//! The per-purchaser "already unpacked" flag and "currently pending" marker
//! are keyed by a (purchaser account, listing internal id) pair.  Internal
//! ids are assigned sequentially and stay below 2^64, so the pair embeds
//! injectively into a single `u128` key: account in the high half, listing
//! id in the low half.

use vstd::prelude::*;

verus! {

/// The base separating the two halves of a combined key: 2^64.
pub const KEY_BASE: u128 = 0x1_0000_0000_0000_0000;

/// The combined key for a (purchaser account, listing internal id) pair.
pub open spec fn spec_pair_key(account: u64, fardel_id: u128) -> u128
    recommends
        fardel_id < KEY_BASE,
{
    (account * KEY_BASE + fardel_id) as u128
}

/// The account half of a combined key.
pub open spec fn key_account(k: u128) -> u64 {
    (k / KEY_BASE) as u64
}

/// The listing-id half of a combined key.
pub open spec fn key_fardel(k: u128) -> u128 {
    k % KEY_BASE
}

/// A combined key decomposes back into exactly the pair it was built from,
/// so the embedding is injective.
pub proof fn lemma_pair_key_parts(account: u64, fardel_id: u128)
    requires
        fardel_id < KEY_BASE,
    ensures
        key_account(spec_pair_key(account, fardel_id)) == account,
        key_fardel(spec_pair_key(account, fardel_id)) == fardel_id,
        spec_pair_key(account, fardel_id) == account * KEY_BASE + fardel_id,
{
    let a = account as int;
    let b = KEY_BASE as int;
    let f = fardel_id as int;
    assert(0 <= a * b) by (nonlinear_arith)
        requires 0 <= a && 0 < b;
    assert(a * b + f < 0x1_0000_0000_0000_0000_0000_0000_0000_0000) by (nonlinear_arith)
        requires a < 0x1_0000_0000_0000_0000 && b == 0x1_0000_0000_0000_0000 && f < b;
    vstd::arithmetic::div_mod::lemma_fundamental_div_mod_converse_div(a * b + f, b, a, f);
    vstd::arithmetic::div_mod::lemma_fundamental_div_mod_converse_mod(a * b + f, b, a, f);
}

/// Every key rebuilds from its two halves: the embedding is a bijection
/// onto the keys below 2^128.
pub proof fn lemma_key_recompose(k: u128)
    ensures
        spec_pair_key(key_account(k), key_fardel(k)) == k,
        key_fardel(k) < KEY_BASE,
{
    let b = KEY_BASE as int;
    let q = (k as int) / b;
    let r = (k as int) % b;
    vstd::arithmetic::div_mod::lemma_fundamental_div_mod(k as int, b);
    assert(0 <= r < b) by {
        vstd::arithmetic::div_mod::lemma_mod_bound(k as int, b);
    }
    assert(q < b) by {
        if q >= b {
            vstd::arithmetic::mul::lemma_mul_inequality(b, q, b);
            assert(b * q == q * b) by (nonlinear_arith);
            assert(b * b == 0x1_0000_0000_0000_0000_0000_0000_0000_0000) by (nonlinear_arith)
                requires b == 0x1_0000_0000_0000_0000;
        }
    }
    assert(0 <= q) by {
        vstd::arithmetic::div_mod::lemma_div_pos_is_pos(k as int, b);
    }
    assert(key_account(k) == q && key_fardel(k) == r);
    assert((key_account(k) as int) * b + r == b * q + r) by (nonlinear_arith)
        requires key_account(k) == q;
}

/// Executable form of the combined key.
pub fn pair_key(account: u64, fardel_id: u128) -> (r: u128)
    requires
        fardel_id < KEY_BASE,
    ensures
        r == spec_pair_key(account, fardel_id),
{
    proof {
        lemma_pair_key_parts(account, fardel_id);
    }
    (account as u128) * KEY_BASE + fardel_id
}

} // verus!
