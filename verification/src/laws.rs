//! The engine's global guarantees, stated and proved over the
//! well-formedness invariant and the operations' contracts.
//!
//! Seal monotonicity is stated per operation: every mutating operation of
//! [`crate::store::Store`] carries `Store::seals_preserved(old, final)` in
//! its contract, so no sequence of operations ever observes a sealed
//! listing unsealed again.

use vstd::prelude::*;

use crate::store::Store;

verus! {

/// Inventory conservation: at any point the reservation counter of a
/// listing equals the number of settled purchases plus live pending
/// requests, and on an inventory-limited listing that number never exceeds
/// the limit.
pub proof fn lemma_inventory_conservation(s: Store, id: u128)
    requires
        s.wf(),
        s.valid_fardel(id),
    ensures
        s.settled_keys(id).len() + s.pending_keys(id).len() == s.spec_unpack_count(id),
        s.spec_fardel(id).countable > 0 ==> s.settled_keys(id).len() + s.pending_keys(id).len()
            <= s.spec_fardel(id).countable,
{
    if s.spec_fardel(id).countable > 0 {
        assert(s.unpack_counts@[id as int] <= s.fardels@[id as int].countable);
    }
}

/// At-most-once unlock: a purchaser's unlock history never lists the same
/// listing twice.  The point-lookup ledger is keyed by the (purchaser,
/// listing) pair, so it holds at most one record per pair by construction;
/// this carries that guarantee over to the history projection.
pub proof fn lemma_at_most_once_unlock(s: Store, p: u64, j1: int, j2: int)
    requires
        s.wf(),
        0 <= j1 < j2 < s.spec_unpacked_log(p).len(),
    ensures
        s.spec_unpacked_log(p)[j1].fardel_id != s.spec_unpacked_log(p)[j2].fardel_id,
{
    assert(s.unpacked_logs@.contains_key(p));
}

/// Cancellation reversibility: canceling a live pending request releases
/// exactly the reserved unit — the pair is no longer pending nor unpacked,
/// the listing is no longer sold out, and the seal did not move — so a
/// fresh request for the same pair passes every check again; and when that
/// fresh request is queued, the reservation counter is back at its value
/// before the cancellation.
pub proof fn lemma_cancellation_reversibility(
    s0: Store,
    s1: Store,
    s2: Store,
    p: u64,
    id: u128,
    now: u64,
)
    requires
        s0.wf(),
        s0.is_pending(p, id),
        Store::pending_canceled(s0, s1, p, id),
        Store::pending_queued(s1, s2, p, id, now),
    ensures
        s1.spec_unpack_count(id) == s0.spec_unpack_count(id) - 1,
        !s1.is_pending(p, id),
        !s1.is_unpacked(p, id),
        !s1.spec_sold_out(id),
        s1.is_sealed(id) == s0.is_sealed(id),
        s2.spec_unpack_count(id) == s0.spec_unpack_count(id),
        s2.is_pending(p, id),
{
    crate::keys::lemma_pair_key_parts(p, id);
    let k = crate::keys::spec_pair_key(p, id);
    assert(!s0.unpacked@.contains_key(k));
    assert(s0.pending_keys(id).contains(k));
    s0.lemma_reservation_sets(id);
    assert(s0.pending_keys(id).remove(k).len() == s0.pending_keys(id).len() - 1);
}

} // verus!