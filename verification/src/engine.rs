//! The escrow and settlement engine: the state machine governing purchase
//! of inventory units, built on the listing store, the unpack ledger, the
//! pending-approval queue and the commission engine.
//!
//! The engine never moves value itself: it decides amounts and recipients
//! and returns them as payment instructions.

use vstd::prelude::*;

use crate::commission::{fee_valid, settle, spec_commission};
use crate::errors::FardelError;
use crate::hashing::{compute_fardel_hash, fardel_hash_of};
use crate::keys::spec_pair_key;
use crate::listings::StoredFardel;
use crate::pending::PendingUnpackApproval;
use crate::store::{copy_vec, Store};
use crate::unpack::{MyPendingUnpack, UnpackedFardel, UnpackedStatus};
use crate::validation::{check_fardel_data, spec_fardel_data_valid, valid_seal_time};

verus! {

/// One instruction to move value: pay `amount` base units to account `to`.
#[derive(Clone, Copy, Debug, PartialEq, Eq, Structural)]
pub struct Payment {
    pub to: u64,
    pub amount: u128,
}

/// What a successful unpack request returns.
#[derive(Debug)]
pub enum UnpackOutcome {
    /// Direct settlement: the payload is released at once, together with
    /// the payment instructions of the settlement.
    Unpacked { contents_data: Vec<u8>, payments: Vec<Payment> },
    /// The request was queued for the owner's approval; the engine holds
    /// the funds and releases nothing yet.
    Pending,
}

/// Sum of the amounts of a list of payment instructions.
pub open spec fn spec_sum_payments(s: Seq<Payment>) -> int
    decreases s.len(),
{
    if s.len() == 0 {
        0
    } else {
        spec_sum_payments(s.drop_last()) + s.last().amount
    }
}

/// Sum of the escrowed amounts of a list of queue entries.
pub open spec fn spec_sum_amounts(s: Seq<PendingUnpackApproval>) -> int
    decreases s.len(),
{
    if s.len() == 0 {
        0
    } else {
        spec_sum_amounts(s.drop_last()) + s.last().amount
    }
}

/// The entries of a queue segment that are still live (not canceled).
pub open spec fn spec_live_entries(s: Seq<PendingUnpackApproval>) -> Seq<PendingUnpackApproval> {
    s.filter(|e: PendingUnpackApproval| !e.canceled)
}

/// Whether a list of entries holds one for the (purchaser, listing) pair.
pub open spec fn spec_live_contains(live: Seq<PendingUnpackApproval>, p: u64, id: u128) -> bool {
    exists|t: int| 0 <= t < live.len() && live[t].unpacker == p && live[t].fardel_id == id
}

/// The history records that settling `live` appends for purchaser `p`, in
/// order.
pub open spec fn spec_records_for(live: Seq<PendingUnpackApproval>, p: u64) -> Seq<
    UnpackedFardel,
> {
    live.filter(|e: PendingUnpackApproval| e.unpacker == p).map_values(
        |e: PendingUnpackApproval| UnpackedFardel { fardel_id: e.fardel_id },
    )
}

/// Total commission owed on a list of entries under `fee`.
pub open spec fn spec_total_commission(
    s: Seq<PendingUnpackApproval>,
    fee: crate::commission::StoredFee,
) -> int
    decreases s.len(),
{
    if s.len() == 0 {
        0
    } else {
        spec_total_commission(s.drop_last(), fee) + spec_commission(s.last().amount, fee)
    }
}

/// How the live-entry projection grows when one entry is examined.
pub proof fn lemma_live_entries_push(s: Seq<PendingUnpackApproval>, e: PendingUnpackApproval)
    ensures
        spec_live_entries(s.push(e)) == if e.canceled {
            spec_live_entries(s)
        } else {
            spec_live_entries(s).push(e)
        },
{
    reveal(Seq::filter);
    assert(s.push(e).drop_last() =~= s);
    assert(s.push(e).last() == e);
}

/// How per-purchaser history records grow when one live entry settles.
pub proof fn lemma_records_for_push(s: Seq<PendingUnpackApproval>, e: PendingUnpackApproval)
    ensures
        forall|p: u64| #[trigger] spec_records_for(s.push(e), p) == if p == e.unpacker {
            spec_records_for(s, p).push((UnpackedFardel { fardel_id: e.fardel_id }))
        } else {
            spec_records_for(s, p)
        },
{
    assert forall|p: u64| #[trigger] spec_records_for(s.push(e), p) == (if p == e.unpacker {
        spec_records_for(s, p).push((UnpackedFardel { fardel_id: e.fardel_id }))
    } else {
        spec_records_for(s, p)
    }) by {
        reveal(Seq::filter);
        assert(s.push(e).drop_last() =~= s);
        assert(s.push(e).last() == e);
        if p == e.unpacker {
            assert(spec_records_for(s.push(e), p) =~= spec_records_for(s, p).push(
                (UnpackedFardel { fardel_id: e.fardel_id }),
            ));
        } else {
            assert(spec_records_for(s.push(e), p) =~= spec_records_for(s, p));
        }
    }
}

/// Unfolding of the total commission over one more entry.
pub proof fn lemma_total_commission_push(
    s: Seq<PendingUnpackApproval>,
    e: PendingUnpackApproval,
    fee: crate::commission::StoredFee,
)
    ensures
        spec_total_commission(s.push(e), fee) == spec_total_commission(s, fee) + spec_commission(
            e.amount,
            fee,
        ),
        spec_sum_amounts(s.push(e)) == spec_sum_amounts(s) + e.amount,
{
    assert(s.push(e).drop_last() =~= s);
    assert(s.push(e).last() == e);
}

/// Unfolding of the payment sum over one more instruction.
pub proof fn lemma_sum_payments_push(s: Seq<Payment>, x: Payment)
    ensures
        spec_sum_payments(s.push(x)) == spec_sum_payments(s) + x.amount,
{
    assert(s.push(x).drop_last() =~= s);
    assert(s.push(x).last() == x);
}

/// Summing payment instructions distributes over concatenation.
pub proof fn lemma_sum_payments_add(a: Seq<Payment>, b: Seq<Payment>)
    ensures
        spec_sum_payments(a + b) == spec_sum_payments(a) + spec_sum_payments(b),
    decreases b.len(),
{
    if b.len() == 0 {
        assert(a + b =~= a);
    } else {
        lemma_sum_payments_add(a, b.drop_last());
        assert((a + b).drop_last() =~= a + b.drop_last());
        assert((a + b).last() == b.last());
    }
}

impl Store {
    /// The payment instructions of one settlement: the owner's share, and
    /// the commission when it is nonzero.
    pub open spec fn spec_settle_payments(self, owner: u64, amount: u128) -> Seq<Payment> {
        let com = spec_commission(amount, self.transaction_fee);
        if com > 0 {
            seq![
                (Payment { to: owner, amount: (amount - com) as u128 }),
                (Payment { to: self.operator, amount: com as u128 }),
            ]
        } else {
            seq![(Payment { to: owner, amount: (amount - com) as u128 })]
        }
    }

    /// The state after only the seal latch of listing `id` was set.
    pub open spec fn only_seal_latched(pre: Store, post: Store, id: u128) -> bool {
        &&& post == (Store { sealed: post.sealed, ..pre })
        &&& post.sealed@ == pre.sealed@.update(id as int, true)
    }

    /// The state change of a direct settlement for `(p, id)`: the unpack
    /// record and history entry exist, one unit is consumed, and nothing
    /// else moved.
    pub open spec fn direct_settled(pre: Store, post: Store, p: u64, id: u128) -> bool {
        &&& post.unpacked@ == pre.unpacked@.insert(
            spec_pair_key(p, id),
            (UnpackedStatus { unpacked: true }),
        )
        &&& post.is_unpacked(p, id)
        &&& post.spec_unpacked_log(p) == pre.spec_unpacked_log(p).push(
            (UnpackedFardel { fardel_id: id }),
        )
        &&& forall|q: u64| q != p ==> post.spec_unpacked_log(q) == pre.spec_unpacked_log(q)
        &&& post.unpack_counts@ == pre.unpack_counts@.update(
            id as int,
            (pre.spec_unpack_count(id) + 1) as u128,
        )
        &&& post.fardels == pre.fardels
        &&& post.mappings == pre.mappings
        &&& post.sealed == pre.sealed
        &&& post.hidden == pre.hidden
        &&& post.removed == pre.removed
        &&& post.imgs == pre.imgs
        &&& post.hash_to_id == pre.hash_to_id
        &&& post.owner_logs == pre.owner_logs
        &&& post.pending_queues == pre.pending_queues
        &&& post.pending_starts == pre.pending_starts
        &&& post.pending_status == pre.pending_status
        &&& post.operator == pre.operator
        &&& post.transaction_fee == pre.transaction_fee
        &&& post.limits == pre.limits
    }

    /// The state change of queueing a pending request for `(p, id)`: the
    /// entry stands at the end of the owner's queue, the pair is marked
    /// pending, one unit is reserved, and nothing else moved.
    pub open spec fn pending_queued(pre: Store, post: Store, p: u64, id: u128, now: u64) -> bool {
        let o = pre.spec_owner(id);
        &&& post.spec_queue(o) == pre.spec_queue(o).push(
            (PendingUnpackApproval {
                fardel_id: id,
                unpacker: p,
                amount: pre.spec_fardel(id).cost,
                timestamp: now,
                canceled: false,
            }),
        )
        &&& forall|o2: u64| o2 != o ==> post.spec_queue(o2) == pre.spec_queue(o2)
        &&& post.pending_status@ == pre.pending_status@.insert(
            spec_pair_key(p, id),
            (MyPendingUnpack {
                pending_unpack_idx: pre.spec_queue(o).len() as usize,
                value: true,
            }),
        )
        &&& post.is_pending(p, id)
        &&& post.unpack_counts@ == pre.unpack_counts@.update(
            id as int,
            (pre.spec_unpack_count(id) + 1) as u128,
        )
        &&& post.fardels == pre.fardels
        &&& post.mappings == pre.mappings
        &&& post.sealed == pre.sealed
        &&& post.hidden == pre.hidden
        &&& post.removed == pre.removed
        &&& post.imgs == pre.imgs
        &&& post.hash_to_id == pre.hash_to_id
        &&& post.owner_logs == pre.owner_logs
        &&& post.unpacked == pre.unpacked
        &&& post.unpacked_logs == pre.unpacked_logs
        &&& post.pending_starts == pre.pending_starts
        &&& post.operator == pre.operator
        &&& post.transaction_fee == pre.transaction_fee
        &&& post.limits == pre.limits
    }

    /// The state change of canceling the live pending request of `(p, id)`:
    /// the queue entry is latched canceled, the marker cleared, the unit
    /// released, and nothing else moved.
    pub open spec fn pending_canceled(pre: Store, post: Store, p: u64, id: u128) -> bool {
        let o = pre.spec_owner(id);
        let idx = pre.spec_pending_idx(p, id);
        let e = pre.spec_queue(o)[idx];
        &&& post.spec_queue(o) == pre.spec_queue(o).update(
            idx,
            (PendingUnpackApproval {
                fardel_id: e.fardel_id,
                unpacker: e.unpacker,
                amount: e.amount,
                timestamp: e.timestamp,
                canceled: true,
            }),
        )
        &&& forall|o2: u64| o2 != o ==> post.spec_queue(o2) == pre.spec_queue(o2)
        &&& post.pending_status@ == pre.pending_status@.insert(
            spec_pair_key(p, id),
            (MyPendingUnpack { pending_unpack_idx: idx as usize, value: false }),
        )
        &&& !post.is_pending(p, id)
        &&& post.unpack_counts@ == pre.unpack_counts@.update(
            id as int,
            (pre.spec_unpack_count(id) - 1) as u128,
        )
        &&& post.fardels == pre.fardels
        &&& post.mappings == pre.mappings
        &&& post.sealed == pre.sealed
        &&& post.hidden == pre.hidden
        &&& post.removed == pre.removed
        &&& post.imgs == pre.imgs
        &&& post.hash_to_id == pre.hash_to_id
        &&& post.owner_logs == pre.owner_logs
        &&& post.unpacked == pre.unpacked
        &&& post.unpacked_logs == pre.unpacked_logs
        &&& post.pending_starts == pre.pending_starts
        &&& post.operator == pre.operator
        &&& post.transaction_fee == pre.transaction_fee
        &&& post.limits == pre.limits
    }

    /// The payment instructions of one settlement, as a vector.
    fn settle_payments(&self, owner: u64, amount: u128) -> (r: Vec<Payment>)
        requires
            fee_valid(self.transaction_fee),
        ensures
            r@ == self.spec_settle_payments(owner, amount),
    {
        let (payment, commission) = settle(amount, self.transaction_fee);
        let mut r: Vec<Payment> = Vec::new();
        r.push(Payment { to: owner, amount: payment });
        if commission > 0 {
            r.push(Payment { to: self.operator, amount: commission });
        }
        proof {
            assert(r@ =~= self.spec_settle_payments(owner, amount));
        }
        r
    }

    /// Requests one unit of a listing, by public id.  Follows the escrow
    /// state machine: resolution, payment check, authorization, at-most-once
    /// delivery, single pending request, seal and lazy expiry, inventory;
    /// then reserves a unit and either settles directly (payload plus
    /// payment instructions) or queues for the owner's approval.  `blocked`
    /// is the externally supplied block-relation check between the listing
    /// owner and the purchaser.  A rejected request leaves the state
    /// exactly as it was, except that a passed deadline or a sell-out
    /// latches the seal as specified.
    pub fn try_unpack_fardel(
        &mut self,
        unpacker: u64,
        fardel_id: u128,
        sent_amount: u128,
        now: u64,
        blocked: bool,
    ) -> (r: Result<UnpackOutcome, FardelError>)
        requires
            old(self).wf(),
        ensures
            final(self).wf(),
            Store::seals_preserved(*old(self), *final(self)),
            ({
                let pre = *old(self);
                let post = *final(self);
                if !pre.hash_to_id@.contains_key(fardel_id) {
                    r == Err::<UnpackOutcome, FardelError>(FardelError::NotFound) && post == pre
                } else {
                    let id = pre.hash_to_id@[fardel_id];
                    let f = pre.spec_fardel(id);
                    if sent_amount != f.cost {
                        r == Err::<UnpackOutcome, FardelError>(FardelError::PaymentMismatch)
                            && post == pre
                    } else if blocked {
                        r == Err::<UnpackOutcome, FardelError>(FardelError::Unauthorized) && post
                            == pre
                    } else if pre.is_unpacked(unpacker, id) {
                        r == Err::<UnpackOutcome, FardelError>(FardelError::AlreadyUnpacked)
                            && post == pre
                    } else if pre.is_pending(unpacker, id) {
                        r == Err::<UnpackOutcome, FardelError>(FardelError::AlreadyPending)
                            && post == pre
                    } else if pre.is_sealed(id) {
                        r == Err::<UnpackOutcome, FardelError>(FardelError::Sealed) && post == pre
                    } else if f.seal_time > 0 && f.seal_time < now {
                        r == Err::<UnpackOutcome, FardelError>(FardelError::Sealed)
                            && Store::only_seal_latched(pre, post, id)
                    } else if pre.spec_sold_out(id) {
                        r == Err::<UnpackOutcome, FardelError>(FardelError::SoldOut) && (if f
                            .approval_req {
                            post == pre
                        } else {
                            Store::only_seal_latched(pre, post, id)
                        })
                    } else if f.approval_req {
                        r == Ok::<UnpackOutcome, FardelError>(UnpackOutcome::Pending)
                            && Store::pending_queued(pre, post, unpacker, id, now)
                    } else {
                        &&& r matches Ok(out)
                        &&& out matches UnpackOutcome::Unpacked { contents_data, payments }
                        &&& contents_data@ == f.contents_data@
                        &&& payments@ == pre.spec_settle_payments(pre.spec_owner(id), f.cost)
                        &&& Store::direct_settled(pre, post, unpacker, id)
                    }
                }
            }),
    {
        let id = match self.get_global_id_by_hash(fardel_id) {
            Some(id) => id,
            None => {
                return Err(FardelError::NotFound);
            },
        };
        let idx = self.arena_index(id);
        let cost = self.fardels[idx].cost;
        if sent_amount != cost {
            return Err(FardelError::PaymentMismatch);
        }
        if blocked {
            return Err(FardelError::Unauthorized);
        }
        if self.get_unpacked_status_by_fardel_id(unpacker, id).unpacked {
            return Err(FardelError::AlreadyUnpacked);
        }
        if self.get_pending_unpacked_status_by_fardel_id(unpacker, id).value {
            return Err(FardelError::AlreadyPending);
        }
        if self.get_sealed_status(id) {
            return Err(FardelError::Sealed);
        }
        let seal_time = self.fardels[idx].seal_time;
        if seal_time > 0 && seal_time < now {
            // lazy expiry: seal on the first access past the deadline
            self.seal_fardel(id);
            return Err(FardelError::Sealed);
        }
        if self.sold_out(id) {
            // when approval is required the seal is not latched here, so a
            // later cancellation can reopen the slot
            if !self.fardels[idx].approval_req {
                self.seal_fardel(id);
            }
            return Err(FardelError::SoldOut);
        }
        let owner = self.mappings[idx].owner;
        if self.fardels[idx].approval_req {
            self.store_pending_unpack(owner, unpacker, id, cost, now);
            Ok(UnpackOutcome::Pending)
        } else {
            let contents_data = copy_vec(&self.fardels[idx].contents_data);
            self.store_unpack(unpacker, id);
            let payments = self.settle_payments(owner, cost);
            Ok(UnpackOutcome::Unpacked { contents_data, payments })
        }
    }

    /// Cancels the caller's pending request on a listing, by public id:
    /// the entry is latched canceled, the reserved unit released, and a
    /// refund instruction of the held amount returned.  `NotFound` when the
    /// id resolves to nothing or no request of this purchaser is pending.
    pub fn try_cancel_pending(&mut self, unpacker: u64, fardel_id: u128) -> (r: Result<
        Payment,
        FardelError,
    >)
        requires
            old(self).wf(),
        ensures
            final(self).wf(),
            Store::seals_preserved(*old(self), *final(self)),
            ({
                let pre = *old(self);
                let post = *final(self);
                if !pre.hash_to_id@.contains_key(fardel_id) {
                    r == Err::<Payment, FardelError>(FardelError::NotFound) && post == pre
                } else {
                    let id = pre.hash_to_id@[fardel_id];
                    if !pre.is_pending(unpacker, id) {
                        r == Err::<Payment, FardelError>(FardelError::NotFound) && post == pre
                    } else {
                        &&& r == Ok::<Payment, FardelError>(
                            (Payment { to: unpacker, amount: pre.spec_fardel(id).cost }),
                        )
                        &&& Store::pending_canceled(pre, post, unpacker, id)
                    }
                }
            }),
    {
        let id = match self.get_global_id_by_hash(fardel_id) {
            Some(id) => id,
            None => {
                return Err(FardelError::NotFound);
            },
        };
        if !self.get_pending_unpacked_status_by_fardel_id(unpacker, id).value {
            return Err(FardelError::NotFound);
        }
        let idx = self.arena_index(id);
        let cost = self.fardels[idx].cost;
        let owner = self.mappings[idx].owner;
        self.cancel_pending_unpack(owner, unpacker, id);
        Ok(Payment { to: unpacker, amount: cost })
    }

    /// Seals a listing, by public id.  Only the owner may seal; sealing is
    /// the one-way latch that permanently blocks further unpacks.
    pub fn try_seal_fardel(&mut self, sender: u64, fardel_id: u128) -> (r: Result<
        (),
        FardelError,
    >)
        requires
            old(self).wf(),
        ensures
            final(self).wf(),
            Store::seals_preserved(*old(self), *final(self)),
            ({
                let pre = *old(self);
                let post = *final(self);
                if !pre.hash_to_id@.contains_key(fardel_id) {
                    r == Err::<(), FardelError>(FardelError::NotFound) && post == pre
                } else {
                    let id = pre.hash_to_id@[fardel_id];
                    if sender != pre.spec_owner(id) {
                        r == Err::<(), FardelError>(FardelError::Unauthorized) && post == pre
                    } else {
                        r == Ok::<(), FardelError>(()) && Store::only_seal_latched(pre, post, id)
                    }
                }
            }),
    {
        let id = match self.get_global_id_by_hash(fardel_id) {
            Some(id) => id,
            None => {
                return Err(FardelError::NotFound);
            },
        };
        if sender != self.get_fardel_owner(id) {
            return Err(FardelError::Unauthorized);
        }
        self.seal_fardel(id);
        Ok(())
    }

    /// Hides a listing, by public id.  Only the owner may; the hidden
    /// latch is toggleable both ways.
    pub fn try_hide_fardel(&mut self, sender: u64, fardel_id: u128) -> (r: Result<
        (),
        FardelError,
    >)
        requires
            old(self).wf(),
        ensures
            final(self).wf(),
            Store::seals_preserved(*old(self), *final(self)),
            ({
                let pre = *old(self);
                let post = *final(self);
                if !pre.hash_to_id@.contains_key(fardel_id) {
                    r == Err::<(), FardelError>(FardelError::NotFound) && post == pre
                } else {
                    let id = pre.hash_to_id@[fardel_id];
                    if sender != pre.spec_owner(id) {
                        r == Err::<(), FardelError>(FardelError::Unauthorized) && post == pre
                    } else {
                        &&& r == Ok::<(), FardelError>(())
                        &&& post == (Store { hidden: post.hidden, ..pre })
                        &&& post.hidden@ == pre.hidden@.update(id as int, true)
                    }
                }
            }),
    {
        let id = match self.get_global_id_by_hash(fardel_id) {
            Some(id) => id,
            None => {
                return Err(FardelError::NotFound);
            },
        };
        if sender != self.get_fardel_owner(id) {
            return Err(FardelError::Unauthorized);
        }
        self.hide_fardel(id);
        Ok(())
    }

    /// Clears the hidden latch of a listing, by public id.  Only the owner
    /// may.
    pub fn try_unhide_fardel(&mut self, sender: u64, fardel_id: u128) -> (r: Result<
        (),
        FardelError,
    >)
        requires
            old(self).wf(),
        ensures
            final(self).wf(),
            Store::seals_preserved(*old(self), *final(self)),
            ({
                let pre = *old(self);
                let post = *final(self);
                if !pre.hash_to_id@.contains_key(fardel_id) {
                    r == Err::<(), FardelError>(FardelError::NotFound) && post == pre
                } else {
                    let id = pre.hash_to_id@[fardel_id];
                    if sender != pre.spec_owner(id) {
                        r == Err::<(), FardelError>(FardelError::Unauthorized) && post == pre
                    } else {
                        &&& r == Ok::<(), FardelError>(())
                        &&& post == (Store { hidden: post.hidden, ..pre })
                        &&& post.hidden@ == pre.hidden@.update(id as int, false)
                    }
                }
            }),
    {
        let id = match self.get_global_id_by_hash(fardel_id) {
            Some(id) => id,
            None => {
                return Err(FardelError::NotFound);
            },
        };
        if sender != self.get_fardel_owner(id) {
            return Err(FardelError::Unauthorized);
        }
        self.unhide_fardel(id);
        Ok(())
    }

    /// Settles up to `number` entries of the caller's approval queue,
    /// starting at the cursor.  Canceled entries are skipped with no side
    /// effect beyond cursor advancement; each live entry gets its unpack
    /// record, and its settlement is computed from the escrowed amount.
    /// The result lists one payment instruction to the owner per settled
    /// entry, in queue order, followed by the accumulated commission to
    /// the operator (omitted when zero; split only in the impossible case
    /// that the total exceeds the integer range).  The instructions always
    /// sum to exactly the escrowed amounts settled.  The cursor advances
    /// past every entry examined, so repeated calls make monotonic
    /// progress; reservation counters do not move.
    pub fn try_approve_pending_unpacks(&mut self, owner: u64, number: u32) -> (r: Result<
        Vec<Payment>,
        FardelError,
    >)
        requires
            old(self).wf(),
        ensures
            final(self).wf(),
            Store::seals_preserved(*old(self), *final(self)),
            number == 0 ==> r == Err::<Vec<Payment>, FardelError>(FardelError::InvalidInput)
                && *final(self) == *old(self),
            number >= 1 ==> ({
                let pre = *old(self);
                let post = *final(self);
                let s0 = pre.spec_pending_start(owner);
                let q = pre.spec_queue(owner);
                let processed = if (number as int) <= q.len() - s0 {
                    number as int
                } else {
                    q.len() - s0
                };
                let live = spec_live_entries(q.subrange(s0, s0 + processed));
                let fee = pre.transaction_fee;
                &&& r matches Ok(payments)
                &&& post.spec_pending_start(owner) == s0 + processed
                &&& forall|o: u64| o != owner ==> post.spec_pending_start(o)
                    == pre.spec_pending_start(o)
                &&& post.pending_queues == pre.pending_queues
                &&& post.unpack_counts == pre.unpack_counts
                &&& post.fardels == pre.fardels
                &&& post.mappings == pre.mappings
                &&& post.sealed == pre.sealed
                &&& post.hidden == pre.hidden
                &&& post.removed == pre.removed
                &&& post.imgs == pre.imgs
                &&& post.hash_to_id == pre.hash_to_id
                &&& post.owner_logs == pre.owner_logs
                &&& post.operator == pre.operator
                &&& post.transaction_fee == pre.transaction_fee
                &&& post.limits == pre.limits
                &&& forall|p: u64, id: u128| #[trigger] post.is_unpacked(p, id) <==> (
                pre.is_unpacked(p, id) || spec_live_contains(live, p, id))
                &&& forall|p: u64, id: u128| #[trigger] post.is_pending(p, id) <==> (
                pre.is_pending(p, id) && !spec_live_contains(live, p, id))
                &&& forall|p: u64| #[trigger] post.spec_unpacked_log(p) == pre.spec_unpacked_log(
                    p,
                ) + spec_records_for(live, p)
                &&& (r matches Ok(payments) ==> {
                    &&& payments@.len() >= live.len()
                    &&& forall|t: int| 0 <= t < live.len() ==> payments@[t] == (Payment {
                        to: owner,
                        amount: (live[t].amount - spec_commission(live[t].amount, fee)) as u128,
                    })
                    &&& forall|t: int| live.len() <= t < payments@.len() ==> (#[trigger] payments@[
                    t]).to == pre.operator
                    &&& spec_sum_payments(payments@) == spec_sum_amounts(live)
                    &&& (spec_total_commission(live, fee) <= u128::MAX ==> payments@.len()
                        == live.len() + (if spec_total_commission(live, fee) > 0 {
                        1int
                    } else {
                        0int
                    }))
                })
            }),
    {
        if number < 1 {
            return Err(FardelError::InvalidInput);
        }
        let ghost pre = *old(self);
        let ghost q = pre.spec_queue(owner);
        let ghost s0 = pre.spec_pending_start(owner);
        let fee = self.transaction_fee;
        let op = self.operator;

        let mut owner_pays: Vec<Payment> = Vec::new();
        let mut op_pays: Vec<Payment> = Vec::new();
        let mut acc: u128 = 0;
        let ghost mut lv: Seq<PendingUnpackApproval> = Seq::empty();
        let mut j: u32 = 0;
        let mut cursor = self.get_pending_start(owner);
        let qlen: usize = match self.pending_queues.get(&owner) {
            Some(v) => v.len(),
            None => 0,
        };

        proof {
            assert(spec_live_entries(q.subrange(s0, s0)) =~= Seq::<
                PendingUnpackApproval,
            >::empty()) by {
                assert(q.subrange(s0, s0) =~= Seq::<PendingUnpackApproval>::empty());
            }
            assert forall|p: u64| #[trigger] self.spec_unpacked_log(p) == pre.spec_unpacked_log(p)
                + spec_records_for(lv, p) by {
                assert(spec_records_for(lv, p) =~= Seq::<UnpackedFardel>::empty());
                assert(pre.spec_unpacked_log(p) + spec_records_for(lv, p) =~= pre
                    .spec_unpacked_log(p));
            }
        }

        while j < number && cursor < qlen
            invariant
                self.wf(),
                pre.wf(),
                number >= 1,
                fee == pre.transaction_fee,
                fee_valid(fee),
                op == pre.operator,
                q == pre.spec_queue(owner),
                s0 == pre.spec_pending_start(owner),
                qlen == q.len(),
                0 <= s0,
                s0 + j == cursor,
                j <= number,
                cursor <= qlen,
                self.spec_pending_start(owner) == cursor,
                forall|o: u64| o != owner ==> #[trigger] self.spec_pending_start(o)
                    == pre.spec_pending_start(o),
                self.pending_queues == pre.pending_queues,
                self.unpack_counts == pre.unpack_counts,
                self.fardels == pre.fardels,
                self.mappings == pre.mappings,
                self.sealed == pre.sealed,
                self.hidden == pre.hidden,
                self.removed == pre.removed,
                self.imgs == pre.imgs,
                self.hash_to_id == pre.hash_to_id,
                self.owner_logs == pre.owner_logs,
                self.operator == pre.operator,
                self.transaction_fee == pre.transaction_fee,
                self.limits == pre.limits,
                lv == spec_live_entries(q.subrange(s0, cursor as int)),
                forall|t: int| 0 <= t < lv.len() ==> pre.valid_fardel(
                    (#[trigger] lv[t]).fardel_id,
                ),
                forall|p: u64, id: u128| #[trigger] self.is_unpacked(p, id) <==> (pre.is_unpacked(
                    p,
                    id,
                ) || spec_live_contains(lv, p, id)),
                forall|p: u64, id: u128| #[trigger] self.is_pending(p, id) <==> (pre.is_pending(
                    p,
                    id,
                ) && !spec_live_contains(lv, p, id)),
                forall|p: u64| #[trigger] self.spec_unpacked_log(p) == pre.spec_unpacked_log(p)
                    + spec_records_for(lv, p),
                owner_pays@.len() == lv.len(),
                forall|t: int| 0 <= t < lv.len() ==> owner_pays@[t] == (Payment {
                    to: owner,
                    amount: (lv[t].amount - spec_commission(lv[t].amount, fee)) as u128,
                }),
                forall|t: int| 0 <= t < op_pays@.len() ==> (#[trigger] op_pays@[t]).to == op,
                spec_sum_payments(op_pays@) + acc == spec_total_commission(lv, fee),
                spec_sum_payments(owner_pays@) + spec_total_commission(lv, fee)
                    == spec_sum_amounts(lv),
                spec_total_commission(lv, fee) <= u128::MAX ==> (op_pays@.len() == 0 && acc
                    == spec_total_commission(lv, fee)),
            decreases number - j,
        {
            let ghost state_before = *self;
            let ghost e = q[cursor as int];
            let stepped = self.approve_step(owner);
            proof {
                let done = q.subrange(s0, cursor as int);
                let done2 = q.subrange(s0, cursor + 1);
                assert(done2 =~= done.push(e));
                lemma_live_entries_push(done, e);
            }
            match stepped {
                Some(got) => {
                    proof {
                        assert(got == e && !e.canceled);
                        assert(spec_live_entries(q.subrange(s0, cursor + 1)) == lv.push(e));
                    }
                    let (pay, com) = settle(got.amount, fee);
                    let ghost owner_before = owner_pays@;
                    owner_pays.push(Payment { to: owner, amount: pay });
                    let ghost op_before = op_pays@;
                    let ghost acc_before = acc;
                    let flushed: bool;
                    if com <= u128::MAX - acc {
                        acc = acc + com;
                        flushed = false;
                    } else {
                        // the running total would not fit: emit what has
                        // accumulated and start over
                        op_pays.push(Payment { to: op, amount: acc });
                        acc = com;
                        flushed = true;
                    }
                    proof {
                        let lv2 = lv.push(e);
                        lemma_total_commission_push(lv, e, fee);
                        lemma_sum_payments_push(owner_before, (Payment { to: owner, amount: pay }));
                        if flushed {
                            lemma_sum_payments_push(op_before, (Payment { to: op, amount: acc_before }));
                        }

                        // the settled pair extends the live set, everything
                        // else keeps its standing
                        let post = *self;
                        let sb = state_before;
                        assert forall|p: u64, id: u128| #[trigger] post.is_unpacked(p, id) <==> (
                        pre.is_unpacked(p, id) || spec_live_contains(lv2, p, id)) by {
                            assert(sb.is_unpacked(p, id) <==> (pre.is_unpacked(p, id)
                                || spec_live_contains(lv, p, id)));
                            if post.valid_fardel(id) {
                                crate::keys::lemma_pair_key_parts(p, id);
                                crate::keys::lemma_pair_key_parts(e.unpacker, e.fardel_id);
                            }
                            if spec_live_contains(lv2, p, id) && !spec_live_contains(lv, p, id) {
                                let t = choose|t: int|
                                    0 <= t < lv2.len() && lv2[t].unpacker == p && lv2[
                                    t].fardel_id == id;
                                if t < lv.len() {
                                    assert(lv[t].unpacker == p && lv[t].fardel_id == id);
                                }
                                assert(p == e.unpacker && id == e.fardel_id);
                            }
                            if spec_live_contains(lv, p, id) {
                                let t = choose|t: int|
                                    0 <= t < lv.len() && lv[t].unpacker == p && lv[t].fardel_id
                                        == id;
                                assert(lv2[t].unpacker == p && lv2[t].fardel_id == id);
                                assert(spec_live_contains(lv2, p, id));
                            }
                            if p == e.unpacker && id == e.fardel_id {
                                assert(lv2[lv.len() as int].unpacker == p && lv2[
                                lv.len() as int].fardel_id == id);
                                assert(spec_live_contains(lv2, p, id));
                            }
                        }
                        assert forall|p: u64, id: u128| #[trigger] post.is_pending(p, id) <==> (
                        pre.is_pending(p, id) && !spec_live_contains(lv2, p, id)) by {
                            assert(sb.is_pending(p, id) <==> (pre.is_pending(p, id)
                                && !spec_live_contains(lv, p, id)));
                            if post.valid_fardel(id) {
                                crate::keys::lemma_pair_key_parts(p, id);
                                crate::keys::lemma_pair_key_parts(e.unpacker, e.fardel_id);
                            }
                            if spec_live_contains(lv2, p, id) && !spec_live_contains(lv, p, id) {
                                let t = choose|t: int|
                                    0 <= t < lv2.len() && lv2[t].unpacker == p && lv2[
                                    t].fardel_id == id;
                                if t < lv.len() {
                                    assert(lv[t].unpacker == p && lv[t].fardel_id == id);
                                }
                                assert(p == e.unpacker && id == e.fardel_id);
                            }
                            if spec_live_contains(lv, p, id) {
                                let t = choose|t: int|
                                    0 <= t < lv.len() && lv[t].unpacker == p && lv[t].fardel_id
                                        == id;
                                assert(lv2[t].unpacker == p && lv2[t].fardel_id == id);
                                assert(spec_live_contains(lv2, p, id));
                            }
                            if p == e.unpacker && id == e.fardel_id {
                                assert(lv2[lv.len() as int].unpacker == p && lv2[
                                lv.len() as int].fardel_id == id);
                                assert(spec_live_contains(lv2, p, id));
                            }
                        }
                        lemma_records_for_push(lv, e);
                        assert forall|p: u64| #[trigger] post.spec_unpacked_log(p) == pre
                            .spec_unpacked_log(p) + spec_records_for(lv2, p) by {
                            if p == e.unpacker {
                                assert(post.spec_unpacked_log(p) == sb.spec_unpacked_log(p).push(
                                    (UnpackedFardel { fardel_id: e.fardel_id }),
                                ));
                                assert(pre.spec_unpacked_log(p) + spec_records_for(lv2, p) =~= (
                                pre.spec_unpacked_log(p) + spec_records_for(lv, p)).push(
                                    (UnpackedFardel { fardel_id: e.fardel_id }),
                                ));
                            }
                        }
                        lv = lv2;
                    }
                },
                None => {
                    proof {
                        assert(e.canceled);
                        assert(spec_live_entries(q.subrange(s0, cursor + 1)) == lv);
                        let post = *self;
                        let sb = state_before;
                        assert forall|p: u64, id: u128| #[trigger] post.is_unpacked(p, id) <==> (
                        pre.is_unpacked(p, id) || spec_live_contains(lv, p, id)) by {
                            assert(sb.is_unpacked(p, id) <==> (pre.is_unpacked(p, id)
                                || spec_live_contains(lv, p, id)));
                        }
                        assert forall|p: u64, id: u128| #[trigger] post.is_pending(p, id) <==> (
                        pre.is_pending(p, id) && !spec_live_contains(lv, p, id)) by {
                            assert(sb.is_pending(p, id) <==> (pre.is_pending(p, id)
                                && !spec_live_contains(lv, p, id)));
                        }
                        assert forall|p: u64| #[trigger] post.spec_unpacked_log(p) == pre
                            .spec_unpacked_log(p) + spec_records_for(lv, p) by {
                            assert(sb.spec_unpacked_log(p) == pre.spec_unpacked_log(p)
                                + spec_records_for(lv, p));
                        }
                    }
                },
            }
            proof {
                assert forall|o: u64| o != owner implies #[trigger] self.spec_pending_start(o)
                    == pre.spec_pending_start(o) by {
                    assert(state_before.spec_pending_start(o) == pre.spec_pending_start(o));
                }
            }
            cursor = cursor + 1;
            j = j + 1;
        }

        let ghost op_before_flush = op_pays@;
        if acc > 0 {
            op_pays.push(Payment { to: op, amount: acc });
            proof {
                lemma_sum_payments_push(op_before_flush, (Payment { to: op, amount: acc }));
            }
        }
        let ghost owner_part = owner_pays@;
        let ghost op_part = op_pays@;
        let mut payments = owner_pays;
        payments.append(&mut op_pays);
        proof {
            assert(payments@ == owner_part + op_part);
            lemma_sum_payments_add(owner_part, op_part);
            assert(spec_sum_payments(op_part) == spec_total_commission(lv, fee));
            let processed = if (number as int) <= q.len() - s0 {
                number as int
            } else {
                q.len() - s0
            };
            assert(cursor == s0 + processed) by {
                if j == number {
                    assert(cursor <= qlen);
                } else {
                    assert(cursor == qlen);
                }
            }
            let live = spec_live_entries(q.subrange(s0, s0 + processed));
            assert(live == lv);
            assert forall|t: int| live.len() <= t < payments@.len() implies (#[trigger] payments@[
            t]).to == pre.operator by {
                assert(payments@[t] == op_part[t - owner_part.len()]);
            }
        }
        Ok(payments)
    }

    /// Publishes a listing.  The body is validated against the creation
    /// bounds, a public id is derived from the keyed hash of the creation
    /// context, and the listing is stored unsealed and visible with zero
    /// reservations.  `InvalidInput` when a bound is violated, the
    /// deadline is negative, or the derived public id is already taken.
    /// Returns the public id.
    pub fn try_carry_fardel(
        &mut self,
        owner: u64,
        public_message: Vec<u8>,
        tags: Vec<Vec<u8>>,
        contents_data: Vec<u8>,
        cost: u128,
        countable: u16,
        approval_req: bool,
        img: Option<Vec<u8>>,
        seal_time: Option<i32>,
        height: u64,
        now: u64,
    ) -> (r: Result<u128, FardelError>)
        requires
            old(self).wf(),
        ensures
            final(self).wf(),
            Store::seals_preserved(*old(self), *final(self)),
            ({
                let pre = *old(self);
                let post = *final(self);
                let img_len: int = match img {
                    Some(v) => v@.len() as int,
                    None => 0,
                };
                let data_ok = spec_fardel_data_valid(
                    pre.limits,
                    public_message@,
                    tags@,
                    contents_data@,
                    cost,
                    img_len,
                );
                let seal_ok = match seal_time {
                    Some(v) => v >= 0,
                    None => true,
                };
                let stored_seal: u64 = match seal_time {
                    Some(v) => v as u64,
                    None => 0,
                };
                let h = fardel_hash_of(
                    height,
                    cost,
                    pre.num_fardels() as u128,
                    owner,
                    public_message@,
                    now,
                );
                if !data_ok || !seal_ok {
                    r == Err::<u128, FardelError>(FardelError::InvalidInput) && post == pre
                } else if pre.hash_to_id@.contains_key(h) {
                    r == Err::<u128, FardelError>(FardelError::InvalidInput) && post == pre
                } else {
                    let id = pre.num_fardels() as u128;
                    &&& r == Ok::<u128, FardelError>(h)
                    &&& post.num_fardels() == pre.num_fardels() + 1
                    &&& post.fardels@ == pre.fardels@.push(
                        (StoredFardel {
                            global_id: id,
                            hash_id: h,
                            public_message,
                            tags,
                            contents_data,
                            cost,
                            countable,
                            approval_req,
                            seal_time: stored_seal,
                            timestamp: now,
                        }),
                    )
                    &&& post.hash_to_id@ == pre.hash_to_id@.insert(h, id)
                    &&& post.spec_owner(id) == owner
                    &&& post.spec_owner_log(owner) == pre.spec_owner_log(owner).push(id)
                    &&& (forall|o: u64| o != owner ==> post.spec_owner_log(o)
                        == pre.spec_owner_log(o))
                    &&& post.is_unpacked(owner, id)
                    &&& !post.is_sealed(id)
                    &&& !post.is_hidden(id)
                    &&& !post.is_removed(id)
                    &&& post.spec_unpack_count(id) == 0
                    &&& post.imgs@[id as int]@ == (match img {
                        Some(v) => v@,
                        None => Seq::<u8>::empty(),
                    })
                    &&& post.pending_queues == pre.pending_queues
                    &&& post.pending_starts == pre.pending_starts
                    &&& post.pending_status == pre.pending_status
                    &&& post.operator == pre.operator
                    &&& post.transaction_fee == pre.transaction_fee
                    &&& post.limits == pre.limits
                }
            }),
    {
        if !check_fardel_data(&self.limits, &public_message, &tags, &contents_data, cost, &img) {
            return Err(FardelError::InvalidInput);
        }
        let stored_seal: u64 = match valid_seal_time(seal_time) {
            Ok(t) => t,
            Err(e) => {
                return Err(e);
            },
        };
        let counter = self.get_total_fardel_count();
        let hash_id = compute_fardel_hash(height, cost, counter, owner, &public_message, now);
        if self.get_global_id_by_hash(hash_id).is_some() {
            return Err(FardelError::InvalidInput);
        }
        let global_id = self.store_fardel(
            hash_id,
            owner,
            public_message,
            tags,
            contents_data,
            cost,
            countable,
            approval_req,
            stored_seal,
            now,
        );
        match img {
            Some(v) => {
                self.store_fardel_img(global_id, v);
            },
            None => {},
        }
        Ok(hash_id)
    }

    /// Removes or restores a listing, by public id.  Only the operator
    /// may; the removed latch is toggleable both ways.
    pub fn try_remove_fardel(&mut self, sender: u64, fardel_id: u128, removed: bool) -> (r: Result<
        (),
        FardelError,
    >)
        requires
            old(self).wf(),
        ensures
            final(self).wf(),
            Store::seals_preserved(*old(self), *final(self)),
            ({
                let pre = *old(self);
                let post = *final(self);
                if sender != pre.operator {
                    r == Err::<(), FardelError>(FardelError::Unauthorized) && post == pre
                } else if !pre.hash_to_id@.contains_key(fardel_id) {
                    r == Err::<(), FardelError>(FardelError::NotFound) && post == pre
                } else {
                    let id = pre.hash_to_id@[fardel_id];
                    &&& r == Ok::<(), FardelError>(())
                    &&& post == (Store { removed: post.removed, ..pre })
                    &&& post.removed@ == pre.removed@.update(id as int, removed)
                }
            }),
    {
        if sender != self.operator {
            return Err(FardelError::Unauthorized);
        }
        let id = match self.get_global_id_by_hash(fardel_id) {
            Some(id) => id,
            None => {
                return Err(FardelError::NotFound);
            },
        };
        if removed {
            self.remove_fardel(id);
        } else {
            self.unremove_fardel(id);
        }
        Ok(())
    }
}

} // verus!