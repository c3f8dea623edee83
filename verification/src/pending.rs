//! Pending unpack approvals: entries of a listing owner's approval queue,
//! the queue cursor, and the purchaser-side pending markers.

use vstd::prelude::*;
use vstd::pervasive::VecAdditionalExecFns;

use crate::keys::{
    key_account, key_fardel, lemma_key_recompose, lemma_pair_key_parts, pair_key, spec_pair_key,
};
use crate::store::{copy_vec, Store};
use crate::unpack::{MyPendingUnpack, UnpackedFardel, UnpackedStatus};

verus! {

/// A purchase request held in escrow awaiting the listing owner's manual
/// confirmation.  It lives in the owner's append log; approval authority
/// rests with the owner, cancellation authority with the purchaser.
#[derive(Clone, Copy, Debug, PartialEq, Eq, Structural)]
pub struct PendingUnpackApproval {
    /// Internal id of the listing being unpacked.
    pub fardel_id: u128,
    /// The purchaser awaiting approval.
    pub unpacker: u64,
    /// The escrowed amount held at request time.
    pub amount: u128,
    /// Logical-clock time of the request.
    pub timestamp: u64,
    /// Set once the purchaser cancels; a canceled entry is terminal and is
    /// skipped by approval.
    pub canceled: bool,
}

impl Store {
    /// The owner's queue cursor.
    pub fn get_pending_start(&self, owner: u64) -> (r: usize)
        requires
            self.wf(),
        ensures
            r == self.spec_pending_start(owner),
    {
        match self.pending_starts.get(&owner) {
            Some(s) => *s,
            None => 0,
        }
    }

    /// One entry of the owner's queue, by offset.
    pub fn get_pending_unpack_approval(&self, owner: u64, idx: usize) -> (r: Option<
        PendingUnpackApproval,
    >)
        requires
            self.wf(),
        ensures
            match r {
                Some(e) => idx < self.spec_queue(owner).len() && e == self.spec_queue(owner)[
                    idx as int],
                None => idx >= self.spec_queue(owner).len(),
            },
    {
        match self.pending_queues.get(&owner) {
            Some(q) => {
                if idx < q.len() {
                    Some(q[idx])
                } else {
                    None
                }
            },
            None => None,
        }
    }

    /// Up to `number` entries of the owner's queue, starting at the cursor.
    pub fn get_pending_approvals_from_start(&self, owner: u64, number: u32) -> (r: Vec<
        PendingUnpackApproval,
    >)
        requires
            self.wf(),
        ensures
            ({
                let q = self.spec_queue(owner);
                let s = self.spec_pending_start(owner);
                let take = if s + number <= q.len() {
                    number as int
                } else {
                    q.len() - s
                };
                r@ == q.subrange(s, s + take)
            }),
    {
        let start = self.get_pending_start(owner);
        let mut r: Vec<PendingUnpackApproval> = Vec::new();
        match self.pending_queues.get(&owner) {
            Some(q) => {
                let len = q.len();
                let take: usize = if number as usize <= len - start {
                    number as usize
                } else {
                    len - start
                };
                let mut i: usize = 0;
                while i < take
                    invariant
                        q@.len() <= usize::MAX,
                        start + take <= q@.len(),
                        i <= take,
                        r@ == q@.subrange(start as int, start + i),
                    decreases take - i,
                {
                    r.push(q[start + i]);
                    proof {
                        assert(q@.subrange(start as int, start + i + 1) =~= q@.subrange(
                            start as int,
                            start + i,
                        ).push(q@[start + i]));
                    }
                    i += 1;
                }
                r
            },
            None => {
                proof {
                    assert(r@ =~= self.spec_queue(owner).subrange(0, 0));
                }
                r
            },
        }
    }

    /// The pending marker of a (purchaser, listing) pair; pairs never
    /// marked read as not pending, at offset zero.
    pub fn get_pending_unpacked_status_by_fardel_id(&self, unpacker: u64, fardel_id: u128) -> (r:
        MyPendingUnpack)
        requires
            self.wf(),
        ensures
            r.value == self.is_pending(unpacker, fardel_id),
            r.value ==> r.pending_unpack_idx == self.spec_pending_idx(unpacker, fardel_id),
    {
        if fardel_id < self.fardels.len() as u128 {
            let k = pair_key(unpacker, fardel_id);
            match self.pending_status.get(&k) {
                Some(st) => MyPendingUnpack {
                    pending_unpack_idx: st.pending_unpack_idx,
                    value: st.value,
                },
                None => MyPendingUnpack { pending_unpack_idx: 0, value: false },
            }
        } else {
            MyPendingUnpack { pending_unpack_idx: 0, value: false }
        }
    }

    /// Queues a purchase request for owner approval: appends the entry to
    /// the owner's queue, marks the pair "currently pending", and reserves
    /// one inventory unit.  All effects are one atomic unit.
    pub fn store_pending_unpack(
        &mut self,
        owner: u64,
        unpacker: u64,
        fardel_id: u128,
        amount: u128,
        timestamp: u64,
    )
        requires
            old(self).wf(),
            old(self).valid_fardel(fardel_id),
            owner == old(self).spec_owner(fardel_id),
            !old(self).is_unpacked(unpacker, fardel_id),
            !old(self).is_pending(unpacker, fardel_id),
            amount == old(self).spec_fardel(fardel_id).cost,
            old(self).spec_fardel(fardel_id).countable > 0 ==> old(self).spec_unpack_count(
                fardel_id,
            ) < old(self).spec_fardel(fardel_id).countable,
        ensures
            final(self).wf(),
            final(self).spec_queue(owner) == old(self).spec_queue(owner).push(
                (PendingUnpackApproval {
                    fardel_id,
                    unpacker,
                    amount,
                    timestamp,
                    canceled: false,
                }),
            ),
            forall|o: u64| o != owner ==> final(self).spec_queue(o) == old(self).spec_queue(o),
            final(self).pending_status@ == old(self).pending_status@.insert(
                spec_pair_key(unpacker, fardel_id),
                (MyPendingUnpack {
                    pending_unpack_idx: old(self).spec_queue(owner).len() as usize,
                    value: true,
                }),
            ),
            final(self).is_pending(unpacker, fardel_id),
            final(self).unpack_counts@ == old(self).unpack_counts@.update(
                fardel_id as int,
                (old(self).spec_unpack_count(fardel_id) + 1) as u128,
            ),
            final(self).fardels == old(self).fardels,
            final(self).mappings == old(self).mappings,
            final(self).sealed == old(self).sealed,
            final(self).hidden == old(self).hidden,
            final(self).removed == old(self).removed,
            final(self).imgs == old(self).imgs,
            final(self).hash_to_id == old(self).hash_to_id,
            final(self).owner_logs == old(self).owner_logs,
            final(self).unpacked == old(self).unpacked,
            final(self).unpacked_logs == old(self).unpacked_logs,
            final(self).pending_starts == old(self).pending_starts,
            final(self).operator == old(self).operator,
            final(self).transaction_fee == old(self).transaction_fee,
            final(self).limits == old(self).limits,
            Store::seals_preserved(*old(self), *final(self)),
    {
        proof {
            lemma_pair_key_parts(unpacker, fardel_id);
            old(self).lemma_reservation_sets(fardel_id);
        }
        let settled_cap = self.unpacked.len();
        let pending_cap = self.pending_status.len();

        let mut q: Vec<PendingUnpackApproval> = match self.pending_queues.get(&owner) {
            Some(v) => copy_vec(v),
            None => Vec::new(),
        };
        let entry_idx = q.len();
        q.push(
            PendingUnpackApproval { fardel_id, unpacker, amount, timestamp, canceled: false },
        );
        self.pending_queues.insert(owner, q);

        let k0 = pair_key(unpacker, fardel_id);
        self.pending_status.insert(
            k0,
            MyPendingUnpack { pending_unpack_idx: entry_idx, value: true },
        );

        let idx = self.arena_index(fardel_id);
        let cur = self.unpack_counts[idx];
        proof {
            assert(old(self).settled_keys(fardel_id).len() <= settled_cap);
            assert(old(self).pending_keys(fardel_id).len() <= pending_cap);
        }
        self.unpack_counts.set(idx, cur + 1);

        proof {
            let pre = *old(self);
            let post = *self;
            let id = fardel_id;
            let k = spec_pair_key(unpacker, id);

            assert forall|i: int| 0 <= i < pre.fardels@.len() implies {
                &&& #[trigger] post.settled_keys(i as u128) == pre.settled_keys(i as u128)
                &&& (i != id as int ==> post.pending_keys(i as u128) == pre.pending_keys(
                    i as u128,
                ))
            } by {
                assert(post.settled_keys(i as u128) =~= pre.settled_keys(i as u128));
                if i != id as int {
                    assert(post.pending_keys(i as u128) =~= pre.pending_keys(i as u128)) by {
                        assert(key_fardel(k) == id);
                    }
                }
            }
            assert(post.pending_keys(id) =~= pre.pending_keys(id).insert(k));
            assert(!pre.pending_keys(id).contains(k));
            assert(post.pending_keys(id).len() == pre.pending_keys(id).len() + 1);

            // no live entry of the owner's queue already carried this pair
            assert forall|i: int|
                0 <= i < pre.spec_queue(owner).len() && i >= pre.spec_pending_start(owner) && !(
                #[trigger] pre.spec_queue(owner)[i]).canceled implies spec_pair_key(
                pre.spec_queue(owner)[i].unpacker,
                pre.spec_queue(owner)[i].fardel_id,
            ) != k by {
                if spec_pair_key(
                    pre.spec_queue(owner)[i].unpacker,
                    pre.spec_queue(owner)[i].fardel_id,
                ) == k {
                    assert(pre.pending_status@.contains_key(k)
                        && pre.pending_status@[k].value);
                }
            }
        }
    }

    /// Cancels a purchaser's live pending request: marks the queue entry
    /// canceled, clears the pair's marker, and releases the reserved unit.
    /// This is the only operation that decrements the reservation counter.
    pub fn cancel_pending_unpack(&mut self, owner: u64, unpacker: u64, fardel_id: u128)
        requires
            old(self).wf(),
            old(self).valid_fardel(fardel_id),
            owner == old(self).spec_owner(fardel_id),
            old(self).is_pending(unpacker, fardel_id),
        ensures
            final(self).wf(),
            ({
                let idx = old(self).spec_pending_idx(unpacker, fardel_id);
                let e = old(self).spec_queue(owner)[idx];
                &&& final(self).spec_queue(owner) == old(self).spec_queue(owner).update(
                    idx,
                    (PendingUnpackApproval {
                        fardel_id: e.fardel_id,
                        unpacker: e.unpacker,
                        amount: e.amount,
                        timestamp: e.timestamp,
                        canceled: true,
                    }),
                )
                &&& final(self).pending_status@ == old(self).pending_status@.insert(
                    spec_pair_key(unpacker, fardel_id),
                    (MyPendingUnpack { pending_unpack_idx: idx as usize, value: false }),
                )
            }),
            forall|o: u64| o != owner ==> final(self).spec_queue(o) == old(self).spec_queue(o),
            !final(self).is_pending(unpacker, fardel_id),
            final(self).unpack_counts@ == old(self).unpack_counts@.update(
                fardel_id as int,
                (old(self).spec_unpack_count(fardel_id) - 1) as u128,
            ),
            final(self).fardels == old(self).fardels,
            final(self).mappings == old(self).mappings,
            final(self).sealed == old(self).sealed,
            final(self).hidden == old(self).hidden,
            final(self).removed == old(self).removed,
            final(self).imgs == old(self).imgs,
            final(self).hash_to_id == old(self).hash_to_id,
            final(self).owner_logs == old(self).owner_logs,
            final(self).unpacked == old(self).unpacked,
            final(self).unpacked_logs == old(self).unpacked_logs,
            final(self).pending_starts == old(self).pending_starts,
            final(self).operator == old(self).operator,
            final(self).transaction_fee == old(self).transaction_fee,
            final(self).limits == old(self).limits,
            Store::seals_preserved(*old(self), *final(self)),
    {
        proof {
            lemma_pair_key_parts(unpacker, fardel_id);
            old(self).lemma_reservation_sets(fardel_id);
        }
        let k0 = pair_key(unpacker, fardel_id);
        let idx: usize = match self.pending_status.get(&k0) {
            Some(st) => st.pending_unpack_idx,
            None => 0,
        };

        let mut q: Vec<PendingUnpackApproval> = match self.pending_queues.get(&owner) {
            Some(v) => copy_vec(v),
            None => Vec::new(),
        };
        let e = q[idx];
        q.set(
            idx,
            PendingUnpackApproval {
                fardel_id: e.fardel_id,
                unpacker: e.unpacker,
                amount: e.amount,
                timestamp: e.timestamp,
                canceled: true,
            },
        );
        self.pending_queues.insert(owner, q);

        self.pending_status.insert(
            k0,
            MyPendingUnpack { pending_unpack_idx: idx, value: false },
        );

        let aidx = self.arena_index(fardel_id);
        let cur = self.unpack_counts[aidx];
        proof {
            let pre = *old(self);
            assert(pre.pending_keys(fardel_id).contains(spec_pair_key(unpacker, fardel_id)));
            assert(pre.pending_keys(fardel_id).remove(
                spec_pair_key(unpacker, fardel_id),
            ).len() == pre.pending_keys(fardel_id).len() - 1);
        }
        self.unpack_counts.set(aidx, cur - 1);

        proof {
            let pre = *old(self);
            let post = *self;
            let id = fardel_id;
            let k = spec_pair_key(unpacker, id);

            assert forall|i: int| 0 <= i < pre.fardels@.len() implies {
                &&& #[trigger] post.settled_keys(i as u128) == pre.settled_keys(i as u128)
                &&& (i != id as int ==> post.pending_keys(i as u128) == pre.pending_keys(
                    i as u128,
                ))
            } by {
                assert(post.settled_keys(i as u128) =~= pre.settled_keys(i as u128));
                if i != id as int {
                    assert(post.pending_keys(i as u128) =~= pre.pending_keys(i as u128)) by {
                        assert(key_fardel(k) == id);
                    }
                }
            }
            assert(post.pending_keys(id) =~= pre.pending_keys(id).remove(k));

            // no other live marker or entry shares this pair or this offset
            assert forall|k2: u128|
                #[trigger] post.pending_status@.contains_key(k2) && post.pending_status@[
                k2].value implies k2 != k by {
            }
            assert forall|k2: u128|
                pre.pending_status@.contains_key(k2) && pre.pending_status@[k2].value && k2 != k
                    && key_fardel(k2) < pre.fardels@.len()
                    && pre.spec_owner(key_fardel(k2)) == owner implies pre.pending_status@[
                k2].pending_unpack_idx != idx by {
                if pre.pending_status@[k2].pending_unpack_idx == idx {
                    let e2 = pre.spec_queue(owner)[idx as int];
                    lemma_key_recompose(k2);
                    assert(e2.unpacker == key_account(k2) && e2.fardel_id == key_fardel(k2));
                    assert(e2.unpacker == unpacker && e2.fardel_id == id);
                }
            }
        }
    }

    /// Settles the queue entry at the owner's cursor and advances the
    /// cursor by one.  A canceled entry is skipped with no side effect
    /// beyond cursor advancement; a live one gets its unpack record, its
    /// marker cleared, and is returned for settlement.  The reservation
    /// counter does not move: the unit was reserved at request time.
    pub(crate) fn approve_step(&mut self, owner: u64) -> (r: Option<PendingUnpackApproval>)
        requires
            old(self).wf(),
            old(self).spec_pending_start(owner) < old(self).spec_queue(owner).len(),
        ensures
            final(self).wf(),
            final(self).pending_starts@ == old(self).pending_starts@.insert(
                owner,
                (old(self).spec_pending_start(owner) + 1) as usize,
            ),
            final(self).pending_queues == old(self).pending_queues,
            final(self).fardels == old(self).fardels,
            final(self).mappings == old(self).mappings,
            final(self).sealed == old(self).sealed,
            final(self).hidden == old(self).hidden,
            final(self).removed == old(self).removed,
            final(self).unpack_counts == old(self).unpack_counts,
            final(self).imgs == old(self).imgs,
            final(self).hash_to_id == old(self).hash_to_id,
            final(self).owner_logs == old(self).owner_logs,
            final(self).operator == old(self).operator,
            final(self).transaction_fee == old(self).transaction_fee,
            final(self).limits == old(self).limits,
            ({
                let e = old(self).spec_queue(owner)[old(self).spec_pending_start(owner)];
                match r {
                    Some(got) => {
                        &&& got == e
                        &&& !e.canceled
                        &&& final(self).unpacked@ == old(self).unpacked@.insert(
                            spec_pair_key(e.unpacker, e.fardel_id),
                            (UnpackedStatus { unpacked: true }),
                        )
                        &&& final(self).is_unpacked(e.unpacker, e.fardel_id)
                        &&& !final(self).is_pending(e.unpacker, e.fardel_id)
                        &&& final(self).pending_status@ == old(self).pending_status@.insert(
                            spec_pair_key(e.unpacker, e.fardel_id),
                            (MyPendingUnpack {
                                pending_unpack_idx: old(self).spec_pending_start(owner) as usize,
                                value: false,
                            }),
                        )
                        &&& final(self).spec_unpacked_log(e.unpacker) == old(
                            self,
                        ).spec_unpacked_log(e.unpacker).push(
                            (UnpackedFardel { fardel_id: e.fardel_id }),
                        )
                        &&& forall|p: u64| p != e.unpacker ==> final(self).spec_unpacked_log(p)
                            == old(self).spec_unpacked_log(p)
                    },
                    None => {
                        &&& e.canceled
                        &&& final(self).unpacked == old(self).unpacked
                        &&& final(self).unpacked_logs == old(self).unpacked_logs
                        &&& final(self).pending_status == old(self).pending_status
                    },
                }
            }),
            Store::seals_preserved(*old(self), *final(self)),
    {
        let start = self.get_pending_start(owner);
        let e: PendingUnpackApproval = match self.pending_queues.get(&owner) {
            Some(q) => {
                let qlen = q.len();
                assert(start < qlen);
                q[start]
            },
            None => {
                proof {
                    assert(false);
                }
                PendingUnpackApproval {
                    fardel_id: 0,
                    unpacker: 0,
                    amount: 0,
                    timestamp: 0,
                    canceled: true,
                }
            },
        };
        let ghost pre = *old(self);
        let ghost id = e.fardel_id;
        let ghost k = spec_pair_key(e.unpacker, e.fardel_id);

        if e.canceled {
            self.pending_starts.insert(owner, start + 1);
            proof {
                // no live marker pointed at the skipped entry
                assert forall|k2: u128|
                    #[trigger] self.pending_status@.contains_key(k2)
                        && self.pending_status@[k2].value implies self.pending_status@[
                k2].pending_unpack_idx != start || self.spec_owner(key_fardel(k2))
                    != owner by {
                    if self.pending_status@[k2].pending_unpack_idx == start && self.spec_owner(
                        key_fardel(k2),
                    ) == owner {
                        assert(!pre.spec_queue(owner)[start as int].canceled);
                    }
                }
            }
            None
        } else {
            proof {
                lemma_pair_key_parts(e.unpacker, e.fardel_id);
                // the live entry at the cursor is backed by its marker
                assert(pre.pending_status@.contains_key(k) && pre.pending_status@[k].value
                    && pre.pending_status@[k].pending_unpack_idx == start);
                old(self).lemma_reservation_sets(id);
            }
            self.pending_starts.insert(owner, start + 1);
            let k0 = pair_key(e.unpacker, e.fardel_id);
            self.pending_status.insert(
                k0,
                MyPendingUnpack { pending_unpack_idx: start, value: false },
            );
            self.unpacked.insert(k0, UnpackedStatus { unpacked: true });
            let mut ulog: Vec<UnpackedFardel> = match self.unpacked_logs.get(&e.unpacker) {
                Some(v) => copy_vec(v),
                None => Vec::new(),
            };
            ulog.push(UnpackedFardel { fardel_id: e.fardel_id });
            self.unpacked_logs.insert(e.unpacker, ulog);

            proof {
                let post = *self;

                // reservation sets: one pending became one settled
                assert forall|i: int| 0 <= i < pre.fardels@.len() && i != id as int implies {
                    &&& #[trigger] post.settled_keys(i as u128) == pre.settled_keys(i as u128)
                    &&& post.pending_keys(i as u128) == pre.pending_keys(i as u128)
                } by {
                    assert(post.settled_keys(i as u128) =~= pre.settled_keys(i as u128)) by {
                        assert(key_fardel(k) == id);
                    }
                    assert(post.pending_keys(i as u128) =~= pre.pending_keys(i as u128)) by {
                        assert(key_fardel(k) == id);
                    }
                }
                assert(e.unpacker != pre.spec_owner(id)) by {
                    assert(pre.unpacked@.contains_key(
                        spec_pair_key(pre.spec_owner(id), id),
                    ));
                    if e.unpacker == pre.spec_owner(id) {
                        assert(pre.unpacked@.contains_key(k));
                    }
                }
                assert(post.settled_keys(id) =~= pre.settled_keys(id).insert(k));
                assert(!pre.settled_keys(id).contains(k));
                assert(post.settled_keys(id).len() == pre.settled_keys(id).len() + 1);
                assert(post.pending_keys(id) =~= pre.pending_keys(id).remove(k));
                assert(pre.pending_keys(id).contains(k));
                assert(post.pending_keys(id).len() == pre.pending_keys(id).len() - 1);

                // no other live marker shares this pair's offset
                assert forall|k2: u128|
                    pre.pending_status@.contains_key(k2) && pre.pending_status@[k2].value && k2
                        != k && pre.spec_owner(key_fardel(k2)) == owner implies pre
                    .pending_status@[k2].pending_unpack_idx != start by {
                    if pre.pending_status@[k2].pending_unpack_idx == start {
                        let e2 = pre.spec_queue(owner)[start as int];
                        lemma_key_recompose(k2);
                        assert(e2.unpacker == key_account(k2) && e2.fardel_id == key_fardel(k2));
                    }
                }

                // the purchaser's history never repeats
                assert forall|j: int|
                    0 <= j < pre.spec_unpacked_log(e.unpacker).len() implies (#[trigger] pre
                    .spec_unpacked_log(e.unpacker)[j]).fardel_id != id by {
                    if pre.spec_unpacked_log(e.unpacker)[j].fardel_id == id {
                        assert(pre.unpacked@.contains_key(k));
                    }
                }
            }
            Some(e)
        }
    }
}

} // verus!
