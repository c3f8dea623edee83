//! Records of completed unlocks: the per-purchaser history log and the
//! point-lookup status used to guarantee at-most-once delivery.

use vstd::prelude::*;

use crate::keys::{key_account, key_fardel, lemma_pair_key_parts, pair_key, spec_pair_key};
use crate::store::{copy_vec, page_rev_copy, spec_page_rev, Store};

verus! {

/// One entry of a purchaser's append-only unlock history.
#[derive(Clone, Copy, Debug, PartialEq, Eq, Structural)]
pub struct UnpackedFardel {
    pub fardel_id: u128,
}

/// The point-lookup "already unpacked" flag for a (purchaser, listing) pair.
#[derive(Clone, Copy, Debug, PartialEq, Eq, Structural)]
pub struct UnpackedStatus {
    pub unpacked: bool,
}

/// The point-lookup marker for a purchaser's pending request on a listing:
/// the offset of the entry in the owner's queue, and whether the request is
/// currently pending.
#[derive(Clone, Copy, Debug, PartialEq, Eq, Structural)]
pub struct MyPendingUnpack {
    pub pending_unpack_idx: usize,
    pub value: bool,
}

impl Store {
    /// Records an unlock for `(unpacker, fardel_id)`: writes the
    /// point-lookup record, appends to the purchaser's history, and, when
    /// the purchaser is not the owner, consumes one unit of inventory (the
    /// owner's own record at creation reserves nothing).  All effects are
    /// one atomic unit.
    pub fn store_unpack(&mut self, unpacker: u64, fardel_id: u128)
        requires
            old(self).wf(),
            old(self).valid_fardel(fardel_id),
            !old(self).is_unpacked(unpacker, fardel_id),
            !old(self).is_pending(unpacker, fardel_id),
            unpacker != old(self).spec_owner(fardel_id) && old(self).spec_fardel(
                fardel_id,
            ).countable > 0 ==> old(self).spec_unpack_count(fardel_id) < old(self).spec_fardel(
                fardel_id,
            ).countable,
        ensures
            final(self).wf(),
            final(self).unpacked@ == old(self).unpacked@.insert(
                spec_pair_key(unpacker, fardel_id),
                (UnpackedStatus { unpacked: true }),
            ),
            final(self).is_unpacked(unpacker, fardel_id),
            final(self).spec_unpacked_log(unpacker) == old(self).spec_unpacked_log(unpacker).push(
                (UnpackedFardel { fardel_id }),
            ),
            forall|p: u64| p != unpacker ==> final(self).spec_unpacked_log(p) == old(
                self,
            ).spec_unpacked_log(p),
            unpacker != old(self).spec_owner(fardel_id) ==> final(self).unpack_counts@ == old(
                self,
            ).unpack_counts@.update(
                fardel_id as int,
                (old(self).spec_unpack_count(fardel_id) + 1) as u128,
            ),
            unpacker == old(self).spec_owner(fardel_id) ==> final(self).unpack_counts@ == old(
                self,
            ).unpack_counts@,
            final(self).fardels == old(self).fardels,
            final(self).mappings == old(self).mappings,
            final(self).sealed == old(self).sealed,
            final(self).hidden == old(self).hidden,
            final(self).removed == old(self).removed,
            final(self).imgs == old(self).imgs,
            final(self).hash_to_id == old(self).hash_to_id,
            final(self).owner_logs == old(self).owner_logs,
            final(self).pending_queues == old(self).pending_queues,
            final(self).pending_starts == old(self).pending_starts,
            final(self).pending_status == old(self).pending_status,
            final(self).operator == old(self).operator,
            final(self).transaction_fee == old(self).transaction_fee,
            final(self).limits == old(self).limits,
            Store::seals_preserved(*old(self), *final(self)),
    {
        proof {
            lemma_pair_key_parts(unpacker, fardel_id);
            old(self).lemma_reservation_sets(fardel_id);
        }
        let settled_cap = self.unpacked.len();
        let pending_cap = self.pending_status.len();
        let k0 = pair_key(unpacker, fardel_id);
        self.unpacked.insert(k0, UnpackedStatus { unpacked: true });
        let mut ulog: Vec<UnpackedFardel> = match self.unpacked_logs.get(&unpacker) {
            Some(v) => copy_vec(v),
            None => Vec::new(),
        };
        ulog.push(UnpackedFardel { fardel_id });
        self.unpacked_logs.insert(unpacker, ulog);

        let owner = self.mappings[self.arena_index(fardel_id)].owner;
        if unpacker != owner {
            let idx = self.arena_index(fardel_id);
            let cur = self.unpack_counts[idx];
            proof {
                assert(old(self).settled_keys(fardel_id).len() <= settled_cap);
                assert(old(self).pending_keys(fardel_id).len() <= pending_cap);
            }
            self.unpack_counts.set(idx, cur + 1);
        }

        proof {
            let pre = *old(self);
            let post = *self;
            let id = fardel_id;
            let k = spec_pair_key(unpacker, id);

            // the pair was unrecorded before, so the settled set grows by it
            assert(!pre.unpacked@.contains_key(k));
            assert forall|i: int| 0 <= i < pre.fardels@.len() implies {
                &&& #[trigger] post.pending_keys(i as u128) == pre.pending_keys(i as u128)
                &&& (i != id as int ==> post.settled_keys(i as u128) == pre.settled_keys(
                    i as u128,
                ))
            } by {
                assert(post.pending_keys(i as u128) =~= pre.pending_keys(i as u128));
                if i != id as int {
                    assert(post.settled_keys(i as u128) =~= pre.settled_keys(i as u128)) by {
                        assert(key_fardel(k) == id);
                    }
                }
            }
            if unpacker != pre.spec_owner(id) {
                assert(post.settled_keys(id) =~= pre.settled_keys(id).insert(k));
                assert(pre.settled_keys(id).finite());
                assert(!pre.settled_keys(id).contains(k));
                assert(post.settled_keys(id).len() == pre.settled_keys(id).len() + 1);
            } else {
                assert(post.settled_keys(id) =~= pre.settled_keys(id));
            }

            // the purchaser's history never repeats: every older entry is a
            // recorded pair, and this pair was not recorded
            assert forall|j: int|
                0 <= j < pre.spec_unpacked_log(unpacker).len() implies (#[trigger] pre
                .spec_unpacked_log(unpacker)[j]).fardel_id != id by {
                if pre.spec_unpacked_log(unpacker)[j].fardel_id == id {
                    assert(pre.unpacked@.contains_key(k));
                }
            }
        }
    }

    /// The "already unpacked" flag of a (purchaser, listing) pair; pairs
    /// never recorded read as not unpacked.
    pub fn get_unpacked_status_by_fardel_id(&self, unpacker: u64, fardel_id: u128) -> (r:
        UnpackedStatus)
        requires
            self.wf(),
        ensures
            r.unpacked == self.is_unpacked(unpacker, fardel_id),
    {
        if fardel_id < self.fardels.len() as u128 {
            let k = pair_key(unpacker, fardel_id);
            match self.unpacked.get(&k) {
                Some(st) => UnpackedStatus { unpacked: st.unpacked },
                None => UnpackedStatus { unpacked: false },
            }
        } else {
            UnpackedStatus { unpacked: false }
        }
    }

    /// One page of the purchaser's unlock history, most recent first.
    pub fn get_unpacked_by_unpacker(&self, unpacker: u64, page: u32, page_size: u32) -> (r: Vec<
        UnpackedFardel,
    >)
        requires
            self.wf(),
        ensures
            r@ == spec_page_rev(self.spec_unpacked_log(unpacker), page, page_size),
    {
        match self.unpacked_logs.get(&unpacker) {
            Some(v) => page_rev_copy(v, page, page_size),
            None => {
                let r: Vec<UnpackedFardel> = Vec::new();
                proof {
                    assert(r@ =~= spec_page_rev(
                        self.spec_unpacked_log(unpacker),
                        page,
                        page_size,
                    ));
                }
                r
            },
        }
    }

    /// How many unlocks the purchaser's history holds.
    pub fn get_number_of_unpacked_by_unpacker(&self, unpacker: u64) -> (r: usize)
        requires
            self.wf(),
        ensures
            r == self.spec_unpacked_log(unpacker).len(),
    {
        match self.unpacked_logs.get(&unpacker) {
            Some(v) => v.len(),
            None => 0,
        }
    }
}

} // verus!
