//! The marketplace state and its well-formedness invariant.
//!
//! Storage is append-only: listings live in an arena indexed by their
//! sequential internal id, per-owner and per-purchaser sequences only grow,
//! and every "deletion" is a boolean latch read back by query code.  Point
//! lookups go through hash indexes keyed by integers, never through scans.

use vstd::prelude::*;
use vstd::pervasive::VecAdditionalExecFns;
use std::collections::HashMap;

use crate::commission::{fee_valid, StoredFee};
use crate::keys::{key_account, key_fardel, spec_pair_key, KEY_BASE};
use crate::listings::{GlobalIdFardelMapping, StoredFardel};
use crate::pending::PendingUnpackApproval;
use crate::unpack::{MyPendingUnpack, UnpackedFardel, UnpackedStatus};
use crate::validation::Limits;

verus! {

/// The whole engine state: listing arena, indexes, unpack ledger, pending
/// approval queues and configuration.  One value of this type stands for
/// the storage the engine has exclusive access to.
pub struct Store {
    /// Account that receives commissions and may remove listings.
    pub operator: u64,
    /// The commission rate applied at settlement.
    pub transaction_fee: StoredFee,
    /// Bounds enforced on listing bodies at creation.
    pub limits: Limits,
    /// Listing bodies, indexed by internal id.
    pub fardels: Vec<StoredFardel>,
    /// internal id -> (owner, offset in the owner's log).
    pub mappings: Vec<GlobalIdFardelMapping>,
    /// One-way latch: no further unpacks once set.
    pub sealed: Vec<bool>,
    /// Owner-toggleable visibility latch.
    pub hidden: Vec<bool>,
    /// Operator-toggleable removal latch.
    pub removed: Vec<bool>,
    /// Units reserved per listing: settled purchases plus live pending
    /// requests.
    pub unpack_counts: Vec<u128>,
    /// Thumbnail image bytes per listing (empty when none was stored).
    pub imgs: Vec<Vec<u8>>,
    /// public (hash) id -> internal id.
    pub hash_to_id: HashMap<u128, u128>,
    /// owner -> internal ids of the owner's listings, in creation order.
    pub owner_logs: HashMap<u64, Vec<u128>>,
    /// (purchaser, listing) pair key -> "already unpacked" flag.
    pub unpacked: HashMap<u128, UnpackedStatus>,
    /// purchaser -> append-only history of unlocked listings.
    pub unpacked_logs: HashMap<u64, Vec<UnpackedFardel>>,
    /// owner -> append-only queue of requests awaiting approval.
    pub pending_queues: HashMap<u64, Vec<PendingUnpackApproval>>,
    /// owner -> first queue offset not yet examined by approval.
    pub pending_starts: HashMap<u64, usize>,
    /// (purchaser, listing) pair key -> "currently pending" marker.
    pub pending_status: HashMap<u128, MyPendingUnpack>,
}

impl Store {
    /// How many listings have been created; also the next internal id.
    pub open spec fn num_fardels(self) -> int {
        self.fardels@.len() as int
    }

    /// Whether `id` addresses a created listing.
    pub open spec fn valid_fardel(self, id: u128) -> bool {
        (id as int) < self.num_fardels()
    }

    /// The immutable body of listing `id`.
    pub open spec fn spec_fardel(self, id: u128) -> StoredFardel {
        self.fardels@[id as int]
    }

    /// The account that owns listing `id`.
    pub open spec fn spec_owner(self, id: u128) -> u64 {
        self.mappings@[id as int].owner
    }

    /// Whether listing `id` is sealed.  Out-of-range ids count as unsealed.
    pub open spec fn is_sealed(self, id: u128) -> bool {
        self.valid_fardel(id) && self.sealed@[id as int]
    }

    /// Whether listing `id` is hidden.
    pub open spec fn is_hidden(self, id: u128) -> bool {
        self.valid_fardel(id) && self.hidden@[id as int]
    }

    /// Whether listing `id` is removed.
    pub open spec fn is_removed(self, id: u128) -> bool {
        self.valid_fardel(id) && self.removed@[id as int]
    }

    /// Units currently reserved on listing `id` (settled plus pending).
    pub open spec fn spec_unpack_count(self, id: u128) -> u128 {
        if self.valid_fardel(id) {
            self.unpack_counts@[id as int]
        } else {
            0
        }
    }

    /// Whether the purchaser already holds the payload of listing `id`.
    pub open spec fn is_unpacked(self, purchaser: u64, id: u128) -> bool {
        let k = spec_pair_key(purchaser, id);
        self.valid_fardel(id) && self.unpacked@.contains_key(k) && self.unpacked@[k].unpacked
    }

    /// Whether the purchaser has a live pending request on listing `id`.
    pub open spec fn is_pending(self, purchaser: u64, id: u128) -> bool {
        let k = spec_pair_key(purchaser, id);
        self.valid_fardel(id) && self.pending_status@.contains_key(k)
            && self.pending_status@[k].value
    }

    /// Queue offset of the purchaser's live pending request.
    pub open spec fn spec_pending_idx(self, purchaser: u64, id: u128) -> int {
        self.pending_status@[spec_pair_key(purchaser, id)].pending_unpack_idx as int
    }

    /// The owner's listing log (empty when the owner never published).
    pub open spec fn spec_owner_log(self, owner: u64) -> Seq<u128> {
        if self.owner_logs@.contains_key(owner) {
            self.owner_logs@[owner]@
        } else {
            Seq::<u128>::empty()
        }
    }

    /// The purchaser's unlock history (empty when nothing was unlocked).
    pub open spec fn spec_unpacked_log(self, purchaser: u64) -> Seq<UnpackedFardel> {
        if self.unpacked_logs@.contains_key(purchaser) {
            self.unpacked_logs@[purchaser]@
        } else {
            Seq::<UnpackedFardel>::empty()
        }
    }

    /// The owner's pending-approval queue (empty when none exists).
    pub open spec fn spec_queue(self, owner: u64) -> Seq<PendingUnpackApproval> {
        if self.pending_queues@.contains_key(owner) {
            self.pending_queues@[owner]@
        } else {
            Seq::<PendingUnpackApproval>::empty()
        }
    }

    /// The owner's queue cursor: the first offset approval has not examined.
    pub open spec fn spec_pending_start(self, owner: u64) -> int {
        if self.pending_starts@.contains_key(owner) {
            self.pending_starts@[owner] as int
        } else {
            0
        }
    }

    /// Pair keys of settled purchases of listing `id`: purchasers other than
    /// the owner holding an unpack record.  The owner's own record, written
    /// free of charge at creation, reserves no unit.
    pub open spec fn settled_keys(self, id: u128) -> Set<u128> {
        self.unpacked@.dom().filter(
            |k: u128| key_fardel(k) == id && key_account(k) != self.spec_owner(id),
        )
    }

    /// Pair keys of live pending requests on listing `id`.
    pub open spec fn pending_keys(self, id: u128) -> Set<u128> {
        self.pending_status@.dom().filter(
            |k: u128| key_fardel(k) == id && self.pending_status@[k].value,
        )
    }

    /// The arena is rectangular, bodies know their id, every listing is
    /// reachable through its owner's log and through the public-id index,
    /// and the index never points astray.
    pub open spec fn wf_arena(self) -> bool {
        &&& self.mappings@.len() == self.fardels@.len()
        &&& self.sealed@.len() == self.fardels@.len()
        &&& self.hidden@.len() == self.fardels@.len()
        &&& self.removed@.len() == self.fardels@.len()
        &&& self.unpack_counts@.len() == self.fardels@.len()
        &&& self.imgs@.len() == self.fardels@.len()
        &&& self.fardels@.len() < KEY_BASE
        &&& forall|i: int|
            0 <= i < self.fardels@.len() ==> (#[trigger] self.fardels@[i]).global_id == i
        &&& forall|i: int|
            0 <= i < self.fardels@.len() ==> {
                let m = #[trigger] self.mappings@[i];
                &&& self.owner_logs@.contains_key(m.owner)
                &&& m.index < self.owner_logs@[m.owner]@.len()
                &&& self.owner_logs@[m.owner]@[m.index as int] == i as u128
            }
        &&& forall|i: int|
            0 <= i < self.fardels@.len() ==> {
                let h = (#[trigger] self.fardels@[i]).hash_id;
                &&& self.hash_to_id@.contains_key(h)
                &&& self.hash_to_id@[h] == i as u128
            }
        &&& forall|h: u128|
            #[trigger] self.hash_to_id@.contains_key(h) ==> {
                &&& self.valid_fardel(self.hash_to_id@[h])
                &&& self.fardels@[self.hash_to_id@[h] as int].hash_id == h
            }
    }

    /// Every owner log lists that owner's listings, each exactly at the
    /// offset its index record says.
    pub open spec fn wf_owner_logs(self) -> bool {
        forall|o: u64|
            #[trigger] self.owner_logs@.contains_key(o) ==> {
                let lg = self.owner_logs@[o]@;
                forall|j: int|
                    0 <= j < lg.len() ==> {
                        &&& self.valid_fardel(#[trigger] lg[j])
                        &&& self.mappings@[lg[j] as int].owner == o
                        &&& self.mappings@[lg[j] as int].index == j
                    }
            }
    }

    /// Unpack records point at real listings and are only ever positive;
    /// the owner of every listing holds its record from creation on; each
    /// purchaser's history matches the records and never repeats a listing.
    pub open spec fn wf_ledger(self) -> bool {
        &&& forall|k: u128|
            #[trigger] self.unpacked@.contains_key(k) ==> {
                &&& self.valid_fardel(key_fardel(k))
                &&& self.unpacked@[k].unpacked
            }
        &&& forall|i: int|
            0 <= i < self.fardels@.len() ==> {
                let m = #[trigger] self.mappings@[i];
                self.unpacked@.contains_key(spec_pair_key(m.owner, i as u128))
            }
        &&& forall|p: u64|
            #[trigger] self.unpacked_logs@.contains_key(p) ==> {
                let lg = self.unpacked_logs@[p]@;
                &&& forall|j: int|
                    0 <= j < lg.len() ==> self.unpacked@.contains_key(
                        spec_pair_key(p, (#[trigger] lg[j]).fardel_id),
                    ) && self.valid_fardel(lg[j].fardel_id)
                &&& forall|j1: int, j2: int|
                    0 <= j1 < j2 < lg.len() ==> (#[trigger] lg[j1]).fardel_id != (
                    #[trigger] lg[j2]).fardel_id
            }
    }

    /// A live pending marker points at a live, matching queue entry of the
    /// listing owner's queue, at or past the cursor, and excludes an unpack
    /// record for the same pair.
    pub open spec fn wf_markers(self) -> bool {
        forall|k: u128|
            #[trigger] self.pending_status@.contains_key(k) ==> {
                let st = self.pending_status@[k];
                &&& self.valid_fardel(key_fardel(k))
                &&& st.value ==> {
                    let id = key_fardel(k);
                    let o = self.spec_owner(id);
                    let q = self.spec_queue(o);
                    &&& st.pending_unpack_idx < q.len()
                    &&& q[st.pending_unpack_idx as int].unpacker == key_account(k)
                    &&& q[st.pending_unpack_idx as int].fardel_id == id
                    &&& !q[st.pending_unpack_idx as int].canceled
                    &&& st.pending_unpack_idx >= self.spec_pending_start(o)
                    &&& !self.unpacked@.contains_key(k)
                }
            }
    }

    /// Queue entries belong to the queue's owner, hold the listing price,
    /// and every live entry at or past the cursor is pointed back at by the
    /// purchaser's marker.  The cursor never passes the end of the queue.
    pub open spec fn wf_queues(self) -> bool {
        &&& forall|o: u64|
            #[trigger] self.pending_queues@.contains_key(o) ==> {
                let q = self.pending_queues@[o]@;
                forall|i: int|
                    0 <= i < q.len() ==> {
                        let e = #[trigger] q[i];
                        &&& self.valid_fardel(e.fardel_id)
                        &&& self.spec_owner(e.fardel_id) == o
                        &&& e.amount == self.fardels@[e.fardel_id as int].cost
                        &&& (i >= self.spec_pending_start(o) && !e.canceled) ==> {
                            let k = spec_pair_key(e.unpacker, e.fardel_id);
                            &&& self.pending_status@.contains_key(k)
                            &&& self.pending_status@[k].value
                            &&& self.pending_status@[k].pending_unpack_idx == i
                        }
                    }
            }
        &&& forall|o: u64|
            #[trigger] self.pending_starts@.contains_key(o) ==> self.pending_starts@[o]
                <= self.spec_queue(o).len()
    }

    /// Inventory conservation: the reservation counter of every listing is
    /// exactly the number of settled purchases plus live pending requests,
    /// and on an inventory-limited listing it never exceeds the limit.
    pub open spec fn wf_counts(self) -> bool {
        forall|i: int|
            0 <= i < self.fardels@.len() ==> {
                &&& (#[trigger] self.unpack_counts@[i]) == self.settled_keys(i as u128).len()
                    + self.pending_keys(i as u128).len()
                &&& self.fardels@[i].countable > 0 ==> self.unpack_counts@[i] <= self.fardels@[
                    i].countable
            }
    }

    /// The whole well-formedness invariant.  Constructors establish it and
    /// every operation preserves it.
    pub open spec fn wf(self) -> bool {
        &&& fee_valid(self.transaction_fee)
        &&& self.wf_arena()
        &&& self.wf_owner_logs()
        &&& self.wf_ledger()
        &&& self.wf_markers()
        &&& self.wf_queues()
        &&& self.wf_counts()
    }

    /// Seal monotonicity between two states: nothing sealed ever reads
    /// unsealed again.
    pub open spec fn seals_preserved(pre: Store, post: Store) -> bool {
        forall|id: u128| pre.is_sealed(id) ==> #[trigger] post.is_sealed(id)
    }

    /// A fresh, empty store for the given operator, commission rate and
    /// creation bounds.
    pub fn new(operator: u64, transaction_fee: StoredFee, limits: Limits) -> (r: Store)
        requires
            fee_valid(transaction_fee),
        ensures
            r.wf(),
            r.operator == operator,
            r.transaction_fee == transaction_fee,
            r.limits == limits,
            r.num_fardels() == 0,
            r.hash_to_id@ == Map::<u128, u128>::empty(),
            r.unpacked@ == Map::<u128, UnpackedStatus>::empty(),
            r.pending_status@ == Map::<u128, MyPendingUnpack>::empty(),
            r.owner_logs@ == Map::<u64, Vec<u128>>::empty(),
            r.unpacked_logs@ == Map::<u64, Vec<UnpackedFardel>>::empty(),
            r.pending_queues@ == Map::<u64, Vec<PendingUnpackApproval>>::empty(),
            r.pending_starts@ == Map::<u64, usize>::empty(),
    {
        Store {
            operator,
            transaction_fee,
            limits,
            fardels: Vec::new(),
            mappings: Vec::new(),
            sealed: Vec::new(),
            hidden: Vec::new(),
            removed: Vec::new(),
            unpack_counts: Vec::new(),
            imgs: Vec::new(),
            hash_to_id: HashMap::new(),
            owner_logs: HashMap::new(),
            unpacked: HashMap::new(),
            unpacked_logs: HashMap::new(),
            pending_queues: HashMap::new(),
            pending_starts: HashMap::new(),
            pending_status: HashMap::new(),
        }
    }

    /// The reservation sets of a listing are finite and no larger than the
    /// point-lookup maps they are filtered from.
    pub proof fn lemma_reservation_sets(self, id: u128)
        ensures
            self.settled_keys(id).finite(),
            self.pending_keys(id).finite(),
            self.settled_keys(id).len() <= self.unpacked@.dom().len(),
            self.pending_keys(id).len() <= self.pending_status@.dom().len(),
    {
        assert(self.settled_keys(id).subset_of(self.unpacked@.dom()));
        vstd::set_lib::lemma_len_subset(self.settled_keys(id), self.unpacked@.dom());
        assert(self.pending_keys(id).subset_of(self.pending_status@.dom()));
        vstd::set_lib::lemma_len_subset(self.pending_keys(id), self.pending_status@.dom());
    }

    /// Internal ids stay below the arena length, which fits a `usize`, so
    /// the narrowing cast is exact.
    pub(crate) fn arena_index(&self, fardel_id: u128) -> (idx: usize)
        requires
            (fardel_id as int) < self.fardels@.len(),
        ensures
            idx as u128 == fardel_id,
    {
        let n = self.fardels.len();
        assert(fardel_id < n as u128);
        fardel_id as usize
    }

    /// Number of listings created so far; also the next internal id.
    pub fn get_total_fardel_count(&self) -> (r: u128)
        requires
            self.wf(),
        ensures
            r == self.num_fardels(),
    {
        self.fardels.len() as u128
    }

    /// One-way seal latch of a listing.
    pub fn seal_fardel(&mut self, fardel_id: u128)
        requires
            old(self).wf(),
            old(self).valid_fardel(fardel_id),
        ensures
            final(self).wf(),
            *final(self) == (Store { sealed: final(self).sealed, ..*old(self) }),
            final(self).sealed@ == old(self).sealed@.update(fardel_id as int, true),
            Store::seals_preserved(*old(self), *final(self)),
    {
        let idx = self.arena_index(fardel_id);
        self.sealed.set(idx, true);
    }

    /// Sealed status of a listing; ids never created read as unsealed.
    pub fn get_sealed_status(&self, fardel_id: u128) -> (r: bool)
        requires
            self.wf(),
        ensures
            r == self.is_sealed(fardel_id),
    {
        if fardel_id < self.fardels.len() as u128 {
            let idx = self.arena_index(fardel_id);
            self.sealed[idx]
        } else {
            false
        }
    }

    /// Hides a listing from readers who have not unlocked it.
    pub fn hide_fardel(&mut self, fardel_id: u128)
        requires
            old(self).wf(),
            old(self).valid_fardel(fardel_id),
        ensures
            final(self).wf(),
            *final(self) == (Store { hidden: final(self).hidden, ..*old(self) }),
            final(self).hidden@ == old(self).hidden@.update(fardel_id as int, true),
            Store::seals_preserved(*old(self), *final(self)),
    {
        let idx = self.arena_index(fardel_id);
        self.hidden.set(idx, true);
    }

    /// Clears the hidden latch.
    pub fn unhide_fardel(&mut self, fardel_id: u128)
        requires
            old(self).wf(),
            old(self).valid_fardel(fardel_id),
        ensures
            final(self).wf(),
            *final(self) == (Store { hidden: final(self).hidden, ..*old(self) }),
            final(self).hidden@ == old(self).hidden@.update(fardel_id as int, false),
            Store::seals_preserved(*old(self), *final(self)),
    {
        let idx = self.arena_index(fardel_id);
        self.hidden.set(idx, false);
    }

    /// Hidden status of a listing.
    pub fn is_fardel_hidden(&self, fardel_id: u128) -> (r: bool)
        requires
            self.wf(),
        ensures
            r == self.is_hidden(fardel_id),
    {
        if fardel_id < self.fardels.len() as u128 {
            let idx = self.arena_index(fardel_id);
            self.hidden[idx]
        } else {
            false
        }
    }

    /// Marks a listing removed.
    pub fn remove_fardel(&mut self, fardel_id: u128)
        requires
            old(self).wf(),
            old(self).valid_fardel(fardel_id),
        ensures
            final(self).wf(),
            *final(self) == (Store { removed: final(self).removed, ..*old(self) }),
            final(self).removed@ == old(self).removed@.update(fardel_id as int, true),
            Store::seals_preserved(*old(self), *final(self)),
    {
        let idx = self.arena_index(fardel_id);
        self.removed.set(idx, true);
    }

    /// Clears the removed latch.
    pub fn unremove_fardel(&mut self, fardel_id: u128)
        requires
            old(self).wf(),
            old(self).valid_fardel(fardel_id),
        ensures
            final(self).wf(),
            *final(self) == (Store { removed: final(self).removed, ..*old(self) }),
            final(self).removed@ == old(self).removed@.update(fardel_id as int, false),
            Store::seals_preserved(*old(self), *final(self)),
    {
        let idx = self.arena_index(fardel_id);
        self.removed.set(idx, false);
    }

    /// Removed status of a listing.
    pub fn is_fardel_removed(&self, fardel_id: u128) -> (r: bool)
        requires
            self.wf(),
        ensures
            r == self.is_removed(fardel_id),
    {
        if fardel_id < self.fardels.len() as u128 {
            let idx = self.arena_index(fardel_id);
            self.removed[idx]
        } else {
            false
        }
    }

    /// Units currently reserved on a listing.
    pub fn get_fardel_unpack_count(&self, fardel_id: u128) -> (r: u128)
        requires
            self.wf(),
        ensures
            r == self.spec_unpack_count(fardel_id),
    {
        if fardel_id < self.fardels.len() as u128 {
            let idx = self.arena_index(fardel_id);
            self.unpack_counts[idx]
        } else {
            0
        }
    }
}

/// One page of a sequence read backwards: the `page`th group of
/// `page_size` elements counting from the most recent one.
pub open spec fn spec_page_rev<T>(s: Seq<T>, page: u32, page_size: u32) -> Seq<T> {
    let skip = (page as int) * (page_size as int);
    if skip >= s.len() {
        Seq::<T>::empty()
    } else {
        let take = if (page_size as int) <= s.len() - skip {
            page_size as int
        } else {
            s.len() - skip
        };
        Seq::<T>::new(take as nat, |i: int| s[s.len() - 1 - skip - i])
    }
}

/// Reads one page of a vector of plain values, most recent first.
pub fn page_rev_copy<T: Copy>(v: &Vec<T>, page: u32, page_size: u32) -> (r: Vec<T>)
    ensures
        r@ == spec_page_rev(v@, page, page_size),
{
    proof {
        assert((page as int) * (page_size as int) < 0x1_0000_0000_0000_0000) by (nonlinear_arith)
            requires page <= 0xffff_ffffu32 && page_size <= 0xffff_ffffu32;
    }
    let skip: u64 = (page as u64) * (page_size as u64);
    let len: u64 = v.len() as u64;
    let mut r: Vec<T> = Vec::new();
    if skip >= len {
        proof {
            assert(r@ =~= spec_page_rev(v@, page, page_size));
        }
        return r;
    }
    let take: u64 = if (page_size as u64) <= len - skip {
        page_size as u64
    } else {
        len - skip
    };
    let mut i: u64 = 0;
    while i < take
        invariant
            len == v@.len(),
            len <= usize::MAX,
            skip == (page as int) * (page_size as int),
            skip < len,
            take == spec_page_rev(v@, page, page_size).len(),
            take <= len - skip,
            i <= take,
            r@ == spec_page_rev(v@, page, page_size).subrange(0, i as int),
        decreases take - i,
    {
        let idx: u64 = len - 1 - skip - i;
        proof {
            assert(idx < len);
            assert(idx as usize as int == idx as int);
        }
        r.push(v[idx as usize]);
        proof {
            let pg = spec_page_rev(v@, page, page_size);
            assert(pg[i as int] == v@[idx as int]);
            assert(pg.subrange(0, i + 1 as int) =~= pg.subrange(0, i as int).push(pg[i as int]));
        }
        i += 1;
    }
    proof {
        let pg = spec_page_rev(v@, page, page_size);
        assert(pg.subrange(0, pg.len() as int) =~= pg);
    }
    r
}

/// Copies a vector of plain values element by element.
pub fn copy_vec<T: Copy>(v: &Vec<T>) -> (r: Vec<T>)
    ensures
        r@ == v@,
{
    let mut r: Vec<T> = Vec::new();
    let mut i: usize = 0;
    while i < v.len()
        invariant
            i <= v.len(),
            r@ == v@.subrange(0, i as int),
        decreases v.len() - i,
    {
        r.push(v[i]);
        proof {
            assert(v@.subrange(0, i + 1 as int) =~= v@.subrange(0, i as int).push(v@[i as int]));
        }
        i += 1;
    }
    proof {
        assert(v@.subrange(0, v@.len() as int) =~= v@);
    }
    r
}

} // verus!
