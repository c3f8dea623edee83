//! The listing entity, its index record, and the listing store: creation,
//! lookup by public or internal id, and the owner's append log.

use vstd::prelude::*;
use vstd::pervasive::VecAdditionalExecFns;

use crate::keys::{key_account, key_fardel, lemma_pair_key_parts, pair_key, spec_pair_key};
use crate::store::{copy_vec, Store};
use crate::unpack::{UnpackedFardel, UnpackedStatus};

verus! {

/// A published listing ("fardel"): the immutable body written at creation.
/// Mutable side-state (sealed/hidden/removed flags, consumed units) is kept
/// separately in the store, since it changes independently of the body.
#[derive(Debug)]
pub struct StoredFardel {
    /// Sequential internal id, assigned at creation, used for addressing.
    pub global_id: u128,
    /// Opaque public id derived from a keyed hash of the creation context;
    /// the only id ever exposed externally.
    pub hash_id: u128,
    pub public_message: Vec<u8>,
    pub tags: Vec<Vec<u8>>,
    /// The private payload, released only on unlock.
    pub contents_data: Vec<u8>,
    /// Price in base currency units.
    pub cost: u128,
    /// 0 = unlimited; otherwise the exact number of sellable units.
    pub countable: u16,
    /// Whether an unpack must wait for the owner's approval.
    pub approval_req: bool,
    /// 0 = never expires; otherwise a logical-clock deadline after which the
    /// listing seals itself on the next access.
    pub seal_time: u64,
    /// Logical-clock time of creation.
    pub timestamp: u64,
}

/// Where a listing lives: the owning account and the offset of the listing
/// in that owner's append log.
#[derive(Clone, Copy, Debug, PartialEq, Eq, Structural)]
pub struct GlobalIdFardelMapping {
    pub owner: u64,
    pub index: usize,
}

/// Field-for-field sameness of two listing bodies, comparing buffers by
/// their contents.
pub open spec fn fardel_body_eq(a: StoredFardel, b: StoredFardel) -> bool {
    &&& a.global_id == b.global_id
    &&& a.hash_id == b.hash_id
    &&& a.public_message@ == b.public_message@
    &&& a.tags.deep_view() == b.tags.deep_view()
    &&& a.contents_data@ == b.contents_data@
    &&& a.cost == b.cost
    &&& a.countable == b.countable
    &&& a.approval_req == b.approval_req
    &&& a.seal_time == b.seal_time
    &&& a.timestamp == b.timestamp
}

/// Copies a list of byte strings, keeping every string's contents.
pub fn copy_tags(v: &Vec<Vec<u8>>) -> (r: Vec<Vec<u8>>)
    ensures
        r.deep_view() == v.deep_view(),
{
    let mut r: Vec<Vec<u8>> = Vec::new();
    let mut i: usize = 0;
    while i < v.len()
        invariant
            i <= v.len(),
            r@.len() == i,
            forall|j: int| 0 <= j < i ==> (#[trigger] r@[j])@ == v@[j]@,
        decreases v.len() - i,
    {
        r.push(copy_vec(&v[i]));
        i += 1;
    }
    proof {
        assert(r.deep_view() =~= v.deep_view());
    }
    r
}

/// Copies a listing body, keeping every field's contents.
pub fn clone_fardel(f: &StoredFardel) -> (r: StoredFardel)
    ensures
        fardel_body_eq(r, *f),
{
    StoredFardel {
        global_id: f.global_id,
        hash_id: f.hash_id,
        public_message: copy_vec(&f.public_message),
        tags: copy_tags(&f.tags),
        contents_data: copy_vec(&f.contents_data),
        cost: f.cost,
        countable: f.countable,
        approval_req: f.approval_req,
        seal_time: f.seal_time,
        timestamp: f.timestamp,
    }
}

impl Store {
    /// Whether an inventory-limited listing has every unit reserved.
    pub open spec fn spec_sold_out(self, id: u128) -> bool {
        self.spec_fardel(id).countable > 0 && self.spec_unpack_count(id)
            >= self.spec_fardel(id).countable
    }

    /// Whether an inventory-limited listing has every unit reserved or sold.
    pub fn sold_out(&self, fardel_id: u128) -> (r: bool)
        requires
            self.wf(),
            self.valid_fardel(fardel_id),
        ensures
            r == self.spec_sold_out(fardel_id),
    {
        let idx = self.arena_index(fardel_id);
        self.fardels[idx].countable > 0 && self.unpack_counts[idx]
            >= self.fardels[idx].countable as u128
    }

    /// Resolves a public id to the internal id it was bound to at creation.
    pub fn get_global_id_by_hash(&self, hash: u128) -> (r: Option<u128>)
        requires
            self.wf(),
        ensures
            match r {
                Some(id) => self.hash_to_id@.contains_key(hash) && id == self.hash_to_id@[hash]
                    && self.valid_fardel(id) && self.spec_fardel(id).hash_id == hash,
                None => !self.hash_to_id@.contains_key(hash),
            },
    {
        match self.hash_to_id.get(&hash) {
            Some(id) => Some(*id),
            None => None,
        }
    }

    /// The account owning a listing.
    pub fn get_fardel_owner(&self, fardel_id: u128) -> (r: u64)
        requires
            self.wf(),
            self.valid_fardel(fardel_id),
        ensures
            r == self.spec_owner(fardel_id),
    {
        let idx = self.arena_index(fardel_id);
        self.mappings[idx].owner
    }

    /// The listing body under an internal id.
    pub fn get_fardel_by_global_id(&self, fardel_id: u128) -> (r: Option<&StoredFardel>)
        requires
            self.wf(),
        ensures
            match r {
                Some(f) => self.valid_fardel(fardel_id) && *f == self.spec_fardel(fardel_id),
                None => !self.valid_fardel(fardel_id),
            },
    {
        if fardel_id < self.fardels.len() as u128 {
            let idx = self.arena_index(fardel_id);
            Some(&self.fardels[idx])
        } else {
            None
        }
    }

    /// The listing body under a public id.
    pub fn get_fardel_by_hash(&self, hash: u128) -> (r: Option<&StoredFardel>)
        requires
            self.wf(),
        ensures
            match r {
                Some(f) => self.hash_to_id@.contains_key(hash) && *f == self.spec_fardel(
                    self.hash_to_id@[hash],
                ),
                None => !self.hash_to_id@.contains_key(hash),
            },
    {
        match self.get_global_id_by_hash(hash) {
            Some(id) => self.get_fardel_by_global_id(id),
            None => None,
        }
    }

    /// How many listings an owner has published.
    pub fn get_number_of_fardels(&self, owner: u64) -> (r: usize)
        requires
            self.wf(),
        ensures
            r == self.spec_owner_log(owner).len(),
    {
        match self.owner_logs.get(&owner) {
            Some(v) => v.len(),
            None => 0,
        }
    }

    /// One page of the owner's listings, most recent first: the `page`th
    /// group of `page_size` bodies counting backwards from the latest.
    pub fn get_fardels(&self, owner: u64, page: u32, page_size: u32) -> (r: Vec<StoredFardel>)
        requires
            self.wf(),
        ensures
            ({
                let ids = crate::store::spec_page_rev(self.spec_owner_log(owner), page, page_size);
                &&& r@.len() == ids.len()
                &&& forall|i: int| 0 <= i < ids.len() ==> fardel_body_eq(
                    #[trigger] r@[i],
                    self.spec_fardel(ids[i]),
                )
            }),
    {
        let mut r: Vec<StoredFardel> = Vec::new();
        let ids: Vec<u128> = match self.owner_logs.get(&owner) {
            Some(v) => crate::store::page_rev_copy(v, page, page_size),
            None => {
                proof {
                    assert(crate::store::spec_page_rev(
                        self.spec_owner_log(owner),
                        page,
                        page_size,
                    ) =~= Seq::<u128>::empty());
                }
                return r;
            },
        };
        proof {
            let lg = self.spec_owner_log(owner);
            assert forall|t: int| 0 <= t < ids@.len() implies self.valid_fardel(
                #[trigger] ids@[t],
            ) by {
                assert(ids@[t] == lg[lg.len() - 1 - (page as int) * (page_size as int) - t]);
            }
        }
        let mut i: usize = 0;
        while i < ids.len()
            invariant
                self.wf(),
                ids@ == crate::store::spec_page_rev(self.spec_owner_log(owner), page, page_size),
                forall|t: int| 0 <= t < ids@.len() ==> self.valid_fardel(#[trigger] ids@[t]),
                i <= ids@.len(),
                r@.len() == i,
                forall|t: int| 0 <= t < i ==> fardel_body_eq(
                    #[trigger] r@[t],
                    self.spec_fardel(ids@[t]),
                ),
            decreases ids@.len() - i,
        {
            let idx = self.arena_index(ids[i]);
            r.push(clone_fardel(&self.fardels[idx]));
            i += 1;
        }
        r
    }

    /// Whether listing `id` is listed in a batch read: neither removed by
    /// the operator nor hidden by its owner.
    pub open spec fn spec_visible(self, id: u128) -> bool {
        !self.is_removed(id) && !self.is_hidden(id)
    }

    /// The visible internal ids in `[start, end)`, in ascending order.
    pub open spec fn spec_visible_batch(self, start: int, end: int) -> Seq<u128>
        decreases end - start,
    {
        if start >= end {
            Seq::<u128>::empty()
        } else if self.spec_visible(start as u128) {
            seq![start as u128] + self.spec_visible_batch(start + 1, end)
        } else {
            self.spec_visible_batch(start + 1, end)
        }
    }

    /// Extending a visible-id range by one at its upper end.
    pub proof fn lemma_visible_batch_snoc(self, start: int, end: int)
        requires
            start <= end,
        ensures
            self.spec_visible_batch(start, end + 1) == if self.spec_visible(end as u128) {
                self.spec_visible_batch(start, end).push(end as u128)
            } else {
                self.spec_visible_batch(start, end)
            },
        decreases end - start,
    {
        if start >= end {
            assert(self.spec_visible_batch(end + 1, end + 1) =~= Seq::<u128>::empty());
            assert(self.spec_visible_batch(start, end) =~= Seq::<u128>::empty());
            if self.spec_visible(end as u128) {
                assert(self.spec_visible_batch(start, end + 1) =~= self.spec_visible_batch(
                    start,
                    end,
                ).push(end as u128));
            } else {
                assert(self.spec_visible_batch(start, end + 1) =~= Seq::<u128>::empty());
            }
        } else {
            self.lemma_visible_batch_snoc(start + 1, end);
            if self.spec_visible(start as u128) {
                if self.spec_visible(end as u128) {
                    assert(seq![start as u128] + self.spec_visible_batch(start + 1, end).push(
                        end as u128,
                    ) =~= (seq![start as u128] + self.spec_visible_batch(start + 1, end)).push(
                        end as u128,
                    ));
                }
            }
        }
    }

    /// A batch read over internal ids for indexing: the bodies of the
    /// listings in `[start, min(start + count, total))` that are neither
    /// removed nor hidden, in ascending id order.
    pub fn get_fardels_batch(&self, start: u128, count: u128) -> (r: Vec<StoredFardel>)
        requires
            self.wf(),
        ensures
            ({
                let end = if start + count <= self.num_fardels() {
                    start + count
                } else {
                    self.num_fardels()
                };
                let ids = self.spec_visible_batch(start as int, end);
                &&& r@.len() == ids.len()
                &&& forall|j: int| 0 <= j < ids.len() ==> fardel_body_eq(
                    #[trigger] r@[j],
                    self.spec_fardel(ids[j]),
                )
            }),
    {
        let total = self.fardels.len() as u128;
        let end: u128 = if count <= total && start <= total - count {
            start + count
        } else {
            total
        };
        let mut r: Vec<StoredFardel> = Vec::new();
        if start >= end {
            proof {
                let e = if start + count <= self.num_fardels() {
                    start + count
                } else {
                    self.num_fardels()
                };
                assert(self.spec_visible_batch(start as int, e) =~= Seq::<u128>::empty());
            }
            return r;
        }
        let mut cur: u128 = start;
        while cur < end
            invariant
                self.wf(),
                start <= cur <= end,
                end <= self.num_fardels(),
                ({
                    let ids = self.spec_visible_batch(start as int, cur as int);
                    &&& r@.len() == ids.len()
                    &&& forall|j: int| 0 <= j < ids.len() ==> fardel_body_eq(
                        #[trigger] r@[j],
                        self.spec_fardel(ids[j]),
                    )
                }),
            decreases end - cur,
        {
            proof {
                self.lemma_visible_batch_snoc(start as int, cur as int);
            }
            if !self.is_fardel_removed(cur) && !self.is_fardel_hidden(cur) {
                let idx = self.arena_index(cur);
                r.push(clone_fardel(&self.fardels[idx]));
            }
            cur = cur + 1;
        }
        r
    }

    /// The private payload of a listing, released only to a viewer who
    /// holds an unpack record for it.
    pub fn get_contents_data(&self, viewer: u64, fardel_id: u128) -> (r: Option<Vec<u8>>)
        requires
            self.wf(),
        ensures
            match r {
                Some(c) => self.is_unpacked(viewer, fardel_id) && c@ == self.spec_fardel(
                    fardel_id,
                ).contents_data@,
                None => !self.is_unpacked(viewer, fardel_id),
            },
    {
        if fardel_id < self.fardels.len() as u128 {
            if self.get_unpacked_status_by_fardel_id(viewer, fardel_id).unpacked {
                let idx = self.arena_index(fardel_id);
                Some(copy_vec(&self.fardels[idx].contents_data))
            } else {
                None
            }
        } else {
            None
        }
    }

    /// Stores a thumbnail image for a listing.
    pub fn store_fardel_img(&mut self, fardel_id: u128, img: Vec<u8>)
        requires
            old(self).wf(),
            old(self).valid_fardel(fardel_id),
        ensures
            final(self).wf(),
            *final(self) == (Store { imgs: final(self).imgs, ..*old(self) }),
            final(self).imgs@ == old(self).imgs@.update(fardel_id as int, img),
            Store::seals_preserved(*old(self), *final(self)),
    {
        let idx = self.arena_index(fardel_id);
        self.imgs.set(idx, img);
    }

    /// The thumbnail image of a listing; empty when none was stored or the
    /// id was never created.
    pub fn get_fardel_img(&self, fardel_id: u128) -> (r: Vec<u8>)
        requires
            self.wf(),
        ensures
            self.valid_fardel(fardel_id) ==> r@ == self.imgs@[fardel_id as int]@,
            !self.valid_fardel(fardel_id) ==> r@ == Seq::<u8>::empty(),
    {
        if fardel_id < self.fardels.len() as u128 {
            let idx = self.arena_index(fardel_id);
            copy_vec(&self.imgs[idx])
        } else {
            Vec::new()
        }
    }

    /// Creates a listing: assigns the next internal id, appends the body to
    /// the owner's log, records both index entries, starts the side-state at
    /// unsealed/visible/zero reservations, and writes the owner's own unpack
    /// record so the owner always reads their own payload.  All effects are
    /// one atomic unit: the caller sees either all of them or none.
    pub fn store_fardel(
        &mut self,
        hash_id: u128,
        owner: u64,
        public_message: Vec<u8>,
        tags: Vec<Vec<u8>>,
        contents_data: Vec<u8>,
        cost: u128,
        countable: u16,
        approval_req: bool,
        seal_time: u64,
        timestamp: u64,
    ) -> (r: u128)
        requires
            old(self).wf(),
            !old(self).hash_to_id@.contains_key(hash_id),
        ensures
            final(self).wf(),
            r == old(self).num_fardels(),
            final(self).num_fardels() == r + 1,
            final(self).fardels@ == old(self).fardels@.push(
                (StoredFardel {
                    global_id: r,
                    hash_id,
                    public_message,
                    tags,
                    contents_data,
                    cost,
                    countable,
                    approval_req,
                    seal_time,
                    timestamp,
                }),
            ),
            final(self).spec_owner(r) == owner,
            final(self).hash_to_id@ == old(self).hash_to_id@.insert(hash_id, r),
            final(self).spec_owner_log(owner) == old(self).spec_owner_log(owner).push(r),
            forall|o: u64| o != owner ==> final(self).spec_owner_log(o) == old(
                self,
            ).spec_owner_log(o),
            final(self).unpacked@ == old(self).unpacked@.insert(
                spec_pair_key(owner, r),
                (UnpackedStatus { unpacked: true }),
            ),
            final(self).is_unpacked(owner, r),
            final(self).spec_unpacked_log(owner) == old(self).spec_unpacked_log(owner).push(
                (UnpackedFardel { fardel_id: r }),
            ),
            forall|p: u64| p != owner ==> final(self).spec_unpacked_log(p) == old(
                self,
            ).spec_unpacked_log(p),
            final(self).sealed@ == old(self).sealed@.push(false),
            final(self).hidden@ == old(self).hidden@.push(false),
            final(self).removed@ == old(self).removed@.push(false),
            final(self).unpack_counts@ == old(self).unpack_counts@.push(0),
            final(self).imgs@.len() == r + 1,
            forall|i: int| 0 <= i < r ==> final(self).imgs@[i] == old(self).imgs@[i],
            final(self).imgs@[r as int]@ == Seq::<u8>::empty(),
            final(self).pending_queues == old(self).pending_queues,
            final(self).pending_starts == old(self).pending_starts,
            final(self).pending_status == old(self).pending_status,
            final(self).operator == old(self).operator,
            final(self).transaction_fee == old(self).transaction_fee,
            final(self).limits == old(self).limits,
            Store::seals_preserved(*old(self), *final(self)),
    {
        let global_id: u128 = self.fardels.len() as u128;
        proof {
            lemma_pair_key_parts(owner, global_id);
        }
        let fardel = StoredFardel {
            global_id,
            hash_id,
            public_message,
            tags,
            contents_data,
            cost,
            countable,
            approval_req,
            seal_time,
            timestamp,
        };

        // append to the owner's log
        let mut log: Vec<u128> = match self.owner_logs.get(&owner) {
            Some(v) => copy_vec(v),
            None => Vec::new(),
        };
        let log_index = log.len();
        log.push(global_id);
        self.owner_logs.insert(owner, log);

        // the arena row
        self.fardels.push(fardel);
        self.mappings.push(GlobalIdFardelMapping { owner, index: log_index });
        self.sealed.push(false);
        self.hidden.push(false);
        self.removed.push(false);
        self.unpack_counts.push(0);
        self.imgs.push(Vec::new());

        // the public-id index
        self.hash_to_id.insert(hash_id, global_id);

        // the owner's own unpack record
        let k0 = pair_key(owner, global_id);
        self.unpacked.insert(k0, UnpackedStatus { unpacked: true });
        let mut ulog: Vec<UnpackedFardel> = match self.unpacked_logs.get(&owner) {
            Some(v) => copy_vec(v),
            None => Vec::new(),
        };
        ulog.push(UnpackedFardel { fardel_id: global_id });
        self.unpacked_logs.insert(owner, ulog);

        let total = self.fardels.len();
        proof {
            let pre = *old(self);
            let post = *self;
            let n = pre.fardels@.len() as int;
            let id = global_id;
            assert(total == n + 1);

            // the new listing's reservation sets are empty
            assert forall|k: u128| !(#[trigger] post.settled_keys(id).contains(k)) by {
                if post.unpacked@.dom().contains(k) {
                    if k == spec_pair_key(owner, id) {
                        assert(key_account(k) == owner);
                    } else {
                        assert(pre.unpacked@.contains_key(k));
                        assert(key_fardel(k) != id);
                    }
                }
            }
            assert(post.settled_keys(id) =~= Set::<u128>::empty());
            assert forall|k: u128| !(#[trigger] post.pending_keys(id).contains(k)) by {
                if post.pending_status@.dom().contains(k) {
                    assert(pre.pending_status@.contains_key(k));
                    assert(key_fardel(k) != id);
                }
            }
            assert(post.pending_keys(id) =~= Set::<u128>::empty());

            // older listings keep their reservation sets
            assert forall|i: int| 0 <= i < n implies {
                &&& #[trigger] post.settled_keys(i as u128) == pre.settled_keys(i as u128)
                &&& post.pending_keys(i as u128) == pre.pending_keys(i as u128)
            } by {
                assert(post.mappings@[i] == pre.mappings@[i]);
                assert(post.settled_keys(i as u128) =~= pre.settled_keys(i as u128)) by {
                    assert(key_fardel(spec_pair_key(owner, id)) == id);
                }
                assert(post.pending_keys(i as u128) =~= pre.pending_keys(i as u128));
            }
        }
        global_id
    }
}

} // verus!
