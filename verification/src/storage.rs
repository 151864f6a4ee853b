//! The storage handle: the public surface of the store.
//!
//! A handle owns one local reference set per object category. Each id in a
//! local set contributes exactly one to that id's global owner count. The
//! operations here keep that rule: storing or claiming an id adds it to the
//! local set and raises its count only when it was not already held; dropping
//! removes it and lowers the count, evicting the payload the moment the count
//! reaches zero; extend and split move local refs between handles without
//! touching any count.

use vstd::prelude::*;
use crate::effects::{bump, claim_owners, drop_owners, drop_index, ids_of, insert_new,
    lemma_claim_owners_step, lemma_drop_step};
use crate::id_set::{IdSet, lemma_take_step, lemma_take_full, lemma_no_dup_take_excludes};
use crate::object_index::{ObjectIndex, StoredObject};
use crate::owner_table::OwnerTable;
use crate::store::Store;

verus! {

/// A storage handle: local reference sets over the shared tables of a
/// [`Store`].
pub struct Storage {
    /// Block ids this handle holds a reference to.
    pub local_used_blocks: IdSet,
    /// Operation ids this handle holds a reference to.
    pub local_used_ops: IdSet,
    /// Endorsement ids this handle holds a reference to.
    pub local_used_endorsements: IdSet,
}

impl Storage {
    /// Well-formed: the three local sets are well-formed.
    pub open spec fn wf(&self) -> bool {
        &&& self.local_used_blocks.wf()
        &&& self.local_used_ops.wf()
        &&& self.local_used_endorsements.wf()
    }

    /// The handle fits the store: both are well-formed and every locally held
    /// id has a live owner count in its category.
    pub open spec fn valid_for(&self, store: Store) -> bool {
        &&& self.wf()
        &&& store.wf()
        &&& forall|id: u64| #[trigger] self.local_used_blocks@.contains(id)
            ==> store.block_owners@.contains_key(id)
        &&& forall|id: u64| #[trigger] self.local_used_ops@.contains(id)
            ==> store.operation_owners@.contains_key(id)
        &&& forall|id: u64| #[trigger] self.local_used_endorsements@.contains(id)
            ==> store.endorsement_owners@.contains_key(id)
    }

    /// Creates the root handle together with the empty shared tables. Meant to
    /// be called once per process; every other handle is derived from the root
    /// by cloning or splitting.
    pub fn create_root() -> (r: (Storage, Store))
        ensures
            r.0.local_used_blocks@ == Set::<u64>::empty(),
            r.0.local_used_ops@ == Set::<u64>::empty(),
            r.0.local_used_endorsements@ == Set::<u64>::empty(),
            r.1.blocks@ == Map::<u64, Seq<u8>>::empty(),
            r.1.operations@ == Map::<u64, Seq<u8>>::empty(),
            r.1.endorsements@ == Map::<u64, Seq<u8>>::empty(),
            r.1.block_owners@ == Map::<u64, nat>::empty(),
            r.1.operation_owners@ == Map::<u64, nat>::empty(),
            r.1.endorsement_owners@ == Map::<u64, nat>::empty(),
            r.0.valid_for(r.1),
    {
        let handle = Storage {
            local_used_blocks: IdSet::new(),
            local_used_ops: IdSet::new(),
            local_used_endorsements: IdSet::new(),
        };
        let store = Store {
            blocks: ObjectIndex::new(),
            operations: ObjectIndex::new(),
            endorsements: ObjectIndex::new(),
            block_owners: OwnerTable::new(),
            operation_owners: OwnerTable::new(),
            endorsement_owners: OwnerTable::new(),
        };
        proof {
            assert(store.block_owners@.dom() =~= store.blocks@.dom());
            assert(store.operation_owners@.dom() =~= store.operations@.dom());
            assert(store.endorsement_owners@.dom() =~= store.endorsements@.dom());
        }
        (handle, store)
    }

    /// A new handle over the same store with no references of its own. No
    /// owner count changes.
    pub fn clone_without_refs(&self) -> (r: Storage)
        ensures
            r.local_used_blocks@ == Set::<u64>::empty(),
            r.local_used_ops@ == Set::<u64>::empty(),
            r.local_used_endorsements@ == Set::<u64>::empty(),
            r.wf(),
    {
        Storage {
            local_used_blocks: IdSet::new(),
            local_used_ops: IdSet::new(),
            local_used_endorsements: IdSet::new(),
        }
    }

    /// A new handle holding the same references as this one: every locally
    /// held id gains one owner count for the copy.
    pub fn clone_with_refs(&self, store: &mut Store) -> (r: Storage)
        requires
            self.valid_for(*old(store)),
            old(store).block_owners.room_for_one_more(),
            old(store).operation_owners.room_for_one_more(),
            old(store).endorsement_owners.room_for_one_more(),
        ensures
            r.local_used_blocks@ == self.local_used_blocks@,
            r.local_used_ops@ == self.local_used_ops@,
            r.local_used_endorsements@ == self.local_used_endorsements@,
            final(store).block_owners@ == claim_owners(
                old(store).block_owners@,
                Set::<u64>::empty(),
                self.local_used_blocks@,
            ),
            final(store).operation_owners@ == claim_owners(
                old(store).operation_owners@,
                Set::<u64>::empty(),
                self.local_used_ops@,
            ),
            final(store).endorsement_owners@ == claim_owners(
                old(store).endorsement_owners@,
                Set::<u64>::empty(),
                self.local_used_endorsements@,
            ),
            final(store).blocks == old(store).blocks,
            final(store).operations == old(store).operations,
            final(store).endorsements == old(store).endorsements,
            r.valid_for(*final(store)),
            self.valid_for(*final(store)),
    {
        let mut r = self.clone_without_refs();
        Self::internal_claim_refs(
            &self.local_used_ops,
            &mut store.operation_owners,
            &mut r.local_used_ops,
        );
        Self::internal_claim_refs(
            &self.local_used_blocks,
            &mut store.block_owners,
            &mut r.local_used_blocks,
        );
        Self::internal_claim_refs(
            &self.local_used_endorsements,
            &mut store.endorsement_owners,
            &mut r.local_used_endorsements,
        );
        proof {
            assert(r.local_used_blocks@ =~= self.local_used_blocks@);
            assert(r.local_used_ops@ =~= self.local_used_ops@);
            assert(r.local_used_endorsements@ =~= self.local_used_endorsements@);
            assert(store.block_owners@.dom() =~= old(store).block_owners@.dom());
            assert(store.operation_owners@.dom() =~= old(store).operation_owners@.dom());
            assert(store.endorsement_owners@.dom() =~= old(store).endorsement_owners@.dom());
        }
        r
    }

    /// Internal helper: claims a local reference to each id in `ids`. An id
    /// newly added to the local set gains one owner count (entering at one if
    /// absent); ids already held locally are untouched.
    fn internal_claim_refs(ids: &IdSet, owners: &mut OwnerTable, local_used_ids: &mut IdSet)
        requires
            ids.wf(),
            old(owners).wf(),
            old(owners).room_for_one_more(),
            old(local_used_ids).wf(),
            forall|id: u64| #[trigger] old(local_used_ids)@.contains(id) ==> old(owners)@.contains_key(id),
        ensures
            final(owners).wf(),
            final(local_used_ids).wf(),
            final(local_used_ids)@ == old(local_used_ids)@ + ids@,
            final(owners)@ == claim_owners(old(owners)@, old(local_used_ids)@, ids@),
            final(owners)@.dom() == old(owners)@.dom() + ids@,
            forall|id: u64| #[trigger] final(local_used_ids)@.contains(id) ==> final(owners)@.contains_key(id),
    {
        let n = ids.len();
        let mut i: usize = 0;
        while i < n
            invariant
                i <= n,
                n == ids.seq().len(),
                ids.wf(),
                owners.wf(),
                local_used_ids.wf(),
                old(owners).wf(),
                old(owners).room_for_one_more(),
                old(local_used_ids).wf(),
                forall|id: u64| #[trigger] old(local_used_ids)@.contains(id) ==> old(owners)@.contains_key(id),
                local_used_ids@ == old(local_used_ids)@ + ids.seq().take(i as int).to_set(),
                owners@ == claim_owners(
                    old(owners)@,
                    old(local_used_ids)@,
                    ids.seq().take(i as int).to_set(),
                ),
            decreases n - i,
        {
            let id = ids.get_at(i);
            let ghost p = ids.seq().take(i as int).to_set();
            proof {
                lemma_take_step(ids.seq(), i as int);
                lemma_no_dup_take_excludes(ids.seq(), i as int);
                lemma_claim_owners_step(old(owners)@, old(local_used_ids)@, p, id);
            }
            let newly = local_used_ids.insert(id);
            if newly {
                proof {
                    assert(!old(local_used_ids)@.contains(id) && !p.contains(id));
                    assert(owners@.contains_key(id) ==> owners@[id] < usize::MAX) by {
                        if owners@.contains_key(id) {
                            assert(old(owners)@.contains_key(id));
                            assert(owners@[id] == old(owners)@[id]);
                        }
                    }
                }
                owners.increment(id);
                proof {
                    assert(owners@ == claim_owners(old(owners)@, old(local_used_ids)@, p.insert(id)));
                }
            } else {
                proof {
                    assert(old(local_used_ids)@.contains(id) || p.contains(id));
                    assert(owners@ == claim_owners(old(owners)@, old(local_used_ids)@, p.insert(id)));
                }
            }
            proof {
                assert(local_used_ids@ =~= old(local_used_ids)@ + p.insert(id));
            }
            i += 1;
        }
        proof {
            lemma_take_full(ids.seq());
            assert(final(owners)@.dom() =~= old(owners)@.dom() + ids@);
            assert forall|id: u64| #[trigger] final(local_used_ids)@.contains(id) implies final(owners)@.contains_key(id) by {
                if old(local_used_ids)@.contains(id) {
                    assert(old(owners)@.contains_key(id));
                }
            }
        }
    }

    /// Internal helper: drops the local reference to each id in `ids`. Ids not
    /// held locally are skipped; a dropped id loses one owner count, and when
    /// the count reaches zero the entry and the stored payload are evicted.
    fn drop_refs_core(ids: &IdSet, owners: &mut OwnerTable, local: &mut IdSet,
        index: &mut ObjectIndex)
        requires
            ids.wf(),
            old(owners).wf(),
            old(local).wf(),
            old(index).wf(),
            forall|id: u64| #[trigger] old(local)@.contains(id) ==> old(owners)@.contains_key(id),
            old(owners)@.dom() == old(index)@.dom(),
        ensures
            final(owners).wf(),
            final(local).wf(),
            final(index).wf(),
            final(local)@ == old(local)@ - ids@,
            final(owners)@ == drop_owners(old(owners)@, old(local)@, ids@),
            final(index)@ == drop_index(old(index)@, old(owners)@, old(local)@, ids@),
            final(owners)@.dom() == final(index)@.dom(),
            forall|id: u64| #[trigger] final(local)@.contains(id) ==> final(owners)@.contains_key(id),
    {
        let n = ids.len();
        let mut i: usize = 0;
        while i < n
            invariant
                i <= n,
                n == ids.seq().len(),
                ids.wf(),
                owners.wf(),
                local.wf(),
                index.wf(),
                old(owners).wf(),
                old(local).wf(),
                old(index).wf(),
                forall|id: u64| #[trigger] old(local)@.contains(id) ==> old(owners)@.contains_key(id),
                old(owners)@.dom() == old(index)@.dom(),
                local@ == old(local)@ - ids.seq().take(i as int).to_set(),
                owners@ == drop_owners(
                    old(owners)@,
                    old(local)@,
                    ids.seq().take(i as int).to_set(),
                ),
                index@ == drop_index(
                    old(index)@,
                    old(owners)@,
                    old(local)@,
                    ids.seq().take(i as int).to_set(),
                ),
            decreases n - i,
        {
            let id = ids.get_at(i);
            let ghost p = ids.seq().take(i as int).to_set();
            proof {
                lemma_take_step(ids.seq(), i as int);
                lemma_no_dup_take_excludes(ids.seq(), i as int);
                lemma_drop_step(old(owners)@, old(local)@, old(index)@, p, id);
            }
            let was = local.remove(id);
            if was {
                proof {
                    assert(old(local)@.contains(id) && !p.contains(id));
                    assert(owners@.contains_key(id));
                    assert(owners@[id] == old(owners)@[id]);
                }
                let now_zero = owners.decrement(id);
                if now_zero {
                    index.remove_object(id);
                }
                proof {
                    assert(owners@ == drop_owners(old(owners)@, old(local)@, p.insert(id)));
                    assert(index@ == drop_index(old(index)@, old(owners)@, old(local)@, p.insert(
                        id,
                    )));
                }
            } else {
                proof {
                    assert(!old(local)@.contains(id));
                }
            }
            proof {
                assert(local@ =~= old(local)@ - p.insert(id));
            }
            i += 1;
        }
        proof {
            lemma_take_full(ids.seq());
            assert(final(owners)@.dom() =~= final(index)@.dom());
        }
    }

    /// The block ids this handle holds a reference to.
    pub fn get_block_refs(&self) -> (r: &IdSet)
        ensures
            *r == self.local_used_blocks,
    {
        &self.local_used_blocks
    }

    /// The operation ids this handle holds a reference to.
    pub fn get_op_refs(&self) -> (r: &IdSet)
        ensures
            *r == self.local_used_ops,
    {
        &self.local_used_ops
    }

    /// The endorsement ids this handle holds a reference to.
    pub fn get_endorsement_refs(&self) -> (r: &IdSet)
        ensures
            *r == self.local_used_endorsements,
    {
        &self.local_used_endorsements
    }

    /// Internal helper: claims the subset of `ids` that is live in `owners`
    /// and returns it.
    fn claim_refs_core(ids: &IdSet, owners: &mut OwnerTable, local: &mut IdSet) -> (claimed: IdSet)
        requires
            ids.wf(),
            old(owners).wf(),
            old(owners).room_for_one_more(),
            old(local).wf(),
            forall|id: u64| #[trigger] old(local)@.contains(id) ==> old(owners)@.contains_key(id),
        ensures
            claimed.wf(),
            claimed@ == ids@.intersect(old(owners)@.dom()),
            final(local).wf(),
            final(local)@ == old(local)@ + claimed@,
            final(owners).wf(),
            final(owners)@ == claim_owners(old(owners)@, old(local)@, claimed@),
            final(owners)@.dom() == old(owners)@.dom(),
            forall|id: u64| #[trigger] final(local)@.contains(id) ==> final(owners)@.contains_key(id),
    {
        let mut claimed = IdSet::new();
        let n = ids.len();
        let mut i: usize = 0;
        while i < n
            invariant
                i <= n,
                n == ids.seq().len(),
                ids.wf(),
                claimed.wf(),
                *owners == *old(owners),
                claimed@ == ids.seq().take(i as int).to_set().intersect(old(owners)@.dom()),
            decreases n - i,
        {
            let id = ids.get_at(i);
            proof {
                lemma_take_step(ids.seq(), i as int);
            }
            if owners.contains(id) {
                claimed.insert(id);
            }
            proof {
                assert(claimed@ =~= ids.seq().take(i as int + 1).to_set().intersect(
                    old(owners)@.dom(),
                ));
            }
            i += 1;
        }
        proof {
            lemma_take_full(ids.seq());
        }
        Self::internal_claim_refs(&claimed, owners, local);
        proof {
            assert(final(owners)@.dom() =~= old(owners)@.dom());
        }
        claimed
    }

    /// Claims a local reference to every given block id that is live in the
    /// store, and returns the set of ids that were found and claimed.
    pub fn claim_block_refs(&mut self, store: &mut Store, ids: &IdSet) -> (claimed: IdSet)
        requires
            ids.wf(),
            old(self).valid_for(*old(store)),
            old(store).block_owners.room_for_one_more(),
        ensures
            claimed.wf(),
            claimed@ == ids@.intersect(old(store).block_owners@.dom()),
            final(self).local_used_blocks@ == old(self).local_used_blocks@ + claimed@,
            final(self).local_used_ops == old(self).local_used_ops,
            final(self).local_used_endorsements == old(self).local_used_endorsements,
            final(store).block_owners@ == claim_owners(
                old(store).block_owners@,
                old(self).local_used_blocks@,
                claimed@,
            ),
            final(store).blocks == old(store).blocks,
            final(store).operations == old(store).operations,
            final(store).endorsements == old(store).endorsements,
            final(store).operation_owners == old(store).operation_owners,
            final(store).endorsement_owners == old(store).endorsement_owners,
            final(self).valid_for(*final(store)),
    {
        let claimed = Self::claim_refs_core(
            ids,
            &mut store.block_owners,
            &mut self.local_used_blocks,
        );
        claimed
    }

    /// Claims a local reference to every given operation id that is live in
    /// the store, and returns the set of ids that were found and claimed.
    pub fn claim_operation_refs(&mut self, store: &mut Store, ids: &IdSet) -> (claimed: IdSet)
        requires
            ids.wf(),
            old(self).valid_for(*old(store)),
            old(store).operation_owners.room_for_one_more(),
        ensures
            claimed.wf(),
            claimed@ == ids@.intersect(old(store).operation_owners@.dom()),
            final(self).local_used_ops@ == old(self).local_used_ops@ + claimed@,
            final(self).local_used_blocks == old(self).local_used_blocks,
            final(self).local_used_endorsements == old(self).local_used_endorsements,
            final(store).operation_owners@ == claim_owners(
                old(store).operation_owners@,
                old(self).local_used_ops@,
                claimed@,
            ),
            final(store).blocks == old(store).blocks,
            final(store).operations == old(store).operations,
            final(store).endorsements == old(store).endorsements,
            final(store).block_owners == old(store).block_owners,
            final(store).endorsement_owners == old(store).endorsement_owners,
            final(self).valid_for(*final(store)),
    {
        let claimed = Self::claim_refs_core(
            ids,
            &mut store.operation_owners,
            &mut self.local_used_ops,
        );
        claimed
    }

    /// Claims a local reference to every given endorsement id that is live in
    /// the store, and returns the set of ids that were found and claimed.
    pub fn claim_endorsement_refs(&mut self, store: &mut Store, ids: &IdSet) -> (claimed: IdSet)
        requires
            ids.wf(),
            old(self).valid_for(*old(store)),
            old(store).endorsement_owners.room_for_one_more(),
        ensures
            claimed.wf(),
            claimed@ == ids@.intersect(old(store).endorsement_owners@.dom()),
            final(self).local_used_endorsements@ == old(self).local_used_endorsements@ + claimed@,
            final(self).local_used_blocks == old(self).local_used_blocks,
            final(self).local_used_ops == old(self).local_used_ops,
            final(store).endorsement_owners@ == claim_owners(
                old(store).endorsement_owners@,
                old(self).local_used_endorsements@,
                claimed@,
            ),
            final(store).blocks == old(store).blocks,
            final(store).operations == old(store).operations,
            final(store).endorsements == old(store).endorsements,
            final(store).block_owners == old(store).block_owners,
            final(store).operation_owners == old(store).operation_owners,
            final(self).valid_for(*final(store)),
    {
        let claimed = Self::claim_refs_core(
            ids,
            &mut store.endorsement_owners,
            &mut self.local_used_endorsements,
        );
        claimed
    }

    /// Drops the local reference to every given block id. Ids not held locally
    /// are skipped; an id whose owner count reaches zero is evicted from the
    /// store together with its payload.
    pub fn drop_block_refs(&mut self, store: &mut Store, ids: &IdSet)
        requires
            ids.wf(),
            old(self).valid_for(*old(store)),
        ensures
            final(self).local_used_blocks@ == old(self).local_used_blocks@ - ids@,
            final(self).local_used_ops == old(self).local_used_ops,
            final(self).local_used_endorsements == old(self).local_used_endorsements,
            final(store).block_owners@ == drop_owners(
                old(store).block_owners@,
                old(self).local_used_blocks@,
                ids@,
            ),
            final(store).blocks@ == drop_index(
                old(store).blocks@,
                old(store).block_owners@,
                old(self).local_used_blocks@,
                ids@,
            ),
            final(store).operations == old(store).operations,
            final(store).endorsements == old(store).endorsements,
            final(store).operation_owners == old(store).operation_owners,
            final(store).endorsement_owners == old(store).endorsement_owners,
            final(self).valid_for(*final(store)),
    {
        Self::drop_refs_core(
            ids,
            &mut store.block_owners,
            &mut self.local_used_blocks,
            &mut store.blocks,
        );
    }

    /// Drops the local reference to every given operation id. Ids not held
    /// locally are skipped; an id whose owner count reaches zero is evicted
    /// from the store together with its payload.
    pub fn drop_operation_refs(&mut self, store: &mut Store, ids: &IdSet)
        requires
            ids.wf(),
            old(self).valid_for(*old(store)),
        ensures
            final(self).local_used_ops@ == old(self).local_used_ops@ - ids@,
            final(self).local_used_blocks == old(self).local_used_blocks,
            final(self).local_used_endorsements == old(self).local_used_endorsements,
            final(store).operation_owners@ == drop_owners(
                old(store).operation_owners@,
                old(self).local_used_ops@,
                ids@,
            ),
            final(store).operations@ == drop_index(
                old(store).operations@,
                old(store).operation_owners@,
                old(self).local_used_ops@,
                ids@,
            ),
            final(store).blocks == old(store).blocks,
            final(store).endorsements == old(store).endorsements,
            final(store).block_owners == old(store).block_owners,
            final(store).endorsement_owners == old(store).endorsement_owners,
            final(self).valid_for(*final(store)),
    {
        Self::drop_refs_core(
            ids,
            &mut store.operation_owners,
            &mut self.local_used_ops,
            &mut store.operations,
        );
    }

    /// Drops the local reference to every given endorsement id. Ids not held
    /// locally are skipped; an id whose owner count reaches zero is evicted
    /// from the store together with its payload.
    pub fn drop_endorsement_refs(&mut self, store: &mut Store, ids: &IdSet)
        requires
            ids.wf(),
            old(self).valid_for(*old(store)),
        ensures
            final(self).local_used_endorsements@ == old(self).local_used_endorsements@ - ids@,
            final(self).local_used_blocks == old(self).local_used_blocks,
            final(self).local_used_ops == old(self).local_used_ops,
            final(store).endorsement_owners@ == drop_owners(
                old(store).endorsement_owners@,
                old(self).local_used_endorsements@,
                ids@,
            ),
            final(store).endorsements@ == drop_index(
                old(store).endorsements@,
                old(store).endorsement_owners@,
                old(self).local_used_endorsements@,
                ids@,
            ),
            final(store).blocks == old(store).blocks,
            final(store).operations == old(store).operations,
            final(store).block_owners == old(store).block_owners,
            final(store).operation_owners == old(store).operation_owners,
            final(self).valid_for(*final(store)),
    {
        Self::drop_refs_core(
            ids,
            &mut store.endorsement_owners,
            &mut self.local_used_endorsements,
            &mut store.endorsements,
        );
    }

    /// Stores a block payload and claims a local reference to it. Insertion is
    /// idempotent by id.
    pub fn store_block(&mut self, store: &mut Store, block: StoredObject)
        requires
            old(self).valid_for(*old(store)),
            old(store).block_owners.room_for_one_more(),
        ensures
            final(self).local_used_blocks@ == old(self).local_used_blocks@.insert(block.id),
            final(self).local_used_ops == old(self).local_used_ops,
            final(self).local_used_endorsements == old(self).local_used_endorsements,
            old(store).blocks@.contains_key(block.id) ==> final(store).blocks@ == old(store).blocks@,
            !old(store).blocks@.contains_key(block.id) ==> final(store).blocks@ == old(store).blocks@.insert(block.id, block.bytes@),
            final(store).block_owners@ == claim_owners(
                old(store).block_owners@,
                old(self).local_used_blocks@,
                Set::<u64>::empty().insert(block.id),
            ),
            final(store).operations == old(store).operations,
            final(store).endorsements == old(store).endorsements,
            final(store).operation_owners == old(store).operation_owners,
            final(store).endorsement_owners == old(store).endorsement_owners,
            final(self).valid_for(*final(store)),
    {
        let id = block.id;
        store.blocks.insert_object(block);
        proof {
            lemma_claim_owners_step(
                old(store).block_owners@,
                old(self).local_used_blocks@,
                Set::<u64>::empty(),
                id,
            );
            assert(claim_owners(
                old(store).block_owners@,
                old(self).local_used_blocks@,
                Set::<u64>::empty(),
            ) =~= old(store).block_owners@);
        }
        let newly = self.local_used_blocks.insert(id);
        if newly {
            store.block_owners.increment(id);
            proof {
                assert(store.block_owners@ == bump(old(store).block_owners@, id));
            }
        }
        proof {
            assert(final(self).local_used_blocks@ =~= old(self).local_used_blocks@.insert(id));
            assert(final(store).block_owners@ == claim_owners(
                old(store).block_owners@,
                old(self).local_used_blocks@,
                Set::<u64>::empty().insert(id),
            ));
            assert(final(store).block_owners@.dom() =~= final(store).blocks@.dom());
        }
    }

    /// Stores a batch of operation payloads and claims a local reference to
    /// each. Insertion is idempotent by id.
    pub fn store_operations(&mut self, store: &mut Store, operations: Vec<StoredObject>)
        requires
            old(self).valid_for(*old(store)),
            old(store).operation_owners.room_for_one_more(),
        ensures
            final(store).operations@ == insert_new(old(store).operations@, operations@),
            final(store).operation_owners@ == claim_owners(
                old(store).operation_owners@,
                old(self).local_used_ops@,
                ids_of(operations@),
            ),
            final(self).local_used_ops@ == old(self).local_used_ops@ + ids_of(operations@),
            final(self).local_used_blocks == old(self).local_used_blocks,
            final(self).local_used_endorsements == old(self).local_used_endorsements,
            final(store).blocks == old(store).blocks,
            final(store).endorsements == old(store).endorsements,
            final(store).block_owners == old(store).block_owners,
            final(store).endorsement_owners == old(store).endorsement_owners,
            final(self).valid_for(*final(store)),
    {
        Self::store_batch_core(
            operations,
            &mut store.operation_owners,
            &mut self.local_used_ops,
            &mut store.operations,
        );
    }

    /// Stores a batch of endorsement payloads and claims a local reference to
    /// each. Insertion is idempotent by id.
    pub fn store_endorsements(&mut self, store: &mut Store, endorsements: Vec<StoredObject>)
        requires
            old(self).valid_for(*old(store)),
            old(store).endorsement_owners.room_for_one_more(),
        ensures
            final(store).endorsements@ == insert_new(old(store).endorsements@, endorsements@),
            final(store).endorsement_owners@ == claim_owners(
                old(store).endorsement_owners@,
                old(self).local_used_endorsements@,
                ids_of(endorsements@),
            ),
            final(self).local_used_endorsements@ == old(self).local_used_endorsements@ + ids_of(
                endorsements@,
            ),
            final(self).local_used_blocks == old(self).local_used_blocks,
            final(self).local_used_ops == old(self).local_used_ops,
            final(store).blocks == old(store).blocks,
            final(store).operations == old(store).operations,
            final(store).block_owners == old(store).block_owners,
            final(store).operation_owners == old(store).operation_owners,
            final(self).valid_for(*final(store)),
    {
        Self::store_batch_core(
            endorsements,
            &mut store.endorsement_owners,
            &mut self.local_used_endorsements,
            &mut store.endorsements,
        );
    }

    /// Internal helper: stores a batch of payloads in one category and claims
    /// a local reference to each id.
    fn store_batch_core(objs: Vec<StoredObject>, owners: &mut OwnerTable, local: &mut IdSet,
        index: &mut ObjectIndex)
        requires
            old(owners).wf(),
            old(owners).room_for_one_more(),
            old(local).wf(),
            old(index).wf(),
            forall|id: u64| #[trigger] old(local)@.contains(id) ==> old(owners)@.contains_key(id),
            old(owners)@.dom() == old(index)@.dom(),
        ensures
            final(owners).wf(),
            final(local).wf(),
            final(index).wf(),
            final(index)@ == insert_new(old(index)@, objs@),
            final(owners)@ == claim_owners(old(owners)@, old(local)@, ids_of(objs@)),
            final(local)@ == old(local)@ + ids_of(objs@),
            final(owners)@.dom() == final(index)@.dom(),
            forall|id: u64| #[trigger] final(local)@.contains(id) ==> final(owners)@.contains_key(id),
    {
        let n = objs.len();
        let mut i: usize = 0;
        while i < n
            invariant
                i <= n,
                n == objs@.len(),
                owners.wf(),
                local.wf(),
                index.wf(),
                old(owners).wf(),
                old(owners).room_for_one_more(),
                old(local).wf(),
                old(index).wf(),
                forall|id: u64| #[trigger] old(local)@.contains(id) ==> old(owners)@.contains_key(id),
                old(owners)@.dom() == old(index)@.dom(),
                index@ == insert_new(old(index)@, objs@.take(i as int)),
                owners@ == claim_owners(old(owners)@, old(local)@, ids_of(objs@.take(i as int))),
                local@ == old(local)@ + ids_of(objs@.take(i as int)),
                owners@.dom() == index@.dom(),
            decreases n - i,
        {
            let obj = objs[i].clone();
            let id = obj.id;
            let ghost pre = objs@.take(i as int);
            let ghost p = ids_of(pre);
            proof {
                assert(objs@.take(i as int + 1) =~= pre.push(objs@[i as int]));
                assert(objs@.take(i as int + 1).drop_last() =~= pre);
                assert(ids_of(objs@.take(i as int + 1)) =~= p.insert(id)) by {
                    assert forall|y: u64| ids_of(pre.push(objs@[i as int])).contains(y) <==> p.insert(
                        id,
                    ).contains(y) by {
                        let q = pre.push(objs@[i as int]);
                        if ids_of(q).contains(y) {
                            let j = choose|j: int| 0 <= j < q.len() && q[j].id == y;
                            if j < pre.len() {
                                assert(pre[j].id == y);
                            }
                        }
                        if p.contains(y) {
                            let j = choose|j: int| 0 <= j < pre.len() && pre[j].id == y;
                            assert(q[j].id == y);
                        }
                        if y == id {
                            assert(q[pre.len() as int].id == y);
                        }
                    }
                }
                lemma_claim_owners_step(old(owners)@, old(local)@, p, id);
            }
            index.insert_object(obj);
            let newly = local.insert(id);
            if newly {
                proof {
                    assert(!old(local)@.contains(id) && !p.contains(id));
                    assert(owners@.contains_key(id) ==> owners@[id] < usize::MAX) by {
                        if owners@.contains_key(id) {
                            assert(old(owners)@.contains_key(id));
                            assert(owners@[id] == old(owners)@[id]);
                        }
                    }
                }
                owners.increment(id);
                proof {
                    assert(owners@ == claim_owners(old(owners)@, old(local)@, p.insert(id)));
                }
            } else {
                proof {
                    assert(owners@ == claim_owners(old(owners)@, old(local)@, p.insert(id)));
                }
            }
            proof {
                assert(local@ =~= old(local)@ + p.insert(id));
                assert(owners@.dom() =~= index@.dom());
            }
            i += 1;
        }
        proof {
            assert(objs@.take(n as int) =~= objs@);
            assert forall|id: u64| #[trigger] final(local)@.contains(id) implies final(owners)@.contains_key(id) by {
                if old(local)@.contains(id) {
                    assert(old(owners)@.contains_key(id));
                }
            }
        }
    }

    /// A read-only view of the block index.
    pub fn read_blocks<'a>(&self, store: &'a Store) -> (r: &'a ObjectIndex)
        ensures
            *r == store.blocks,
    {
        &store.blocks
    }

    /// A read-only view of the operation index.
    pub fn read_operations<'a>(&self, store: &'a Store) -> (r: &'a ObjectIndex)
        ensures
            *r == store.operations,
    {
        &store.operations
    }

    /// A read-only view of the endorsement index.
    pub fn read_endorsements<'a>(&self, store: &'a Store) -> (r: &'a ObjectIndex)
        ensures
            *r == store.endorsements,
    {
        &store.endorsements
    }

    /// Internal helper: moves every id of `src` that is new to `dst` into
    /// `dst`; ids held by both stay in `src`.
    fn merge_sets(dst: &mut IdSet, src: &mut IdSet)
        requires
            old(dst).wf(),
            old(src).wf(),
        ensures
            final(dst).wf(),
            final(src).wf(),
            final(dst)@ == old(dst)@ + old(src)@,
            final(src)@ == old(src)@.intersect(old(dst)@),
    {
        let mut kept = IdSet::new();
        while src.len() > 0
            invariant
                src.wf(),
                dst.wf(),
                kept.wf(),
                old(dst).wf(),
                old(src).wf(),
                src@.subset_of(old(src)@),
                kept@ == (old(src)@ - src@).intersect(old(dst)@),
                dst@ == old(dst)@ + (old(src)@ - src@),
            decreases src.seq().len(),
        {
            let id = src.take_any();
            if dst.contains(id) {
                kept.insert(id);
            } else {
                dst.insert(id);
            }
            proof {
                assert(kept@ =~= (old(src)@ - src@).intersect(old(dst)@));
                assert(dst@ =~= old(dst)@ + (old(src)@ - src@));
            }
        }
        proof {
            assert(src@ =~= Set::<u64>::empty()) by {
                if exists|x: u64| src@.contains(x) {
                    let x = choose|x: u64| src@.contains(x);
                    assert(src.seq().contains(x));
                }
            }
            assert(old(src)@ - src@ =~= old(src)@);
        }
        *src = kept;
        proof {
            assert(final(dst)@ =~= old(dst)@ + old(src)@);
        }
    }

    /// Moves the references of `other` into this handle. Ids new to this
    /// handle are transferred with no owner count change; ids held by both
    /// stay in `other`, whose later release will account for the redundant
    /// count. Afterwards `other` holds exactly the overlap.
    pub fn extend(&mut self, other: &mut Storage)
        requires
            old(self).wf(),
            old(other).wf(),
        ensures
            final(self).wf(),
            final(other).wf(),
            final(self).local_used_blocks@ == old(self).local_used_blocks@ + old(other).local_used_blocks@,
            final(self).local_used_ops@ == old(self).local_used_ops@ + old(other).local_used_ops@,
            final(self).local_used_endorsements@ == old(self).local_used_endorsements@ + old(other).local_used_endorsements@,
            final(other).local_used_blocks@ == old(other).local_used_blocks@.intersect(
                old(self).local_used_blocks@,
            ),
            final(other).local_used_ops@ == old(other).local_used_ops@.intersect(
                old(self).local_used_ops@,
            ),
            final(other).local_used_endorsements@ == old(other).local_used_endorsements@.intersect(
                old(self).local_used_endorsements@,
            ),
    {
        Self::merge_sets(&mut self.local_used_ops, &mut other.local_used_ops);
        Self::merge_sets(&mut self.local_used_blocks, &mut other.local_used_blocks);
        Self::merge_sets(
            &mut self.local_used_endorsements,
            &mut other.local_used_endorsements,
        );
    }

    /// Internal helper: removes every id in `ids` from `src`.
    fn take_subset(src: &mut IdSet, ids: &IdSet)
        requires
            old(src).wf(),
            ids.wf(),
            ids@.subset_of(old(src)@),
        ensures
            final(src).wf(),
            final(src)@ == old(src)@ - ids@,
    {
        let n = ids.len();
        let mut i: usize = 0;
        while i < n
            invariant
                i <= n,
                n == ids.seq().len(),
                ids.wf(),
                src.wf(),
                old(src).wf(),
                src@ == old(src)@ - ids.seq().take(i as int).to_set(),
            decreases n - i,
        {
            let id = ids.get_at(i);
            proof {
                lemma_take_step(ids.seq(), i as int);
            }
            src.remove(id);
            proof {
                assert(src@ =~= old(src)@ - ids.seq().take(i as int + 1).to_set());
            }
            i += 1;
        }
        proof {
            lemma_take_full(ids.seq());
        }
    }

    /// Moves exactly the listed ids out of this handle's local sets into a
    /// fresh handle over the same store. No owner count changes: ownership is
    /// transferred, not duplicated. Every listed id must be held locally.
    pub fn split_off(&mut self, blocks: &IdSet, operations: &IdSet, endorsements: &IdSet) -> (r:
        Storage)
        requires
            old(self).wf(),
            blocks.wf(),
            operations.wf(),
            endorsements.wf(),
            blocks@.subset_of(old(self).local_used_blocks@),
            operations@.subset_of(old(self).local_used_ops@),
            endorsements@.subset_of(old(self).local_used_endorsements@),
        ensures
            final(self).wf(),
            r.wf(),
            r.local_used_blocks@ == blocks@,
            r.local_used_ops@ == operations@,
            r.local_used_endorsements@ == endorsements@,
            final(self).local_used_blocks@ == old(self).local_used_blocks@ - blocks@,
            final(self).local_used_ops@ == old(self).local_used_ops@ - operations@,
            final(self).local_used_endorsements@ == old(self).local_used_endorsements@
                - endorsements@,
    {
        let mut r = self.clone_without_refs();
        Self::take_subset(&mut self.local_used_blocks, blocks);
        Self::take_subset(&mut self.local_used_ops, operations);
        Self::take_subset(&mut self.local_used_endorsements, endorsements);
        r.local_used_blocks = blocks.clone();
        r.local_used_ops = operations.clone();
        r.local_used_endorsements = endorsements.clone();
        r
    }

    /// Releases every local reference this handle holds, in all categories:
    /// the handle's end of life. Each held id loses one owner count, and ids
    /// whose count reaches zero are evicted with their payloads.
    pub fn release(&mut self, store: &mut Store)
        requires
            old(self).valid_for(*old(store)),
        ensures
            final(self).local_used_blocks@ == Set::<u64>::empty(),
            final(self).local_used_ops@ == Set::<u64>::empty(),
            final(self).local_used_endorsements@ == Set::<u64>::empty(),
            final(store).block_owners@ == drop_owners(
                old(store).block_owners@,
                old(self).local_used_blocks@,
                old(self).local_used_blocks@,
            ),
            final(store).blocks@ == drop_index(
                old(store).blocks@,
                old(store).block_owners@,
                old(self).local_used_blocks@,
                old(self).local_used_blocks@,
            ),
            final(store).operation_owners@ == drop_owners(
                old(store).operation_owners@,
                old(self).local_used_ops@,
                old(self).local_used_ops@,
            ),
            final(store).operations@ == drop_index(
                old(store).operations@,
                old(store).operation_owners@,
                old(self).local_used_ops@,
                old(self).local_used_ops@,
            ),
            final(store).endorsement_owners@ == drop_owners(
                old(store).endorsement_owners@,
                old(self).local_used_endorsements@,
                old(self).local_used_endorsements@,
            ),
            final(store).endorsements@ == drop_index(
                old(store).endorsements@,
                old(store).endorsement_owners@,
                old(self).local_used_endorsements@,
                old(self).local_used_endorsements@,
            ),
            final(self).valid_for(*final(store)),
    {
        let ids = self.local_used_blocks.clone();
        self.drop_block_refs(store, &ids);
        let ids = self.local_used_ops.clone();
        self.drop_operation_refs(store, &ids);
        let ids = self.local_used_endorsements.clone();
        self.drop_endorsement_refs(store, &ids);
        proof {
            assert(final(self).local_used_blocks@ =~= Set::<u64>::empty());
            assert(final(self).local_used_ops@ =~= Set::<u64>::empty());
            assert(final(self).local_used_endorsements@ =~= Set::<u64>::empty());
        }
    }
}

} // verus!
