//! The global owner-consistency invariant and the laws of the handle
//! operations.
//!
//! For one category, the global state is an owner table (`Map<u64, nat>`) and
//! the local sets of all live handles (`Seq<Set<u64>>`). The invariant
//! [`owners_consistent`] states that an id has an owner entry exactly while
//! some handle holds it locally, and that the count equals the number of
//! holders. Each proof function here shows that one handle operation — in the
//! exact shape promised by its `ensures` clause in [`crate::storage`] —
//! preserves the invariant, or states a law that follows from those shapes.

use vstd::prelude::*;
use crate::effects::{claim_owners, drop_owners, drop_index};
use crate::object_index::StoredObject;
use crate::storage::Storage;
use crate::store::Store;

verus! {

/// Number of handles in `locals` whose local set holds `id`.
pub open spec fn count_holders(locals: Seq<Set<u64>>, id: u64) -> nat
    decreases locals.len(),
{
    if locals.len() == 0 {
        0
    } else {
        count_holders(locals.drop_last(), id) + (if locals.last().contains(id) {
            1nat
        } else {
            0nat
        })
    }
}

/// Owner consistency for one category: an id has an owner entry exactly while
/// some handle holds it locally, and the recorded count equals the number of
/// holders.
pub open spec fn owners_consistent(owners: Map<u64, nat>, locals: Seq<Set<u64>>) -> bool {
    &&& forall|id: u64| #[trigger] owners.contains_key(id) ==> owners[id] == count_holders(
        locals,
        id,
    )
    &&& forall|id: u64| (#[trigger] count_holders(locals, id)) > 0 ==> owners.contains_key(id)
}

/// Adding a handle adds its contribution to every count.
pub proof fn lemma_count_push(locals: Seq<Set<u64>>, s: Set<u64>, id: u64)
    ensures
        count_holders(locals.push(s), id) == count_holders(locals, id) + (if s.contains(id) {
            1nat
        } else {
            0nat
        }),
{
    assert(locals.push(s).drop_last() =~= locals);
    assert(locals.push(s).last() == s);
}

/// Replacing one handle's set changes each count by that handle's own
/// contribution change.
pub proof fn lemma_count_update(locals: Seq<Set<u64>>, j: int, s: Set<u64>, id: u64)
    requires
        0 <= j < locals.len(),
    ensures
        count_holders(locals.update(j, s), id) == count_holders(locals, id) - (if locals[
            j
        ].contains(id) {
            1int
        } else {
            0int
        }) + (if s.contains(id) {
            1int
        } else {
            0int
        }),
    decreases locals.len(),
{
    let u = locals.update(j, s);
    if j == locals.len() - 1 {
        assert(u.drop_last() =~= locals.drop_last());
        assert(u.last() == s);
    } else {
        assert(u.drop_last() =~= locals.drop_last().update(j, s));
        assert(u.last() == locals.last());
        lemma_count_update(locals.drop_last(), j, s, id);
        assert(locals.drop_last()[j] == locals[j]);
    }
}

/// A handle that holds an id makes its count positive.
pub proof fn lemma_holder_counts(locals: Seq<Set<u64>>, j: int, id: u64)
    requires
        0 <= j < locals.len(),
        locals[j].contains(id),
    ensures
        count_holders(locals, id) >= 1,
    decreases locals.len(),
{
    if j < locals.len() - 1 {
        assert(locals.drop_last()[j] == locals[j]);
        lemma_holder_counts(locals.drop_last(), j, id);
    }
}

/// Two distinct handles that both hold an id make its count at least two.
pub proof fn lemma_two_holders(locals: Seq<Set<u64>>, a: int, b: int, id: u64)
    requires
        0 <= a < locals.len(),
        0 <= b < locals.len(),
        a != b,
        locals[a].contains(id),
        locals[b].contains(id),
    ensures
        count_holders(locals, id) >= 2,
    decreases locals.len(),
{
    if a == locals.len() - 1 {
        assert(locals.drop_last()[b] == locals[b]);
        lemma_holder_counts(locals.drop_last(), b, id);
    } else if b == locals.len() - 1 {
        assert(locals.drop_last()[a] == locals[a]);
        lemma_holder_counts(locals.drop_last(), a, id);
    } else {
        assert(locals.drop_last()[a] == locals[a]);
        assert(locals.drop_last()[b] == locals[b]);
        lemma_two_holders(locals.drop_last(), a, b, id);
    }
}

/// A store with no handles and no counts is consistent.
pub proof fn lemma_empty_consistent()
    ensures
        owners_consistent(Map::<u64, nat>::empty(), Seq::<Set<u64>>::empty()),
{
}

/// A fresh handle with no references leaves every count correct: creating the
/// root handle or cloning without refs is owner-neutral.
pub proof fn lemma_new_handle_preserves_consistency(owners: Map<u64, nat>, locals: Seq<Set<u64>>)
    requires
        owners_consistent(owners, locals),
    ensures
        owners_consistent(owners, locals.push(Set::<u64>::empty())),
{
    let l2 = locals.push(Set::<u64>::empty());
    assert forall|id: u64| #[trigger] owners.contains_key(id) implies owners[id] == count_holders(
        l2,
        id,
    ) by {
        lemma_count_push(locals, Set::<u64>::empty(), id);
    }
    assert forall|id: u64| (#[trigger] count_holders(l2, id)) > 0 implies owners.contains_key(
        id,
    ) by {
        lemma_count_push(locals, Set::<u64>::empty(), id);
    }
}

/// Claiming preserves owner consistency: when handle `j` claims the ids in
/// `ids` — raising by one the count of each id it did not yet hold, entering
/// absent ids at one — the owner table again counts exactly the holders of
/// every id. This is the shape of `store_*`, `claim_*_refs` and
/// `internal_claim_refs`.
pub proof fn lemma_claim_preserves_consistency(
    owners: Map<u64, nat>,
    locals: Seq<Set<u64>>,
    j: int,
    ids: Set<u64>,
)
    requires
        owners_consistent(owners, locals),
        0 <= j < locals.len(),
    ensures
        owners_consistent(claim_owners(owners, locals[j], ids), locals.update(j, locals[j] + ids)),
{
    let o2 = claim_owners(owners, locals[j], ids);
    let l2 = locals.update(j, locals[j] + ids);
    assert forall|id: u64| #[trigger] o2.contains_key(id) implies o2[id] == count_holders(
        l2,
        id,
    ) by {
        lemma_count_update(locals, j, locals[j] + ids, id);
        if ids.contains(id) && !locals[j].contains(id) {
            if owners.contains_key(id) {
                assert(o2[id] == owners[id] + 1);
            } else {
                assert(count_holders(locals, id) == 0);
                assert(o2[id] == 1);
            }
        } else {
            if ids.contains(id) && locals[j].contains(id) {
                lemma_holder_counts(locals, j, id);
            }
            assert(owners.contains_key(id));
            assert(o2[id] == owners[id]);
        }
    }
    assert forall|id: u64| (#[trigger] count_holders(l2, id)) > 0 implies o2.contains_key(id) by {
        lemma_count_update(locals, j, locals[j] + ids, id);
        if count_holders(locals, id) > 0 {
            assert(owners.contains_key(id));
        } else {
            assert((locals[j] + ids).contains(id) && !locals[j].contains(id));
        }
    }
}

/// Dropping preserves owner consistency: when handle `j` releases the ids in
/// `ids` that it holds — lowering each such count by one and removing counts
/// that reach zero — the owner table again counts exactly the holders. This
/// is the shape of `drop_*_refs` and of `release`.
pub proof fn lemma_drop_preserves_consistency(
    owners: Map<u64, nat>,
    locals: Seq<Set<u64>>,
    j: int,
    ids: Set<u64>,
)
    requires
        owners_consistent(owners, locals),
        0 <= j < locals.len(),
    ensures
        owners_consistent(drop_owners(owners, locals[j], ids), locals.update(j, locals[j] - ids)),
{
    let o2 = drop_owners(owners, locals[j], ids);
    let l2 = locals.update(j, locals[j] - ids);
    assert forall|id: u64| #[trigger] o2.contains_key(id) implies o2[id] == count_holders(
        l2,
        id,
    ) by {
        lemma_count_update(locals, j, locals[j] - ids, id);
        if ids.contains(id) && locals[j].contains(id) {
            lemma_holder_counts(locals, j, id);
        }
    }
    assert forall|id: u64| (#[trigger] count_holders(l2, id)) > 0 implies o2.contains_key(id) by {
        lemma_count_update(locals, j, locals[j] - ids, id);
        assert(count_holders(locals, id) > 0);
        assert(owners.contains_key(id));
        if ids.contains(id) && locals[j].contains(id) {
            lemma_holder_counts(locals, j, id);
            if owners[id] == 1 {
                assert(count_holders(locals, id) == 1);
                assert(count_holders(l2, id) == 0);
            }
        }
    }
}

/// Moving references between two handles preserves consistency whenever each
/// id keeps the same total number of holders across the pair.
pub proof fn lemma_move_preserves_consistency(
    owners: Map<u64, nat>,
    locals: Seq<Set<u64>>,
    a: int,
    b: int,
    sa: Set<u64>,
    sb: Set<u64>,
)
    requires
        owners_consistent(owners, locals),
        0 <= a < locals.len(),
        0 <= b < locals.len(),
        a != b,
        forall|id: u64| (if #[trigger] sa.contains(id) {
            1int
        } else {
            0int
        }) + (if sb.contains(id) {
            1int
        } else {
            0int
        }) == (if locals[a].contains(id) {
            1int
        } else {
            0int
        }) + (if locals[b].contains(id) {
            1int
        } else {
            0int
        }),
    ensures
        owners_consistent(owners, locals.update(a, sa).update(b, sb)),
{
    let l1 = locals.update(a, sa);
    let l2 = l1.update(b, sb);
    assert forall|id: u64| count_holders(l2, id) == count_holders(locals, id) by {
        lemma_count_update(locals, a, sa, id);
        assert(l1[b] == locals[b]);
        lemma_count_update(l1, b, sb, id);
        assert(sa.contains(id) || !sa.contains(id));
    }
    assert forall|id: u64| #[trigger] owners.contains_key(id) implies owners[id] == count_holders(
        l2,
        id,
    ) by {
        assert(count_holders(l2, id) == count_holders(locals, id));
    }
    assert forall|id: u64| (#[trigger] count_holders(l2, id)) > 0 implies owners.contains_key(
        id,
    ) by {
        assert(count_holders(l2, id) == count_holders(locals, id));
    }
}

/// Extending handle `a` from handle `b` preserves consistency with no owner
/// count change: `a` ends with the union, `b` keeps exactly the overlap, and
/// every id keeps its total number of holders. This is the shape of `extend`.
pub proof fn lemma_extend_preserves_consistency(
    owners: Map<u64, nat>,
    locals: Seq<Set<u64>>,
    a: int,
    b: int,
)
    requires
        owners_consistent(owners, locals),
        0 <= a < locals.len(),
        0 <= b < locals.len(),
        a != b,
    ensures
        owners_consistent(
            owners,
            locals.update(a, locals[a] + locals[b]).update(
                b,
                locals[b].intersect(locals[a]),
            ),
        ),
{
    lemma_move_preserves_consistency(
        owners,
        locals,
        a,
        b,
        locals[a] + locals[b],
        locals[b].intersect(locals[a]),
    );
}

/// Splitting a subset of handle `j`'s references into a fresh handle
/// preserves consistency with no owner count change: the moved ids change
/// hands but keep one holder each. This is the shape of `split_off`.
pub proof fn lemma_split_preserves_consistency(
    owners: Map<u64, nat>,
    locals: Seq<Set<u64>>,
    j: int,
    s: Set<u64>,
)
    requires
        owners_consistent(owners, locals),
        0 <= j < locals.len(),
        s.subset_of(locals[j]),
    ensures
        owners_consistent(owners, locals.update(j, locals[j] - s).push(s)),
{
    let l1 = locals.update(j, locals[j] - s);
    let l2 = l1.push(s);
    assert forall|id: u64| count_holders(l2, id) == count_holders(locals, id) by {
        lemma_count_update(locals, j, locals[j] - s, id);
        lemma_count_push(l1, s, id);
    }
    assert forall|id: u64| #[trigger] owners.contains_key(id) implies owners[id] == count_holders(
        l2,
        id,
    ) by {
        assert(count_holders(l2, id) == count_holders(locals, id));
    }
    assert forall|id: u64| (#[trigger] count_holders(l2, id)) > 0 implies owners.contains_key(
        id,
    ) by {
        assert(count_holders(l2, id) == count_holders(locals, id));
    }
}

/// Cloning handle `j` preserves consistency: the copy holds the same ids and
/// each of them gains exactly one count. This is the shape of
/// `clone_with_refs`.
pub proof fn lemma_clone_preserves_consistency(
    owners: Map<u64, nat>,
    locals: Seq<Set<u64>>,
    j: int,
)
    requires
        owners_consistent(owners, locals),
        0 <= j < locals.len(),
    ensures
        owners_consistent(
            claim_owners(owners, Set::<u64>::empty(), locals[j]),
            locals.push(locals[j]),
        ),
{
    let o2 = claim_owners(owners, Set::<u64>::empty(), locals[j]);
    let l2 = locals.push(locals[j]);
    assert forall|id: u64| #[trigger] o2.contains_key(id) implies o2[id] == count_holders(
        l2,
        id,
    ) by {
        lemma_count_push(locals, locals[j], id);
        if locals[j].contains(id) {
            lemma_holder_counts(locals, j, id);
            assert(owners.contains_key(id));
            assert(o2[id] == owners[id] + 1);
        } else {
            assert(owners.contains_key(id));
            assert(o2[id] == owners[id]);
        }
    }
    assert forall|id: u64| (#[trigger] count_holders(l2, id)) > 0 implies o2.contains_key(id) by {
        lemma_count_push(locals, locals[j], id);
        if count_holders(locals, id) > 0 {
            assert(owners.contains_key(id));
        }
    }
}

/// Eviction: the drop that releases the last reference to a held id removes
/// both its owner entry and its stored payload.
pub proof fn lemma_eviction(
    owners: Map<u64, nat>,
    index: Map<u64, Seq<u8>>,
    local: Set<u64>,
    ids: Set<u64>,
    id: u64,
)
    requires
        local.contains(id),
        ids.contains(id),
        owners.contains_key(id),
        owners[id] == 1,
    ensures
        !drop_owners(owners, local, ids).contains_key(id),
        !drop_index(index, owners, local, ids).contains_key(id),
{
}

/// Liveness: while any handle holds `id`, a consistent owner table keeps a
/// positive count for it, and a store whose index covers the same ids keeps
/// the payload.
pub proof fn lemma_live_id_is_owned(
    owners: Map<u64, nat>,
    index: Map<u64, Seq<u8>>,
    locals: Seq<Set<u64>>,
    j: int,
    id: u64,
)
    requires
        owners_consistent(owners, locals),
        owners.dom() == index.dom(),
        0 <= j < locals.len(),
        locals[j].contains(id),
    ensures
        owners.contains_key(id),
        owners[id] >= 1,
        index.contains_key(id),
{
    lemma_holder_counts(locals, j, id);
}

/// Extend on an overlapped id, then release of the source: if two distinct
/// handles both hold `id`, after `a.extend(b)` the id stays with `a` while
/// `b` keeps it in its overlap set, and `b`'s release then lowers the owner
/// count by exactly one, leaving the id live.
pub proof fn lemma_extend_overlap_release(
    owners: Map<u64, nat>,
    locals: Seq<Set<u64>>,
    a: int,
    b: int,
    id: u64,
)
    requires
        owners_consistent(owners, locals),
        0 <= a < locals.len(),
        0 <= b < locals.len(),
        a != b,
        locals[a].contains(id),
        locals[b].contains(id),
    ensures
        (locals[a] + locals[b]).contains(id),
        locals[b].intersect(locals[a]).contains(id),
        drop_owners(
            owners,
            locals[b].intersect(locals[a]),
            locals[b].intersect(locals[a]),
        ).contains_key(id),
        drop_owners(
            owners,
            locals[b].intersect(locals[a]),
            locals[b].intersect(locals[a]),
        )[id] == owners[id] - 1,
        owners[id] >= 2,
{
    lemma_two_holders(locals, a, b, id);
}

/// Split-off round trip: extending back a handle split off from `a` restores
/// `a`'s local set exactly and leaves the temporary handle empty. Neither
/// operation touches any owner count or index entry, so the whole state is
/// restored.
pub proof fn lemma_split_extend_round_trip(a: Set<u64>, s: Set<u64>)
    requires
        s.subset_of(a),
    ensures
        (a - s) + s == a,
        s.intersect(a - s) == Set::<u64>::empty(),
{
    assert((a - s) + s =~= a);
    assert(s.intersect(a - s) =~= Set::<u64>::empty());
}

/// Store idempotence: storing the same payload twice leaves the same state as
/// storing it once — the second insert finds the id present, and the second
/// claim finds it already held locally.
pub proof fn lemma_store_idempotent(
    owners: Map<u64, nat>,
    local: Set<u64>,
    index: Map<u64, Seq<u8>>,
    o: StoredObject,
)
    ensures
        local.insert(o.id).insert(o.id) == local.insert(o.id),
        claim_owners(
            claim_owners(owners, local, Set::<u64>::empty().insert(o.id)),
            local.insert(o.id),
            Set::<u64>::empty().insert(o.id),
        ) == claim_owners(owners, local, Set::<u64>::empty().insert(o.id)),
        (if index.contains_key(o.id) {
            index
        } else {
            index.insert(o.id, o.bytes@)
        }).contains_key(o.id),
{
    assert(local.insert(o.id).insert(o.id) =~= local.insert(o.id));
    let s = Set::<u64>::empty().insert(o.id);
    let o1 = claim_owners(owners, local, s);
    assert(claim_owners(o1, local.insert(o.id), s) =~= o1);
}

/// Drop idempotence: dropping the same ids twice is as dropping them once —
/// after the first drop none of them is held locally, so the second changes
/// neither the local set, the owner table, nor the index.
pub proof fn lemma_drop_idempotent(
    owners: Map<u64, nat>,
    index: Map<u64, Seq<u8>>,
    local: Set<u64>,
    ids: Set<u64>,
)
    ensures
        (local - ids) - ids == local - ids,
        drop_owners(drop_owners(owners, local, ids), local - ids, ids) == drop_owners(
            owners,
            local,
            ids,
        ),
        drop_index(
            drop_index(index, owners, local, ids),
            drop_owners(owners, local, ids),
            local - ids,
            ids,
        ) == drop_index(index, owners, local, ids),
{
    assert((local - ids) - ids =~= local - ids);
    assert(drop_owners(drop_owners(owners, local, ids), local - ids, ids) =~= drop_owners(
        owners,
        local,
        ids,
    ));
    assert(drop_index(
        drop_index(index, owners, local, ids),
        drop_owners(owners, local, ids),
        local - ids,
        ids,
    ) =~= drop_index(index, owners, local, ids));
}


/// The block local sets of a group of handles, in order.
pub open spec fn blocks_locals(handles: Seq<Storage>) -> Seq<Set<u64>> {
    handles.map_values(|h: Storage| h.local_used_blocks@)
}

/// The operation local sets of a group of handles, in order.
pub open spec fn ops_locals(handles: Seq<Storage>) -> Seq<Set<u64>> {
    handles.map_values(|h: Storage| h.local_used_ops@)
}

/// The endorsement local sets of a group of handles, in order.
pub open spec fn endorsements_locals(handles: Seq<Storage>) -> Seq<Set<u64>> {
    handles.map_values(|h: Storage| h.local_used_endorsements@)
}

/// Store-wide owner consistency: in every category, every owner count equals
/// the number of live handles holding that id. Together with [`Store::wf`] —
/// which every handle operation preserves and which ties each owner table's
/// key set to its index's key set and keeps all counts positive — this is the
/// global invariant of the store.
pub open spec fn store_consistent(store: Store, handles: Seq<Storage>) -> bool {
    &&& owners_consistent(store.block_owners@, blocks_locals(handles))
    &&& owners_consistent(store.operation_owners@, ops_locals(handles))
    &&& owners_consistent(store.endorsement_owners@, endorsements_locals(handles))
}

/// The root handle over the empty tables is consistent: no counts, no holders.
pub proof fn lemma_root_consistent(store: Store, handle: Storage)
    requires
        store.block_owners@ == Map::<u64, nat>::empty(),
        store.operation_owners@ == Map::<u64, nat>::empty(),
        store.endorsement_owners@ == Map::<u64, nat>::empty(),
        handle.local_used_blocks@ == Set::<u64>::empty(),
        handle.local_used_ops@ == Set::<u64>::empty(),
        handle.local_used_endorsements@ == Set::<u64>::empty(),
    ensures
        store_consistent(store, Seq::<Storage>::empty().push(handle)),
{
    let hs = Seq::<Storage>::empty().push(handle);
    assert(blocks_locals(hs) =~= Seq::<Set<u64>>::empty().push(Set::<u64>::empty()));
    assert(ops_locals(hs) =~= Seq::<Set<u64>>::empty().push(Set::<u64>::empty()));
    assert(endorsements_locals(hs) =~= Seq::<Set<u64>>::empty().push(Set::<u64>::empty()));
    lemma_empty_consistent();
    lemma_new_handle_preserves_consistency(Map::<u64, nat>::empty(), Seq::<Set<u64>>::empty());
}

/// Claiming block ids at handle `j` — the shape of `store_block` and
/// `claim_block_refs` — preserves store-wide owner consistency.
pub proof fn lemma_claim_blocks_consistent(
    s: Store,
    s2: Store,
    hs: Seq<Storage>,
    h2: Storage,
    j: int,
    ids: Set<u64>,
)
    requires
        store_consistent(s, hs),
        0 <= j < hs.len(),
        s2.block_owners@ == claim_owners(s.block_owners@, hs[j].local_used_blocks@, ids),
        h2.local_used_blocks@ == hs[j].local_used_blocks@ + ids,
        s2.operation_owners == s.operation_owners,
        s2.endorsement_owners == s.endorsement_owners,
        h2.local_used_ops@ == hs[j].local_used_ops@,
        h2.local_used_endorsements@ == hs[j].local_used_endorsements@,
    ensures
        store_consistent(s2, hs.update(j, h2)),
{
    let hs2 = hs.update(j, h2);
    assert(blocks_locals(hs2) =~= blocks_locals(hs).update(j, h2.local_used_blocks@));
    assert(blocks_locals(hs)[j] == hs[j].local_used_blocks@);
    lemma_claim_preserves_consistency(s.block_owners@, blocks_locals(hs), j, ids);
    assert(ops_locals(hs2) =~= ops_locals(hs));
    assert(endorsements_locals(hs2) =~= endorsements_locals(hs));
}


/// Claiming operation ids at handle `j` — the shape of `store_operations` and
/// `claim_operation_refs` — preserves store-wide owner consistency.
pub proof fn lemma_claim_ops_consistent(
    s: Store,
    s2: Store,
    hs: Seq<Storage>,
    h2: Storage,
    j: int,
    ids: Set<u64>,
)
    requires
        store_consistent(s, hs),
        0 <= j < hs.len(),
        s2.operation_owners@ == claim_owners(s.operation_owners@, hs[j].local_used_ops@, ids),
        h2.local_used_ops@ == hs[j].local_used_ops@ + ids,
        s2.block_owners == s.block_owners,
        s2.endorsement_owners == s.endorsement_owners,
        h2.local_used_blocks@ == hs[j].local_used_blocks@,
        h2.local_used_endorsements@ == hs[j].local_used_endorsements@,
    ensures
        store_consistent(s2, hs.update(j, h2)),
{
    let hs2 = hs.update(j, h2);
    assert(ops_locals(hs2) =~= ops_locals(hs).update(j, h2.local_used_ops@));
    assert(ops_locals(hs)[j] == hs[j].local_used_ops@);
    lemma_claim_preserves_consistency(s.operation_owners@, ops_locals(hs), j, ids);
    assert(blocks_locals(hs2) =~= blocks_locals(hs));
    assert(endorsements_locals(hs2) =~= endorsements_locals(hs));
}

/// Claiming endorsement ids at handle `j` — the shape of `store_endorsements`
/// and `claim_endorsement_refs` — preserves store-wide owner consistency.
pub proof fn lemma_claim_endorsements_consistent(
    s: Store,
    s2: Store,
    hs: Seq<Storage>,
    h2: Storage,
    j: int,
    ids: Set<u64>,
)
    requires
        store_consistent(s, hs),
        0 <= j < hs.len(),
        s2.endorsement_owners@ == claim_owners(
            s.endorsement_owners@,
            hs[j].local_used_endorsements@,
            ids,
        ),
        h2.local_used_endorsements@ == hs[j].local_used_endorsements@ + ids,
        s2.block_owners == s.block_owners,
        s2.operation_owners == s.operation_owners,
        h2.local_used_blocks@ == hs[j].local_used_blocks@,
        h2.local_used_ops@ == hs[j].local_used_ops@,
    ensures
        store_consistent(s2, hs.update(j, h2)),
{
    let hs2 = hs.update(j, h2);
    assert(endorsements_locals(hs2) =~= endorsements_locals(hs).update(
        j,
        h2.local_used_endorsements@,
    ));
    assert(endorsements_locals(hs)[j] == hs[j].local_used_endorsements@);
    lemma_claim_preserves_consistency(s.endorsement_owners@, endorsements_locals(hs), j, ids);
    assert(blocks_locals(hs2) =~= blocks_locals(hs));
    assert(ops_locals(hs2) =~= ops_locals(hs));
}

/// Dropping block ids at handle `j` — the shape of `drop_block_refs` —
/// preserves store-wide owner consistency.
pub proof fn lemma_drop_blocks_consistent(
    s: Store,
    s2: Store,
    hs: Seq<Storage>,
    h2: Storage,
    j: int,
    ids: Set<u64>,
)
    requires
        store_consistent(s, hs),
        0 <= j < hs.len(),
        s2.block_owners@ == drop_owners(s.block_owners@, hs[j].local_used_blocks@, ids),
        h2.local_used_blocks@ == hs[j].local_used_blocks@ - ids,
        s2.operation_owners == s.operation_owners,
        s2.endorsement_owners == s.endorsement_owners,
        h2.local_used_ops@ == hs[j].local_used_ops@,
        h2.local_used_endorsements@ == hs[j].local_used_endorsements@,
    ensures
        store_consistent(s2, hs.update(j, h2)),
{
    let hs2 = hs.update(j, h2);
    assert(blocks_locals(hs2) =~= blocks_locals(hs).update(j, h2.local_used_blocks@));
    assert(blocks_locals(hs)[j] == hs[j].local_used_blocks@);
    lemma_drop_preserves_consistency(s.block_owners@, blocks_locals(hs), j, ids);
    assert(ops_locals(hs2) =~= ops_locals(hs));
    assert(endorsements_locals(hs2) =~= endorsements_locals(hs));
}

/// Dropping operation ids at handle `j` — the shape of `drop_operation_refs`
/// — preserves store-wide owner consistency.
pub proof fn lemma_drop_ops_consistent(
    s: Store,
    s2: Store,
    hs: Seq<Storage>,
    h2: Storage,
    j: int,
    ids: Set<u64>,
)
    requires
        store_consistent(s, hs),
        0 <= j < hs.len(),
        s2.operation_owners@ == drop_owners(s.operation_owners@, hs[j].local_used_ops@, ids),
        h2.local_used_ops@ == hs[j].local_used_ops@ - ids,
        s2.block_owners == s.block_owners,
        s2.endorsement_owners == s.endorsement_owners,
        h2.local_used_blocks@ == hs[j].local_used_blocks@,
        h2.local_used_endorsements@ == hs[j].local_used_endorsements@,
    ensures
        store_consistent(s2, hs.update(j, h2)),
{
    let hs2 = hs.update(j, h2);
    assert(ops_locals(hs2) =~= ops_locals(hs).update(j, h2.local_used_ops@));
    assert(ops_locals(hs)[j] == hs[j].local_used_ops@);
    lemma_drop_preserves_consistency(s.operation_owners@, ops_locals(hs), j, ids);
    assert(blocks_locals(hs2) =~= blocks_locals(hs));
    assert(endorsements_locals(hs2) =~= endorsements_locals(hs));
}

/// Dropping endorsement ids at handle `j` — the shape of
/// `drop_endorsement_refs` — preserves store-wide owner consistency.
pub proof fn lemma_drop_endorsements_consistent(
    s: Store,
    s2: Store,
    hs: Seq<Storage>,
    h2: Storage,
    j: int,
    ids: Set<u64>,
)
    requires
        store_consistent(s, hs),
        0 <= j < hs.len(),
        s2.endorsement_owners@ == drop_owners(
            s.endorsement_owners@,
            hs[j].local_used_endorsements@,
            ids,
        ),
        h2.local_used_endorsements@ == hs[j].local_used_endorsements@ - ids,
        s2.block_owners == s.block_owners,
        s2.operation_owners == s.operation_owners,
        h2.local_used_blocks@ == hs[j].local_used_blocks@,
        h2.local_used_ops@ == hs[j].local_used_ops@,
    ensures
        store_consistent(s2, hs.update(j, h2)),
{
    let hs2 = hs.update(j, h2);
    assert(endorsements_locals(hs2) =~= endorsements_locals(hs).update(
        j,
        h2.local_used_endorsements@,
    ));
    assert(endorsements_locals(hs)[j] == hs[j].local_used_endorsements@);
    lemma_drop_preserves_consistency(s.endorsement_owners@, endorsements_locals(hs), j, ids);
    assert(blocks_locals(hs2) =~= blocks_locals(hs));
    assert(ops_locals(hs2) =~= ops_locals(hs));
}

/// A new empty handle — the shape of `clone_without_refs` — preserves
/// store-wide owner consistency with no owner count change.
pub proof fn lemma_new_handle_consistent(s: Store, hs: Seq<Storage>, r: Storage)
    requires
        store_consistent(s, hs),
        r.local_used_blocks@ == Set::<u64>::empty(),
        r.local_used_ops@ == Set::<u64>::empty(),
        r.local_used_endorsements@ == Set::<u64>::empty(),
    ensures
        store_consistent(s, hs.push(r)),
{
    let hs2 = hs.push(r);
    assert(blocks_locals(hs2) =~= blocks_locals(hs).push(Set::<u64>::empty()));
    assert(ops_locals(hs2) =~= ops_locals(hs).push(Set::<u64>::empty()));
    assert(endorsements_locals(hs2) =~= endorsements_locals(hs).push(Set::<u64>::empty()));
    lemma_new_handle_preserves_consistency(s.block_owners@, blocks_locals(hs));
    lemma_new_handle_preserves_consistency(s.operation_owners@, ops_locals(hs));
    lemma_new_handle_preserves_consistency(s.endorsement_owners@, endorsements_locals(hs));
}

/// Cloning handle `j` with its references — the shape of `clone_with_refs` —
/// preserves store-wide owner consistency: the copy holds the same ids, each
/// gaining exactly one count.
pub proof fn lemma_clone_consistent(s: Store, s2: Store, hs: Seq<Storage>, r: Storage, j: int)
    requires
        store_consistent(s, hs),
        0 <= j < hs.len(),
        s2.block_owners@ == claim_owners(
            s.block_owners@,
            Set::<u64>::empty(),
            hs[j].local_used_blocks@,
        ),
        s2.operation_owners@ == claim_owners(
            s.operation_owners@,
            Set::<u64>::empty(),
            hs[j].local_used_ops@,
        ),
        s2.endorsement_owners@ == claim_owners(
            s.endorsement_owners@,
            Set::<u64>::empty(),
            hs[j].local_used_endorsements@,
        ),
        r.local_used_blocks@ == hs[j].local_used_blocks@,
        r.local_used_ops@ == hs[j].local_used_ops@,
        r.local_used_endorsements@ == hs[j].local_used_endorsements@,
    ensures
        store_consistent(s2, hs.push(r)),
{
    let hs2 = hs.push(r);
    assert(blocks_locals(hs2) =~= blocks_locals(hs).push(hs[j].local_used_blocks@));
    assert(ops_locals(hs2) =~= ops_locals(hs).push(hs[j].local_used_ops@));
    assert(endorsements_locals(hs2) =~= endorsements_locals(hs).push(
        hs[j].local_used_endorsements@,
    ));
    assert(blocks_locals(hs)[j] == hs[j].local_used_blocks@);
    assert(ops_locals(hs)[j] == hs[j].local_used_ops@);
    assert(endorsements_locals(hs)[j] == hs[j].local_used_endorsements@);
    lemma_clone_preserves_consistency(s.block_owners@, blocks_locals(hs), j);
    lemma_clone_preserves_consistency(s.operation_owners@, ops_locals(hs), j);
    lemma_clone_preserves_consistency(s.endorsement_owners@, endorsements_locals(hs), j);
}

/// Extending handle `a` from handle `b` — the shape of `extend` — preserves
/// store-wide owner consistency with no owner count change.
pub proof fn lemma_extend_consistent(
    s: Store,
    hs: Seq<Storage>,
    a2: Storage,
    b2: Storage,
    a: int,
    b: int,
)
    requires
        store_consistent(s, hs),
        0 <= a < hs.len(),
        0 <= b < hs.len(),
        a != b,
        a2.local_used_blocks@ == hs[a].local_used_blocks@ + hs[b].local_used_blocks@,
        a2.local_used_ops@ == hs[a].local_used_ops@ + hs[b].local_used_ops@,
        a2.local_used_endorsements@ == hs[a].local_used_endorsements@ + hs[
            b
        ].local_used_endorsements@,
        b2.local_used_blocks@ == hs[b].local_used_blocks@.intersect(hs[a].local_used_blocks@),
        b2.local_used_ops@ == hs[b].local_used_ops@.intersect(hs[a].local_used_ops@),
        b2.local_used_endorsements@ == hs[b].local_used_endorsements@.intersect(
            hs[a].local_used_endorsements@,
        ),
    ensures
        store_consistent(s, hs.update(a, a2).update(b, b2)),
{
    let hs2 = hs.update(a, a2).update(b, b2);
    assert(blocks_locals(hs2) =~= blocks_locals(hs).update(a, a2.local_used_blocks@).update(
        b,
        b2.local_used_blocks@,
    ));
    assert(ops_locals(hs2) =~= ops_locals(hs).update(a, a2.local_used_ops@).update(
        b,
        b2.local_used_ops@,
    ));
    assert(endorsements_locals(hs2) =~= endorsements_locals(hs).update(
        a,
        a2.local_used_endorsements@,
    ).update(b, b2.local_used_endorsements@));
    assert(blocks_locals(hs)[a] == hs[a].local_used_blocks@);
    assert(blocks_locals(hs)[b] == hs[b].local_used_blocks@);
    assert(ops_locals(hs)[a] == hs[a].local_used_ops@);
    assert(ops_locals(hs)[b] == hs[b].local_used_ops@);
    assert(endorsements_locals(hs)[a] == hs[a].local_used_endorsements@);
    assert(endorsements_locals(hs)[b] == hs[b].local_used_endorsements@);
    lemma_extend_preserves_consistency(s.block_owners@, blocks_locals(hs), a, b);
    lemma_extend_preserves_consistency(s.operation_owners@, ops_locals(hs), a, b);
    lemma_extend_preserves_consistency(s.endorsement_owners@, endorsements_locals(hs), a, b);
}

/// Splitting listed ids off handle `j` into a fresh handle — the shape of
/// `split_off` — preserves store-wide owner consistency with no owner count
/// change.
pub proof fn lemma_split_consistent(
    s: Store,
    hs: Seq<Storage>,
    h2: Storage,
    r: Storage,
    j: int,
    blocks: Set<u64>,
    operations: Set<u64>,
    endorsements: Set<u64>,
)
    requires
        store_consistent(s, hs),
        0 <= j < hs.len(),
        blocks.subset_of(hs[j].local_used_blocks@),
        operations.subset_of(hs[j].local_used_ops@),
        endorsements.subset_of(hs[j].local_used_endorsements@),
        h2.local_used_blocks@ == hs[j].local_used_blocks@ - blocks,
        h2.local_used_ops@ == hs[j].local_used_ops@ - operations,
        h2.local_used_endorsements@ == hs[j].local_used_endorsements@ - endorsements,
        r.local_used_blocks@ == blocks,
        r.local_used_ops@ == operations,
        r.local_used_endorsements@ == endorsements,
    ensures
        store_consistent(s, hs.update(j, h2).push(r)),
{
    let hs2 = hs.update(j, h2).push(r);
    assert(blocks_locals(hs2) =~= blocks_locals(hs).update(j, h2.local_used_blocks@).push(blocks));
    assert(ops_locals(hs2) =~= ops_locals(hs).update(j, h2.local_used_ops@).push(operations));
    assert(endorsements_locals(hs2) =~= endorsements_locals(hs).update(
        j,
        h2.local_used_endorsements@,
    ).push(endorsements));
    assert(blocks_locals(hs)[j] == hs[j].local_used_blocks@);
    assert(ops_locals(hs)[j] == hs[j].local_used_ops@);
    assert(endorsements_locals(hs)[j] == hs[j].local_used_endorsements@);
    lemma_split_preserves_consistency(s.block_owners@, blocks_locals(hs), j, blocks);
    lemma_split_preserves_consistency(s.operation_owners@, ops_locals(hs), j, operations);
    lemma_split_preserves_consistency(s.endorsement_owners@, endorsements_locals(hs), j, endorsements);
}

/// Releasing every reference of handle `j` — the shape of `release` and of a
/// handle's end of life — preserves store-wide owner consistency.
pub proof fn lemma_release_consistent(s: Store, s2: Store, hs: Seq<Storage>, h2: Storage, j: int)
    requires
        store_consistent(s, hs),
        0 <= j < hs.len(),
        s2.block_owners@ == drop_owners(
            s.block_owners@,
            hs[j].local_used_blocks@,
            hs[j].local_used_blocks@,
        ),
        s2.operation_owners@ == drop_owners(
            s.operation_owners@,
            hs[j].local_used_ops@,
            hs[j].local_used_ops@,
        ),
        s2.endorsement_owners@ == drop_owners(
            s.endorsement_owners@,
            hs[j].local_used_endorsements@,
            hs[j].local_used_endorsements@,
        ),
        h2.local_used_blocks@ == Set::<u64>::empty(),
        h2.local_used_ops@ == Set::<u64>::empty(),
        h2.local_used_endorsements@ == Set::<u64>::empty(),
    ensures
        store_consistent(s2, hs.update(j, h2)),
{
    let hs2 = hs.update(j, h2);
    assert(h2.local_used_blocks@ =~= hs[j].local_used_blocks@ - hs[j].local_used_blocks@);
    assert(h2.local_used_ops@ =~= hs[j].local_used_ops@ - hs[j].local_used_ops@);
    assert(h2.local_used_endorsements@ =~= hs[j].local_used_endorsements@ - hs[
        j
    ].local_used_endorsements@);
    assert(blocks_locals(hs2) =~= blocks_locals(hs).update(j, h2.local_used_blocks@));
    assert(ops_locals(hs2) =~= ops_locals(hs).update(j, h2.local_used_ops@));
    assert(endorsements_locals(hs2) =~= endorsements_locals(hs).update(
        j,
        h2.local_used_endorsements@,
    ));
    assert(blocks_locals(hs)[j] == hs[j].local_used_blocks@);
    assert(ops_locals(hs)[j] == hs[j].local_used_ops@);
    assert(endorsements_locals(hs)[j] == hs[j].local_used_endorsements@);
    lemma_drop_preserves_consistency(
        s.block_owners@,
        blocks_locals(hs),
        j,
        hs[j].local_used_blocks@,
    );
    lemma_drop_preserves_consistency(s.operation_owners@, ops_locals(hs), j, hs[j].local_used_ops@);
    lemma_drop_preserves_consistency(
        s.endorsement_owners@,
        endorsements_locals(hs),
        j,
        hs[j].local_used_endorsements@,
    );
}


/// With no holder anywhere, every count is zero.
pub proof fn lemma_count_empty_locals(locals: Seq<Set<u64>>, id: u64)
    requires
        forall|k: int| 0 <= k < locals.len() ==> (#[trigger] locals[k]).is_empty(),
    ensures
        count_holders(locals, id) == 0,
    decreases locals.len(),
{
    if locals.len() > 0 {
        assert(locals[locals.len() - 1].is_empty());
        assert(forall|k: int| 0 <= k < locals.drop_last().len() ==> #[trigger] locals.drop_last()[k]
            == locals[k]);
        lemma_count_empty_locals(locals.drop_last(), id);
    }
}

/// Quiescence: when no live handle holds any reference, a consistent owner
/// table with positive counts is empty — and with it, in a well-formed store,
/// the index of that category.
pub proof fn lemma_quiescent_owners_empty(owners: Map<u64, nat>, locals: Seq<Set<u64>>)
    requires
        owners_consistent(owners, locals),
        forall|id: u64| #[trigger] owners.contains_key(id) ==> owners[id] >= 1,
        forall|k: int| 0 <= k < locals.len() ==> (#[trigger] locals[k]).is_empty(),
    ensures
        owners == Map::<u64, nat>::empty(),
{
    assert forall|id: u64| !(#[trigger] owners.contains_key(id)) by {
        lemma_count_empty_locals(locals, id);
    }
    assert(owners =~= Map::<u64, nat>::empty());
}

} // verus!