//! The effects of the handle operations on the abstract state, as functions
//! over the mathematical views: owner counts as `Map<u64, nat>`, local
//! reference sets as `Set<u64>`, index contents as `Map<u64, Seq<u8>>`.
//!
//! The executable operations promise these functions exactly in their
//! `ensures` clauses, and the laws in [`crate::consistency`] are proved over
//! them.

use vstd::prelude::*;
use crate::object_index::StoredObject;

verus! {

/// Owner counts after one more reference to `id` is counted: the count rises
/// by one, entering at one if the id was absent.
pub open spec fn bump(owners: Map<u64, nat>, id: u64) -> Map<u64, nat> {
    if owners.contains_key(id) {
        owners.insert(id, (owners[id] + 1) as nat)
    } else {
        owners.insert(id, 1nat)
    }
}

/// Owner counts after one reference to a live `id` is released: the count
/// drops by one, and the entry disappears when it reaches zero.
pub open spec fn shrink(owners: Map<u64, nat>, id: u64) -> Map<u64, nat> {
    if owners[id] == 1 {
        owners.remove(id)
    } else {
        owners.insert(id, (owners[id] - 1) as nat)
    }
}

/// Owner counts after a handle with local set `local` claims every id in
/// `ids`: each id not yet locally held gains one count; ids already locally
/// held are untouched.
pub open spec fn claim_owners(owners: Map<u64, nat>, local: Set<u64>, ids: Set<u64>) -> Map<
    u64,
    nat,
> {
    Map::new(
        |k: u64| owners.contains_key(k) || ids.contains(k),
        |k: u64|
            if ids.contains(k) && !local.contains(k) {
                if owners.contains_key(k) {
                    (owners[k] + 1) as nat
                } else {
                    1nat
                }
            } else {
                owners[k]
            },
    )
}

/// Owner counts after a handle with local set `local` drops every id in
/// `ids`: each id actually held locally loses one count, and entries whose
/// count reaches zero disappear; ids not held locally are skipped.
pub open spec fn drop_owners(owners: Map<u64, nat>, local: Set<u64>, ids: Set<u64>) -> Map<
    u64,
    nat,
> {
    Map::new(
        |k: u64| owners.contains_key(k) && !(ids.contains(k) && local.contains(k) && owners[k]
            == 1),
        |k: u64|
            if ids.contains(k) && local.contains(k) {
                (owners[k] - 1) as nat
            } else {
                owners[k]
            },
    )
}

/// Index contents after the same drop: exactly the ids whose owner count
/// reached zero are evicted.
pub open spec fn drop_index(
    index: Map<u64, Seq<u8>>,
    owners: Map<u64, nat>,
    local: Set<u64>,
    ids: Set<u64>,
) -> Map<u64, Seq<u8>> {
    Map::new(
        |k: u64| index.contains_key(k) && !(ids.contains(k) && local.contains(k)
            && owners.contains_key(k) && owners[k] == 1),
        |k: u64| index[k],
    )
}

/// The set of ids carried by a batch of payloads.
pub open spec fn ids_of(objs: Seq<StoredObject>) -> Set<u64> {
    Set::new(|id: u64| exists|i: int| 0 <= i < objs.len() && objs[i].id == id)
}

/// Index contents after a batch of payloads is stored: each payload is
/// inserted under its id unless that id is already present.
pub open spec fn insert_new(index: Map<u64, Seq<u8>>, objs: Seq<StoredObject>) -> Map<
    u64,
    Seq<u8>,
>
    decreases objs.len(),
{
    if objs.len() == 0 {
        index
    } else {
        let prev = insert_new(index, objs.drop_last());
        let o = objs.last();
        if prev.contains_key(o.id) {
            prev
        } else {
            prev.insert(o.id, o.bytes@)
        }
    }
}

/// How claiming grows one id at a time: claiming `ids.insert(x)` is claiming
/// `ids` followed by one more count for `x` when `x` is new to both the
/// claimed set and the local set, and nothing more otherwise.
pub proof fn lemma_claim_owners_step(owners: Map<u64, nat>, local: Set<u64>, ids: Set<u64>, x: u64)
    requires
        local.contains(x) ==> owners.contains_key(x),
    ensures
        ids.contains(x) ==> claim_owners(owners, local, ids.insert(x)) == claim_owners(
            owners,
            local,
            ids,
        ),
        !ids.contains(x) && local.contains(x) ==> claim_owners(owners, local, ids.insert(x))
            == claim_owners(owners, local, ids),
        !ids.contains(x) && !local.contains(x) ==> claim_owners(owners, local, ids.insert(x))
            == bump(claim_owners(owners, local, ids), x),
{
    if ids.contains(x) {
        assert(ids.insert(x) =~= ids);
    } else if local.contains(x) {
        assert(claim_owners(owners, local, ids.insert(x)) =~= claim_owners(owners, local, ids));
    } else {
        assert(claim_owners(owners, local, ids.insert(x)) =~= bump(
            claim_owners(owners, local, ids),
            x,
        ));
    }
}

/// How dropping shrinks one id at a time: dropping `ids.insert(x)` is
/// dropping `ids` followed by the release of one count for `x` when `x` is
/// still held locally, and nothing more otherwise.
pub proof fn lemma_drop_step(
    owners: Map<u64, nat>,
    local: Set<u64>,
    index: Map<u64, Seq<u8>>,
    ids: Set<u64>,
    x: u64,
)
    requires
        !ids.contains(x),
        local.contains(x) ==> owners.contains_key(x) && owners[x] >= 1,
    ensures
        local.contains(x) ==> drop_owners(owners, local, ids.insert(x)) == shrink(
            drop_owners(owners, local, ids),
            x,
        ),
        local.contains(x) && owners[x] == 1 ==> drop_index(index, owners, local, ids.insert(x))
            == drop_index(index, owners, local, ids).remove(x),
        local.contains(x) && owners[x] != 1 ==> drop_index(index, owners, local, ids.insert(x))
            == drop_index(index, owners, local, ids),
        !local.contains(x) ==> drop_owners(owners, local, ids.insert(x)) == drop_owners(
            owners,
            local,
            ids,
        ) && drop_index(index, owners, local, ids.insert(x)) == drop_index(
            index,
            owners,
            local,
            ids,
        ),
{
    if local.contains(x) {
        assert(drop_owners(owners, local, ids)[x] == owners[x]);
        assert(drop_owners(owners, local, ids.insert(x)) =~= shrink(
            drop_owners(owners, local, ids),
            x,
        ));
        if owners[x] == 1 {
            assert(drop_index(index, owners, local, ids.insert(x)) =~= drop_index(
                index,
                owners,
                local,
                ids,
            ).remove(x));
        } else {
            assert(drop_index(index, owners, local, ids.insert(x)) =~= drop_index(
                index,
                owners,
                local,
                ids,
            ));
        }
    } else {
        assert(drop_owners(owners, local, ids.insert(x)) =~= drop_owners(owners, local, ids));
        assert(drop_index(index, owners, local, ids.insert(x)) =~= drop_index(
            index,
            owners,
            local,
            ids,
        ));
    }
}

} // verus!
