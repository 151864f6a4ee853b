//! Owner tables: one global map per object category from object id to the
//! number of live handles whose local set holds that id.
//!
//! Only positive counts are ever stored: an entry is removed atomically with
//! the decrement that would bring it to zero.

use vstd::prelude::*;
use std::collections::HashMap;
use crate::effects::{bump, shrink};

verus! {

broadcast use vstd::std_specs::hash::group_hash_axioms;

/// A reference-count table keyed by object id.
pub struct OwnerTable {
    counts: HashMap<u64, usize>,
}

impl View for OwnerTable {
    type V = Map<u64, nat>;

    closed spec fn view(&self) -> Map<u64, nat> {
        self.counts@.map_values(|c: usize| c as nat)
    }
}

impl OwnerTable {
    /// Well-formed: every recorded count is positive.
    pub open spec fn wf(&self) -> bool {
        forall|id: u64| #[trigger] self@.contains_key(id) ==> self@[id] >= 1
    }

    /// Every recorded count fits below the machine limit, so one more
    /// reference can always be counted.
    pub open spec fn room_for_one_more(&self) -> bool {
        forall|id: u64| #[trigger] self@.contains_key(id) ==> self@[id] < usize::MAX
    }

    /// An empty table.
    pub fn new() -> (r: OwnerTable)
        ensures
            r@ == Map::<u64, nat>::empty(),
            r.wf(),
    {
        let r = OwnerTable { counts: HashMap::new() };
        proof {
            assert(r@ =~= Map::<u64, nat>::empty());
        }
        r
    }

    /// Number of ids with a live count.
    pub fn len(&self) -> (n: usize)
        ensures
            n == self@.dom().len(),
    {
        proof {
            assert(self@.dom() =~= self.counts@.dom());
        }
        self.counts.len()
    }

    /// Whether an id has a live count.
    pub fn contains(&self, id: u64) -> (r: bool)
        ensures
            r == self@.contains_key(id),
    {
        self.counts.contains_key(&id)
    }

    /// The count of a live id.
    pub fn count_of(&self, id: u64) -> (c: usize)
        requires
            self@.contains_key(id),
        ensures
            c as nat == self@[id],
    {
        match self.counts.get(&id) {
            Some(c) => *c,
            None => {
                proof {
                    assert(false);
                }
                0
            },
        }
    }

    /// Counts one more reference to `id`, entering it at one if absent.
    pub fn increment(&mut self, id: u64)
        requires
            old(self).wf(),
            old(self)@.contains_key(id) ==> old(self)@[id] < usize::MAX,
        ensures
            final(self).wf(),
            final(self)@ == bump(old(self)@, id),
    {
        let existing: Option<usize> = match self.counts.get(&id) {
            Some(c) => Some(*c),
            None => None,
        };
        match existing {
            Some(c) => {
                self.counts.insert(id, c + 1);
            },
            None => {
                self.counts.insert(id, 1);
            },
        }
        proof {
            assert(self@ =~= bump(old(self)@, id));
        }
    }

    /// Counts one reference to `id` less, removing the entry when the count
    /// reaches zero; reports whether it did.
    pub fn decrement(&mut self, id: u64) -> (now_zero: bool)
        requires
            old(self).wf(),
            old(self)@.contains_key(id),
        ensures
            final(self).wf(),
            final(self)@ == shrink(old(self)@, id),
            now_zero == (old(self)@[id] == 1),
    {
        let c = self.count_of(id);
        if c == 1 {
            self.counts.remove(&id);
            proof {
                assert(self@ =~= old(self)@.remove(id));
            }
            true
        } else {
            self.counts.insert(id, c - 1);
            proof {
                assert(self@ =~= old(self)@.insert(id, (old(self)@[id] - 1) as nat));
            }
            false
        }
    }
}

} // verus!
