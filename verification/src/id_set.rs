//! Local reference sets: finite sets of object ids.
//!
//! Each storage handle owns one `IdSet` per object category. The set is backed
//! by a duplicate-free vector, which keeps membership queries simple and lets
//! callers walk the elements by position while reasoning about the abstract
//! `Set<u64>` view.

use vstd::prelude::*;

verus! {

/// A finite set of object ids, backed by a duplicate-free vector.
pub struct IdSet {
    items: Vec<u64>,
}

impl View for IdSet {
    type V = Set<u64>;

    open spec fn view(&self) -> Set<u64> {
        self.seq().to_set()
    }
}

impl IdSet {
    /// The ids in their storage order.
    pub closed spec fn seq(&self) -> Seq<u64> {
        self.items@
    }

    /// Well-formed: no id occurs twice.
    pub open spec fn wf(&self) -> bool {
        self.seq().no_duplicates()
    }

    /// The empty set.
    pub fn new() -> (r: IdSet)
        ensures
            r@ == Set::<u64>::empty(),
            r.seq() == Seq::<u64>::empty(),
            r.wf(),
    {
        let r = IdSet { items: Vec::new() };
        proof {
            assert(r@ =~= Set::<u64>::empty());
        }
        r
    }

    /// Number of ids in the set.
    pub fn len(&self) -> (n: usize)
        ensures
            n == self.seq().len(),
            self.wf() ==> n == self@.len(),
    {
        proof {
            if self.wf() {
                self.seq().unique_seq_to_set();
            }
        }
        self.items.len()
    }

    /// The id at a given position, for walking the set.
    pub fn get_at(&self, i: usize) -> (id: u64)
        requires
            i < self.seq().len(),
        ensures
            id == self.seq()[i as int],
            self@.contains(id),
    {
        self.items[i]
    }

    /// Membership test.
    pub fn contains(&self, id: u64) -> (r: bool)
        ensures
            r == self@.contains(id),
    {
        let n = self.items.len();
        let mut i: usize = 0;
        while i < n
            invariant
                n == self.seq().len(),
                i <= n,
                forall|j: int| 0 <= j < i ==> self.seq()[j] != id,
            decreases n - i,
        {
            if self.items[i] == id {
                proof {
                    assert(self.seq().contains(id));
                }
                return true;
            }
            i += 1;
        }
        proof {
            assert(!self.seq().contains(id));
        }
        false
    }

    /// Adds an id; reports whether it was newly added.
    pub fn insert(&mut self, id: u64) -> (newly: bool)
        requires
            old(self).wf(),
        ensures
            final(self).wf(),
            final(self)@ == old(self)@.insert(id),
            newly == !old(self)@.contains(id),
            newly ==> final(self).seq() == old(self).seq().push(id),
            !newly ==> final(self).seq() == old(self).seq(),
    {
        if self.contains(id) {
            proof {
                assert(self@ =~= old(self)@.insert(id));
            }
            false
        } else {
            proof {
                assert(!old(self).seq().contains(id));
            }
            self.items.push(id);
            proof {
                let s = old(self).seq();
                assert(self.seq() == s.push(id));
                assert forall|a: int, b: int|
                    0 <= a < self.seq().len() && 0 <= b < self.seq().len() && a != b implies
                    self.seq()[a] != self.seq()[b] by {
                    if a < s.len() && b < s.len() {
                        assert(s[a] != s[b]);
                    } else if a < s.len() {
                        assert(s[a] != id) by {
                            assert(!s.contains(id));
                        }
                    } else {
                        assert(s[b] != id) by {
                            assert(!s.contains(id));
                        }
                    }
                }
                assert forall|x: u64| self@.contains(x) <==> old(self)@.insert(id).contains(x) by {
                    if self.seq().contains(x) {
                        let j = choose|j: int| 0 <= j < self.seq().len() && self.seq()[j] == x;
                        if j < s.len() {
                            assert(s[j] == x);
                        }
                    }
                    if s.contains(x) {
                        let j = choose|j: int| 0 <= j < s.len() && s[j] == x;
                        assert(self.seq()[j] == x);
                    }
                    if x == id {
                        assert(self.seq()[s.len() as int] == id);
                    }
                }
                assert(self@ =~= old(self)@.insert(id));
            }
            true
        }
    }

    /// Removes an id; reports whether it was present.
    pub fn remove(&mut self, id: u64) -> (was: bool)
        requires
            old(self).wf(),
        ensures
            final(self).wf(),
            final(self)@ == old(self)@.remove(id),
            was == old(self)@.contains(id),
    {
        let n = self.items.len();
        let mut i: usize = 0;
        while i < n
            invariant
                *self == *old(self),
                old(self).wf(),
                n == self.seq().len(),
                i <= n,
                forall|j: int| 0 <= j < i ==> self.seq()[j] != id,
            decreases n - i,
        {
            if self.items[i] == id {
                proof {
                    assert(old(self).seq().contains(id));
                }
                self.items.remove(i);
                proof {
                    lemma_seq_remove_at(old(self).seq(), i as int);
                    let s = old(self).seq();
                    assert forall|x: u64| self@.contains(x) <==>
                        old(self)@.remove(id).contains(x) by {
                        if self.seq().contains(x) {
                            let j = choose|j: int|
                                0 <= j < self.seq().len() && self.seq()[j] == x;
                            if j < i {
                                assert(s[j] == x);
                                assert(j != i);
                                assert(s[j] != s[i as int]);
                            } else {
                                assert(s[j + 1] == x);
                                assert(j + 1 != i);
                                assert(s[j + 1] != s[i as int]);
                            }
                        }
                        if s.contains(x) && x != id {
                            let j = choose|j: int| 0 <= j < s.len() && s[j] == x;
                            assert(j != i);
                            if j < i {
                                assert(self.seq()[j] == x);
                            } else {
                                assert(self.seq()[j - 1] == x);
                            }
                        }
                    }
                    assert(self@ =~= old(self)@.remove(id));
                }
                return true;
            }
            i += 1;
        }
        proof {
            assert(!old(self).seq().contains(id));
            assert(self@ =~= old(self)@.remove(id));
        }
        false
    }

    /// Removes and returns some element of a nonempty set.
    pub fn take_any(&mut self) -> (id: u64)
        requires
            old(self).wf(),
            old(self).seq().len() > 0,
        ensures
            final(self).wf(),
            old(self)@.contains(id),
            final(self)@ == old(self)@.remove(id),
            final(self).seq() == old(self).seq().drop_last(),
    {
        let id = self.items.pop().unwrap();
        proof {
            let s = old(self).seq();
            assert(s[s.len() - 1] == id);
            assert(s.contains(id));
            assert forall|x: u64| self@.contains(x) <==> old(self)@.remove(id).contains(x) by {
                if self.seq().contains(x) {
                    let j = choose|j: int| 0 <= j < self.seq().len() && self.seq()[j] == x;
                    assert(s[j] == x);
                    assert(j != s.len() - 1);
                    assert(s[j] != s[s.len() - 1]);
                }
                if s.contains(x) && x != id {
                    let j = choose|j: int| 0 <= j < s.len() && s[j] == x;
                    assert(j != s.len() - 1);
                    assert(self.seq()[j] == x);
                }
            }
            assert(self@ =~= old(self)@.remove(id));
        }
        id
    }
}

impl Clone for IdSet {
    /// An identical, independently owned copy.
    fn clone(&self) -> (r: Self)
        ensures
            r.seq() == self.seq(),
            r@ == self@,
            r.wf() == self.wf(),
    {
        let n = self.items.len();
        let mut items: Vec<u64> = Vec::new();
        let mut i: usize = 0;
        while i < n
            invariant
                n == self.items@.len(),
                i <= n,
                items@ == self.items@.take(i as int),
            decreases n - i,
        {
            items.push(self.items[i]);
            proof {
                assert(items@ =~= self.items@.take(i + 1));
            }
            i += 1;
        }
        proof {
            assert(items@ =~= self.items@);
        }
        IdSet { items }
    }
}

/// Appending an element to an id sequence inserts it into the set of ids.
pub proof fn lemma_push_to_set(s: Seq<u64>, x: u64)
    ensures
        s.push(x).to_set() == s.to_set().insert(x),
{
    assert forall|y: u64| s.push(x).to_set().contains(y) <==> s.to_set().insert(x).contains(y) by {
        if s.push(x).contains(y) {
            let j = choose|j: int| 0 <= j < s.push(x).len() && s.push(x)[j] == y;
            if j < s.len() {
                assert(s[j] == y);
            }
        }
        if s.contains(y) {
            let j = choose|j: int| 0 <= j < s.len() && s[j] == y;
            assert(s.push(x)[j] == y);
        }
        if y == x {
            assert(s.push(x)[s.len() as int] == y);
        }
    }
    assert(s.push(x).to_set() =~= s.to_set().insert(x));
}

/// Walking one element further extends the prefix by that element.
pub proof fn lemma_take_step(s: Seq<u64>, i: int)
    requires
        0 <= i < s.len(),
    ensures
        s.take(i + 1) == s.take(i).push(s[i]),
        s.take(i + 1).to_set() == s.take(i).to_set().insert(s[i]),
{
    assert(s.take(i + 1) =~= s.take(i).push(s[i]));
    lemma_push_to_set(s.take(i), s[i]);
}

/// The full prefix of a sequence is the sequence itself.
pub proof fn lemma_take_full(s: Seq<u64>)
    ensures
        s.take(s.len() as int) == s,
{
    assert(s.take(s.len() as int) =~= s);
}

/// In a duplicate-free sequence, the element at position `i` is outside the
/// set of ids that precede it.
pub proof fn lemma_no_dup_take_excludes(s: Seq<u64>, i: int)
    requires
        s.no_duplicates(),
        0 <= i < s.len(),
    ensures
        !s.take(i).to_set().contains(s[i]),
{
    if s.take(i).to_set().contains(s[i]) {
        let j = choose|j: int| 0 <= j < s.take(i).len() && s.take(i)[j] == s[i];
        assert(s[j] == s[i]);
    }
}

/// Removing position `i` keeps the elements before it, shifts the ones after
/// it down by one, and preserves freedom from duplicates.
proof fn lemma_seq_remove_at(s: Seq<u64>, i: int)
    requires
        0 <= i < s.len(),
        s.no_duplicates(),
    ensures
        s.remove(i).len() == s.len() - 1,
        forall|j: int| 0 <= j < i ==> s.remove(i)[j] == s[j],
        forall|j: int| i <= j < s.len() - 1 ==> s.remove(i)[j] == s[j + 1],
        s.remove(i).no_duplicates(),
{
    let r = s.remove(i);
    assert forall|a: int, b: int| 0 <= a < r.len() && 0 <= b < r.len() && a != b implies
        r[a] != r[b] by {
        let a2: int = if a < i { a } else { a + 1 };
        let b2: int = if b < i { b } else { b + 1 };
        assert(r[a] == s[a2]);
        assert(r[b] == s[b2]);
        assert(s[a2] != s[b2]);
    }
}

} // verus!
