//! Object indexes: one global map per object category from object id to the
//! stored payload.
//!
//! Payloads are immutable once stored; insertion is idempotent by id, and the
//! only removal path is the eviction performed when an id's owner count drops
//! to zero.

use vstd::prelude::*;
use std::collections::HashMap;

verus! {

broadcast use vstd::std_specs::hash::group_hash_axioms;

/// An immutable stored payload: its content-addressed id together with the
/// original bytes the object was built from.
pub struct StoredObject {
    /// The content-addressed identity of the object.
    pub id: u64,
    /// The serialized form of the object.
    pub bytes: Vec<u8>,
}

impl Clone for StoredObject {
    /// An identical, independently owned copy.
    fn clone(&self) -> (r: Self)
        ensures
            r.id == self.id,
            r.bytes@ == self.bytes@,
    {
        let n = self.bytes.len();
        let mut bytes: Vec<u8> = Vec::new();
        let mut i: usize = 0;
        while i < n
            invariant
                n == self.bytes@.len(),
                i <= n,
                bytes@ == self.bytes@.take(i as int),
            decreases n - i,
        {
            bytes.push(self.bytes[i]);
            proof {
                assert(bytes@ =~= self.bytes@.take(i + 1));
            }
            i += 1;
        }
        proof {
            assert(bytes@ =~= self.bytes@);
        }
        StoredObject { id: self.id, bytes }
    }
}

/// A payload store keyed by object id, viewed as a map from id to bytes.
pub struct ObjectIndex {
    objects: HashMap<u64, StoredObject>,
}

impl View for ObjectIndex {
    type V = Map<u64, Seq<u8>>;

    closed spec fn view(&self) -> Map<u64, Seq<u8>> {
        self.objects@.map_values(|o: StoredObject| o.bytes@)
    }
}

impl ObjectIndex {
    /// Well-formed: every payload sits under its own id.
    pub closed spec fn wf(&self) -> bool {
        forall|id: u64| #[trigger] self.objects@.contains_key(id) ==> self.objects@[id].id == id
    }

    /// An empty index.
    pub fn new() -> (r: ObjectIndex)
        ensures
            r@ == Map::<u64, Seq<u8>>::empty(),
            r.wf(),
    {
        let r = ObjectIndex { objects: HashMap::new() };
        proof {
            assert(r@ =~= Map::<u64, Seq<u8>>::empty());
        }
        r
    }

    /// Number of stored payloads.
    pub fn len(&self) -> (n: usize)
        ensures
            n == self@.dom().len(),
    {
        proof {
            assert(self@.dom() =~= self.objects@.dom());
        }
        self.objects.len()
    }

    /// Whether a payload is stored under `id`.
    pub fn contains(&self, id: u64) -> (r: bool)
        ensures
            r == self@.contains_key(id),
    {
        self.objects.contains_key(&id)
    }

    /// The payload stored under `id`, if any.
    pub fn get_object(&self, id: u64) -> (r: Option<&StoredObject>)
        ensures
            match r {
                Some(o) => self@.contains_key(id) && o.bytes@ == self@[id] && (self.wf()
                    ==> o.id == id),
                None => !self@.contains_key(id),
            },
    {
        self.objects.get(&id)
    }

    /// Stores a payload under its id; a no-op when the id is already present.
    pub fn insert_object(&mut self, obj: StoredObject)
        requires
            old(self).wf(),
        ensures
            final(self).wf(),
            old(self)@.contains_key(obj.id) ==> final(self)@ == old(self)@,
            !old(self)@.contains_key(obj.id) ==> final(self)@ == old(self)@.insert(
                obj.id,
                obj.bytes@,
            ),
    {
        if !self.objects.contains_key(&obj.id) {
            let id = obj.id;
            self.objects.insert(id, obj);
            proof {
                assert(self@ =~= old(self)@.insert(id, self.objects@[id].bytes@));
            }
        }
    }

    /// Removes the payload stored under `id`; a no-op when absent.
    pub fn remove_object(&mut self, id: u64)
        requires
            old(self).wf(),
        ensures
            final(self).wf(),
            final(self)@ == old(self)@.remove(id),
    {
        self.objects.remove(&id);
        proof {
            assert(self@ =~= old(self)@.remove(id));
        }
    }
}

} // verus!
