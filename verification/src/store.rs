//! The global shared state: one object index and one owner table per object
//! category, gathered in a single value.
//!
//! A process holds one `Store`; every handle operation acts on it. The store's
//! well-formedness ties the two tables of each category together: an id has a
//! stored payload exactly while it has a positive owner count.

use vstd::prelude::*;
use crate::object_index::ObjectIndex;
use crate::owner_table::OwnerTable;

verus! {

/// The global tables shared by all handles.
pub struct Store {
    /// Block payloads by id.
    pub blocks: ObjectIndex,
    /// Operation payloads by id.
    pub operations: ObjectIndex,
    /// Endorsement payloads by id.
    pub endorsements: ObjectIndex,
    /// Live block reference counts.
    pub block_owners: OwnerTable,
    /// Live operation reference counts.
    pub operation_owners: OwnerTable,
    /// Live endorsement reference counts.
    pub endorsement_owners: OwnerTable,
}

impl Store {
    /// Well-formed: all counts are positive, payloads sit under their own id,
    /// and in each category the ids with a payload are exactly the ids with a
    /// positive owner count.
    pub open spec fn wf(&self) -> bool {
        &&& self.block_owners.wf()
        &&& self.operation_owners.wf()
        &&& self.endorsement_owners.wf()
        &&& self.blocks.wf()
        &&& self.operations.wf()
        &&& self.endorsements.wf()
        &&& self.block_owners@.dom() == self.blocks@.dom()
        &&& self.operation_owners@.dom() == self.operations@.dom()
        &&& self.endorsement_owners@.dom() == self.endorsements@.dom()
    }
}

} // verus!
