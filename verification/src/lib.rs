//! A shared object store for a blockchain node.
//!
//! The store keeps three categories of immutable, content-addressed objects
//! (blocks, operations, endorsements). Each category has a global index
//! (id to payload) and a global owner table (id to positive reference count).
//! Subsystems hold a [`storage::Storage`] handle; a handle owns one local
//! reference set per category, and each id in a local set contributes exactly
//! one to that id's owner count. An object is evicted from the index at the
//! very moment the last local reference to it is dropped.
//!
//! The global tables are gathered in a [`store::Store`] value. Every handle
//! operation takes the store it acts on explicitly, so the whole ref-counting
//! and eviction logic is verified as a sequential state machine; a surrounding
//! binary shares one `Store` between threads behind a reader/writer lock and
//! runs these operations under it.

pub mod id_set;
pub mod object_index;
pub mod owner_table;
pub mod effects;
pub mod store;
pub mod storage;
pub mod consistency;
