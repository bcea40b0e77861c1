//! Deferred, per-worker component mutation for parallel entity scans.
//!
//! A scan visits entities with only shared access to the component store. Each
//! worker writes the inserts and removals it wants into a record of its own;
//! once the scan has joined, the records are flushed into the store in slot
//! order. The [`entry`] module gives the occupied/vacant view over one entity,
//! [`record`] the per-worker buffer, [`accumulator`] the set of buffers,
//! [`fetch`] the visitation protocol and [`flush`] the merge into the store.

pub mod accumulator;
pub mod entity;
pub mod entry;
pub mod fetch;
pub mod flush;
pub mod laws;
pub mod model;
pub mod record;
pub mod store;
