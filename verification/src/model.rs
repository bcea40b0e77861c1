//! The mathematical model of pending changes and of their effect on a store.
//!
//! A store maps an entity's bit pattern to its component value. A
//! [`RecordView`] is what one record asks of the store: which values to write
//! and which entities to strip of the component.

use vstd::prelude::*;

verus! {

/// The pending changes of one record.
#[verifier::ext_equal]
pub struct RecordView<T> {
    /// The value to write, for each entity with a pending insert.
    pub inserts: Map<u64, T>,
    /// The entities with a pending removal.
    pub removes: Set<u64>,
}

impl<T> RecordView<T> {
    /// Nothing pending.
    pub open spec fn empty() -> Self {
        RecordView { inserts: Map::empty(), removes: Set::empty() }
    }

    /// After an insert is recorded: the value is pending for the entity, and a
    /// removal that was pending for it is withdrawn.
    pub open spec fn insert(self, entity: u64, value: T) -> Self {
        RecordView {
            inserts: self.inserts.insert(entity, value),
            removes: self.removes.remove(entity),
        }
    }

    /// After a removal is recorded: the removal is pending for the entity, and
    /// an insert that was pending for it is discarded.
    pub open spec fn remove(self, entity: u64) -> Self {
        RecordView {
            inserts: self.inserts.remove(entity),
            removes: self.removes.insert(entity),
        }
    }

    /// No entity has both an insert and a removal pending.
    pub open spec fn exclusive(self) -> bool {
        forall|entity: u64| !(self.inserts.contains_key(entity) && self.removes.contains(entity))
    }

    /// Whether nothing is pending for `entity`.
    pub open spec fn untouched(self, entity: u64) -> bool {
        !self.inserts.contains_key(entity) && !self.removes.contains(entity)
    }

    /// The entities for which something is pending.
    pub open spec fn touched(self) -> Set<u64> {
        self.inserts.dom().union(self.removes)
    }

    /// What a scan sees of `entity`, whose value in the store is `snapshot`:
    /// nothing after a pending removal, the pending value after a pending
    /// insert, and the store's value otherwise.
    pub open spec fn visible(self, entity: u64, snapshot: Option<T>) -> Option<T> {
        if self.removes.contains(entity) {
            None
        } else if self.inserts.contains_key(entity) {
            Some(self.inserts[entity])
        } else {
            snapshot
        }
    }

    /// The store after these changes are applied to it: the removals first,
    /// the inserts after them.
    pub open spec fn flush(self, store: Map<u64, T>) -> Map<u64, T> {
        store.remove_keys(self.removes).union_prefer_right(self.inserts)
    }

    /// These changes followed by those of `later`, as one set of changes.
    pub open spec fn followed_by(self, later: Self) -> Self {
        RecordView {
            inserts: self.inserts.remove_keys(later.removes).union_prefer_right(later.inserts),
            removes: self.removes.difference(later.inserts.dom()).union(later.removes),
        }
    }
}

/// The value a store holds for an entity, if any.
pub open spec fn stored<T>(store: Map<u64, T>, entity: u64) -> Option<T> {
    if store.contains_key(entity) {
        Some(store[entity])
    } else {
        None
    }
}

/// The changes of several records, taken in order, as one set of changes.
pub open spec fn merged<T>(records: Seq<RecordView<T>>) -> RecordView<T>
    decreases records.len(),
{
    if records.len() == 0 {
        RecordView::empty()
    } else {
        merged(records.drop_last()).followed_by(records.last())
    }
}

/// The store after the changes of several records are applied in order.
pub open spec fn flush_all<T>(store: Map<u64, T>, records: Seq<RecordView<T>>) -> Map<u64, T>
    decreases records.len(),
{
    if records.len() == 0 {
        store
    } else {
        records.last().flush(flush_all(store, records.drop_last()))
    }
}

} // verus!
