//! Turning pending changes into the operations that the store performs.
//!
//! The store is mutated only here, after the scan has joined, and only through
//! the sequence of [`StoreOp`]s that a flush yields: its caller holds exclusive
//! access to the store and performs them in order.

use vstd::prelude::*;

use crate::entity::EntityId;
use crate::laws::{lemma_flush_merged, lemma_replay_concat, lemma_replay_flush};
use crate::model::{flush_all, merged, RecordView};
use crate::record::EntryRecord;

verus! {

/// One mutation of the store.
#[derive(Debug, PartialEq, Eq)]
pub enum StoreOp<T> {
    /// Strip the entity of the component.
    Remove(EntityId),
    /// Write the value as the entity's component.
    Insert(EntityId, T),
}

impl<T> StoreOp<T> {
    /// The entity that the operation is about.
    pub open spec fn entity(self) -> u64 {
        match self {
            StoreOp::Remove(entity) => entity@,
            StoreOp::Insert(entity, _) => entity@,
        }
    }

    /// The store after the operation.
    pub open spec fn apply(self, store: Map<u64, T>) -> Map<u64, T> {
        match self {
            StoreOp::Remove(entity) => store.remove(entity@),
            StoreOp::Insert(entity, value) => store.insert(entity@, value),
        }
    }

    /// The pending changes after the operation is recorded instead of
    /// performed.
    pub open spec fn record(self, pending: RecordView<T>) -> RecordView<T> {
        match self {
            StoreOp::Remove(entity) => pending.remove(entity@),
            StoreOp::Insert(entity, value) => pending.insert(entity@, value),
        }
    }
}

/// The store after the operations are performed in order.
pub open spec fn apply_ops<T>(store: Map<u64, T>, ops: Seq<StoreOp<T>>) -> Map<u64, T>
    decreases ops.len(),
{
    if ops.len() == 0 {
        store
    } else {
        ops.last().apply(apply_ops(store, ops.drop_last()))
    }
}

/// The pending changes that recording the operations in order leaves.
pub open spec fn replay<T>(ops: Seq<StoreOp<T>>) -> RecordView<T>
    decreases ops.len(),
{
    if ops.len() == 0 {
        RecordView::empty()
    } else {
        ops.last().record(replay(ops.drop_last()))
    }
}

/// No removal comes after an insert.
pub open spec fn removes_first<T>(ops: Seq<StoreOp<T>>) -> bool {
    forall|i: int, j: int|
        #![trigger ops[i], ops[j]]
        0 <= i < j < ops.len() && ops[i] is Insert ==> ops[j] is Insert
}

/// No two operations are about the same entity.
pub open spec fn distinct_entities<T>(ops: Seq<StoreOp<T>>) -> bool {
    forall|i: int, j: int|
        #![trigger ops[i], ops[j]]
        0 <= i < j < ops.len() ==> ops[i].entity() != ops[j].entity()
}

/// Recording one more operation.
pub proof fn lemma_replay_push<T>(ops: Seq<StoreOp<T>>, op: StoreOp<T>)
    ensures
        replay(ops.push(op)) == op.record(replay(ops)),
{
    assert(ops.push(op).drop_last() =~= ops);
}

/// The pending changes of each record, in slot order.
pub open spec fn views<T>(records: Seq<EntryRecord<T>>) -> Seq<RecordView<T>> {
    Seq::new(records.len(), |slot: int| records[slot]@)
}

/// Every record is well-formed.
pub open spec fn all_wf<T>(records: Seq<EntryRecord<T>>) -> bool {
    forall|slot: int| 0 <= slot < records.len() ==> (#[trigger] records[slot]).wf()
}

/// Turns the records of a finished scan into the operations that carry out
/// their changes, and discards the records. The records are taken in slot
/// order; within one record the removals come before the inserts. Performed
/// in order on any store, the operations leave what flushing the records one
/// after the other leaves.
pub fn flush<T>(records: Vec<EntryRecord<T>>) -> (ops: Vec<StoreOp<T>>)
    requires
        all_wf(records@),
    ensures
        replay(ops@) == merged(views(records@)),
        forall|store: Map<u64, T>| #[trigger]
            apply_ops(store, ops@) == flush_all(store, views(records@)),
{
    let ghost pending = views(records@);
    let mut records = records;
    let mut ops: Vec<StoreOp<T>> = Vec::new();
    let mut slot: usize = 0;
    while slot < records.len()
        invariant
            slot <= records.len(),
            records@.len() == pending.len(),
            forall|later: int|
                slot <= later < records.len() ==> (#[trigger] records[later]).wf()
                    && records[later]@ == pending[later],
            replay(ops@) == merged(pending.take(slot as int)),
        decreases records.len() - slot,
    {
        let ghost before = ops@;
        let ghost rest = records@;
        let mut part = records[slot].drain();
        proof {
            assert(forall|later: int|
                slot < later < records.len() ==> records[later] == rest[later]);
            lemma_replay_concat(before, part@);
            assert(pending.take(slot + 1).drop_last() =~= pending.take(slot as int));
            assert(pending.take(slot + 1).last() == pending[slot as int]);
        }
        ops.append(&mut part);
        slot += 1;
    }
    proof {
        assert(pending.take(pending.len() as int) =~= pending);
        assert forall|store: Map<u64, T>| #[trigger]
            apply_ops(store, ops@) == flush_all(store, pending) by {
            lemma_replay_flush(store, ops@);
            lemma_flush_merged(store, pending);
        }
    }
    ops
}

} // verus!
