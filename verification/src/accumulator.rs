//! One record per worker slot.
//!
//! The slots are fixed for the length of a scan. During the scan each worker
//! writes to the record of its own slot and to no other; after the scan has
//! joined, the records are drained in slot order.

use vstd::prelude::*;

use crate::flush::{all_wf, apply_ops, flush, replay, views, StoreOp};
use crate::model::{flush_all, merged, RecordView};
use crate::record::EntryRecord;

verus! {

/// `count` records with nothing pending.
pub open spec fn idle<T>(count: nat) -> Seq<RecordView<T>> {
    Seq::new(count, |slot: int| RecordView::<T>::empty())
}

/// The records of all worker slots. The view lists the pending changes of
/// each slot, in slot order.
pub struct Accumulator<T> {
    slots: Vec<EntryRecord<T>>,
}

impl<T> View for Accumulator<T> {
    type V = Seq<RecordView<T>>;

    closed spec fn view(&self) -> Seq<RecordView<T>> {
        views(self.slots@)
    }
}

impl<T> Accumulator<T> {
    /// Every slot's record is well-formed.
    pub closed spec fn wf(&self) -> bool {
        all_wf(self.slots@)
    }

    /// An accumulator for `workers` slots, with nothing pending in any.
    pub fn new(workers: usize) -> (accumulator: Self)
        ensures
            accumulator.wf(),
            accumulator@ == idle::<T>(workers as nat),
    {
        let mut slots: Vec<EntryRecord<T>> = Vec::new();
        while slots.len() < workers
            invariant
                slots@.len() <= workers,
                all_wf(slots@),
                forall|slot: int|
                    0 <= slot < slots@.len() ==> (#[trigger] slots@[slot])@
                        == RecordView::<T>::empty(),
            decreases workers - slots.len(),
        {
            slots.push(EntryRecord::new());
        }
        let accumulator = Accumulator { slots };
        assert(accumulator@ =~= idle::<T>(workers as nat));
        accumulator
    }

    /// The number of worker slots.
    pub fn workers(&self) -> (count: usize)
        ensures
            count == self@.len(),
    {
        self.slots.len()
    }

    /// The record of the slot `worker`, to be written by that worker alone.
    /// What the worker leaves in the record is what the slot holds from then
    /// on; the other slots stay as they are.
    pub fn slot_for_worker(&mut self, worker: usize) -> (record: &mut EntryRecord<T>)
        requires
            old(self).wf(),
            worker < old(self)@.len(),
        ensures
            record.wf(),
            record@ == old(self)@[worker as int],
            final(self)@ == old(self)@.update(worker as int, final(record)@),
            final(record).wf() ==> final(self).wf(),
    {
        let ghost before = self.slots@;
        let record = &mut self.slots[worker];
        proof {
            let after = before.update(worker as int, *final(record));
            assert(views(after) =~= views(before).update(worker as int, final(record)@));
            assert forall|slot: int|
                0 <= slot < after.len() && final(record).wf() implies (#[trigger] after[slot]).wf() by {
                if slot != worker {
                    assert(after[slot] == before[slot]);
                }
            }
        }
        record
    }

    /// Takes every record out, in slot order, and leaves each slot with
    /// nothing pending. To be called only after the scan has joined.
    pub fn drain_all(&mut self) -> (records: Vec<EntryRecord<T>>)
        requires
            old(self).wf(),
        ensures
            all_wf(records@),
            views(records@) == old(self)@,
            final(self).wf(),
            final(self)@ == idle::<T>(old(self)@.len()),
    {
        let mut fresh = Accumulator::<T>::new(self.slots.len());
        core::mem::swap(&mut fresh.slots, &mut self.slots);
        fresh.slots
    }

    /// Drops every pending change without applying it, as after a scan that
    /// was abandoned. The store never saw the changes, so nothing is left to
    /// undo.
    pub fn discard(&mut self)
        requires
            old(self).wf(),
        ensures
            final(self).wf(),
            final(self)@ == idle::<T>(old(self)@.len()),
    {
        let _ = self.drain_all();
    }

    /// Drains every record and turns the pending changes into the operations
    /// that carry them out: slot by slot, within a slot the removals before
    /// the inserts. Leaves each slot with nothing pending.
    pub fn flush(&mut self) -> (ops: Vec<StoreOp<T>>)
        requires
            old(self).wf(),
        ensures
            final(self).wf(),
            final(self)@ == idle::<T>(old(self)@.len()),
            replay(ops@) == merged(old(self)@),
            forall|store: Map<u64, T>| #[trigger]
                apply_ops(store, ops@) == flush_all(store, old(self)@),
    {
        let records = self.drain_all();
        flush(records)
    }
}

} // verus!
