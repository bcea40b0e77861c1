//! The per-worker buffer of pending component changes.
//!
//! A record holds, for the entities its worker has touched, either a pending
//! insert (with the value to write) or a pending removal, never both. The
//! values lie densely in a vector; an entity-keyed index finds an entity's
//! value, and the set of removals is kept beside them.

use bevy_ecs::entity::{EntityHashMap, EntityHashSet};
use vstd::prelude::*;

use crate::entity::{is_entity_bits, EntityId};
use crate::flush::{distinct_entities, lemma_replay_push, removes_first, replay, StoreOp};
use crate::model::{stored, RecordView};
use crate::store::{
    map_clear, map_get, map_insert, map_new, map_remove, members, set_clear, set_contains,
    set_insert, set_list, set_new, set_remove, slots,
};

verus! {

/// The value behind an optional reference.
pub open spec fn owned<T>(value: Option<&T>) -> Option<T> {
    match value {
        Some(v) => Some(*v),
        None => None,
    }
}

/// The pending changes of one worker.
pub struct EntryRecord<T> {
    index: EntityHashMap<usize>,
    keys: Vec<u64>,
    values: Vec<T>,
    removes: EntityHashSet,
}

impl<T> View for EntryRecord<T> {
    type V = RecordView<T>;

    closed spec fn view(&self) -> RecordView<T> {
        RecordView {
            inserts: Map::new(
                |k: u64| slots(self.index).contains_key(k),
                |k: u64| self.values@[slots(self.index)[k] as int],
            ),
            removes: members(self.removes),
        }
    }
}

impl<T> EntryRecord<T> {
    /// The index and the dense vectors agree, every key is an entity's bit
    /// pattern, and no entity has both an insert and a removal pending.
    pub closed spec fn wf(&self) -> bool {
        &&& self.keys@.len() == self.values@.len()
        &&& forall|k: u64| #[trigger]
            slots(self.index).contains_key(k) ==> {
                &&& slots(self.index)[k] < self.keys@.len()
                &&& self.keys@[slots(self.index)[k] as int] == k
            }
        &&& forall|i: int|
            0 <= i < self.keys@.len() ==> {
                &&& is_entity_bits(#[trigger] self.keys@[i])
                &&& slots(self.index).contains_key(self.keys@[i])
                &&& slots(self.index)[self.keys@[i]] == i
            }
        &&& forall|k: u64| #[trigger]
            members(self.removes).contains(k) ==> {
                &&& is_entity_bits(k)
                &&& !slots(self.index).contains_key(k)
            }
    }

    /// In a well-formed record no entity has both an insert and a removal
    /// pending.
    pub proof fn lemma_exclusive(&self)
        requires
            self.wf(),
        ensures
            self@.exclusive(),
    {
    }

    /// A record with nothing pending.
    pub fn new() -> (record: Self)
        ensures
            record.wf(),
            record@ == RecordView::<T>::empty(),
    {
        let record = EntryRecord {
            index: map_new(),
            keys: Vec::new(),
            values: Vec::new(),
            removes: set_new(),
        };
        assert(record@ =~= RecordView::<T>::empty());
        record
    }

    /// Records that `value` is to be written for `entity`. A removal pending
    /// for the entity is withdrawn, and an earlier pending value is replaced.
    pub fn record_insert(&mut self, entity: EntityId, value: T)
        requires
            old(self).wf(),
        ensures
            final(self).wf(),
            final(self)@ == old(self)@.insert(entity@, value),
    {
        let k = entity.to_bits();
        set_remove(&mut self.removes, k);
        match map_get(&self.index, k) {
            Some(i) => {
                self.values[i] = value;
            },
            None => {
                let n = self.keys.len();
                map_insert(&mut self.index, k, n);
                self.keys.push(k);
                self.values.push(value);
            },
        }
        assert(self@ =~= old(self)@.insert(entity@, value));
    }

    /// Records that the component of `entity` is to be removed. A pending
    /// insert for the entity is discarded and its value handed back.
    pub fn record_remove(&mut self, entity: EntityId) -> (discarded: Option<T>)
        requires
            old(self).wf(),
        ensures
            final(self).wf(),
            final(self)@ == old(self)@.remove(entity@),
            discarded == stored(old(self)@.inserts, entity@),
    {
        let k = entity.to_bits();
        let discarded = match map_remove(&mut self.index, k) {
            Some(i) => {
                let last = self.keys.len() - 1;
                if i != last {
                    let moved = self.keys[last];
                    map_insert(&mut self.index, moved, i);
                }
                self.keys.swap_remove(i);
                Some(self.values.swap_remove(i))
            },
            None => None,
        };
        set_insert(&mut self.removes, k);
        assert(self@ =~= old(self)@.remove(entity@));
        discarded
    }

    /// What the scan sees of `entity`, whose value in the store is `snapshot`:
    /// nothing after a pending removal, the pending value after a pending
    /// insert, and the store's value otherwise.
    pub fn lookup<'a>(&'a self, entity: EntityId, snapshot: Option<&'a T>) -> (value: Option<&'a T>)
        requires
            self.wf(),
        ensures
            owned(value) == self@.visible(entity@, owned(snapshot)),
    {
        let k = entity.to_bits();
        if set_contains(&self.removes, k) {
            None
        } else {
            match map_get(&self.index, k) {
                Some(i) => Some(&self.values[i]),
                None => snapshot,
            }
        }
    }

    /// Whether a removal is pending for `entity`.
    pub fn is_removed(&self, entity: EntityId) -> (removed: bool)
        requires
            self.wf(),
        ensures
            removed == self@.removes.contains(entity@),
    {
        set_contains(&self.removes, entity.to_bits())
    }

    /// Whether an insert is pending for `entity`.
    pub fn is_inserted(&self, entity: EntityId) -> (inserted: bool)
        requires
            self.wf(),
        ensures
            inserted == self@.inserts.contains_key(entity@),
    {
        map_get(&self.index, entity.to_bits()).is_some()
    }

    /// A mutable handle on the value pending for `entity`. What the caller
    /// writes through it is the pending value from then on.
    pub fn get_mut(&mut self, entity: EntityId) -> (value: &mut T)
        requires
            old(self).wf(),
            old(self)@.inserts.contains_key(entity@),
        ensures
            *value == old(self)@.inserts[entity@],
            final(self).wf(),
            final(self)@ == old(self)@.insert(entity@, *final(value)),
    {
        let slot = map_get(&self.index, entity.to_bits());
        let i = slot.unwrap();
        &mut self.values[i]
    }

    /// Forgets every pending change.
    pub fn clear(&mut self)
        requires
            old(self).wf(),
        ensures
            final(self).wf(),
            final(self)@ == RecordView::<T>::empty(),
    {
        map_clear(&mut self.index);
        self.keys.clear();
        self.values.clear();
        set_clear(&mut self.removes);
        assert(self@ =~= RecordView::<T>::empty());
    }

    /// Empties the record into the operations that carry out its changes: one
    /// operation for each entity with a pending change, the removals, in no
    /// promised order among themselves, before the inserts.
    pub fn drain(&mut self) -> (ops: Vec<StoreOp<T>>)
        requires
            old(self).wf(),
        ensures
            final(self).wf(),
            final(self)@ == RecordView::<T>::empty(),
            replay(ops@) == old(self)@,
            removes_first(ops@),
            distinct_entities(ops@),
    {
        let ghost index = slots(self.index);
        let ghost pending = self@;
        let removed = set_list(&self.removes);
        let mut keys: Vec<u64> = Vec::new();
        let mut values: Vec<T> = Vec::new();
        core::mem::swap(&mut keys, &mut self.keys);
        core::mem::swap(&mut values, &mut self.values);
        map_clear(&mut self.index);
        set_clear(&mut self.removes);
        assert(self@ =~= RecordView::<T>::empty());
        let ghost all_values = values@;

        let mut ops: Vec<StoreOp<T>> = Vec::new();
        let mut i: usize = 0;
        while i < removed.len()
            invariant
                i <= removed.len(),
                forall|n: int| 0 <= n < removed@.len() ==> is_entity_bits(#[trigger] removed@[n]),
                ops@.len() == i,
                forall|n: int| 0 <= n < ops@.len() ==> #[trigger] ops@[n] is Remove,
                forall|n: int| 0 <= n < ops@.len() ==> (#[trigger] ops@[n]).entity() == removed@[n],
                replay(ops@) == (RecordView::<T> {
                    inserts: Map::empty(),
                    removes: removed@.take(i as int).to_set(),
                }),
            decreases removed.len() - i,
        {
            let entity = EntityId::from_bits(removed[i]).unwrap();
            proof {
                lemma_replay_push(ops@, StoreOp::Remove(entity));
                let before = removed@.take(i as int);
                let after = removed@.take(i + 1);
                assert(after =~= before.push(removed@[i as int]));
                assert forall|k: u64| after.to_set().contains(k) <==> before.to_set().insert(
                    removed@[i as int],
                ).contains(k) by {
                    if before.contains(k) {
                        let n = choose|n: int| 0 <= n < before.len() && before[n] == k;
                        assert(after[n] == k);
                    }
                    if after.contains(k) {
                        let n = choose|n: int| 0 <= n < after.len() && after[n] == k;
                        if n < before.len() {
                            assert(before[n] == k);
                        }
                    }
                    assert(after[i as int] == removed@[i as int]);
                }
                assert(after.to_set() =~= before.to_set().insert(removed@[i as int]));
                assert(Map::<u64, T>::empty().remove(removed@[i as int]) =~= Map::<u64, T>::empty());
            }
            ops.push(StoreOp::Remove(entity));
            i += 1;
        }
        proof {
            assert(removed@.take(removed@.len() as int) =~= removed@);
            assert(removed@.to_set() =~= pending.removes);
        }
        while keys.len() > 0
            invariant
                keys@.len() == values@.len(),
                keys@.len() <= all_values.len(),
                old(self).keys@.len() == all_values.len(),
                keys@ =~= old(self).keys@.take(keys@.len() as int),
                values@ =~= all_values.take(keys@.len() as int),
                all_values == old(self).values@,
                index == slots(old(self).index),
                pending == old(self)@,
                old(self).wf(),
                ops@.len() == removed@.len() + (all_values.len() - keys@.len()),
                forall|n: int| 0 <= n < removed@.len() ==> #[trigger] ops@[n] is Remove,
                forall|n: int| removed@.len() <= n < ops@.len() ==> #[trigger] ops@[n] is Insert,
                removed@.no_duplicates(),
                forall|bits: u64| removed@.contains(bits) <==> pending.removes.contains(bits),
                forall|n: int|
                    0 <= n < removed@.len() ==> (#[trigger] ops@[n]).entity() == removed@[n],
                forall|n: int|
                    removed@.len() <= n < ops@.len() ==> (#[trigger] ops@[n]).entity() == old(
                        self,
                    ).keys@[all_values.len() - 1 - (n - removed@.len())],
                replay(ops@) == (RecordView::<T> {
                    inserts: Map::new(
                        |k: u64| index.contains_key(k) && index[k] >= keys@.len(),
                        |k: u64| all_values[index[k] as int],
                    ),
                    removes: pending.removes,
                }),
            decreases keys.len(),
        {
            let ghost n = keys@.len() - 1;
            let ghost keys_before = keys@;
            let ghost values_before = values@;
            let k = keys.pop().unwrap();
            let value = values.pop().unwrap();
            assert(k == keys_before[n] && keys_before[n] == old(self).keys@[n]);
            assert(value == values_before[n] && values_before[n] == all_values[n]);
            let entity = EntityId::from_bits(k).unwrap();
            proof {
                lemma_replay_push(ops@, StoreOp::Insert(entity, value));
                let before = replay(ops@);
                let after = RecordView::<T> {
                    inserts: Map::new(
                        |k: u64| index.contains_key(k) && index[k] >= n,
                        |k: u64| all_values[index[k] as int],
                    ),
                    removes: pending.removes,
                };
                assert(index.contains_key(k) && index[k] == n);
                assert(!pending.removes.contains(k));
                assert(before.insert(k, value) =~= after);
            }
            ops.push(StoreOp::Insert(entity, value));
        }
        proof {
            assert(replay(ops@) =~= pending);
            assert forall|a: int, b: int| 0 <= a < b < ops@.len() implies ops@[a].entity()
                != ops@[b].entity() by {
                let split = removed@.len() as int;
                let count = all_values.len() as int;
                if b < split {
                    assert(removed@[a] != removed@[b]);
                } else if a < split {
                    let key = old(self).keys@[count - 1 - (b - split)];
                    assert(slots(old(self).index).contains_key(key));
                    assert(removed@.contains(removed@[a]));
                } else {
                    let first = count - 1 - (a - split);
                    let second = count - 1 - (b - split);
                    assert(slots(old(self).index)[old(self).keys@[first]] == first);
                    assert(slots(old(self).index)[old(self).keys@[second]] == second);
                }
            }
        }
        ops
    }
}

impl<T> Default for EntryRecord<T> {
    /// A record with nothing pending.
    fn default() -> (record: Self)
        ensures
            record.wf(),
            record@ == RecordView::<T>::empty(),
    {
        EntryRecord::new()
    }
}

} // verus!
