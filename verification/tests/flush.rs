use std::collections::HashMap;

use query_entry::accumulator::Accumulator;
use query_entry::entity::EntityId;
use query_entry::flush::{flush, StoreOp};
use query_entry::record::EntryRecord;

fn id_of(index: u32) -> EntityId {
    EntityId::from_bits((1u64 << 32) | index as u64).unwrap()
}

fn perform(store: &mut HashMap<u64, u32>, ops: Vec<StoreOp<u32>>) {
    for op in ops {
        match op {
            StoreOp::Remove(entity) => {
                store.remove(&entity.to_bits());
            }
            StoreOp::Insert(entity, value) => {
                store.insert(entity.to_bits(), value);
            }
        }
    }
}

fn store_of(pairs: &[(u32, u32)]) -> HashMap<u64, u32> {
    pairs
        .iter()
        .map(|(index, value)| (id_of(*index).to_bits(), *value))
        .collect()
}

#[test]
fn flush_of_nothing_changes_nothing() {
    let mut store = store_of(&[(1, 5), (2, 6)]);
    let mut accumulator: Accumulator<u32> = Accumulator::new(3);
    let ops = accumulator.flush();
    assert!(ops.is_empty());
    perform(&mut store, ops);
    assert_eq!(store, store_of(&[(1, 5), (2, 6)]));
}

#[test]
fn untouched_entities_keep_their_value() {
    let mut store = store_of(&[(1, 5), (2, 6), (3, 7)]);
    let mut accumulator: Accumulator<u32> = Accumulator::new(2);
    accumulator.slot_for_worker(0).record_insert(id_of(1), 50);
    accumulator.slot_for_worker(1).record_remove(id_of(3));
    perform(&mut store, accumulator.flush());
    assert_eq!(store.get(&id_of(2).to_bits()), Some(&6));
    assert_eq!(store, store_of(&[(1, 50), (2, 6)]));
}

#[test]
fn last_recorded_insert_is_written() {
    let mut store = store_of(&[(1, 5)]);
    let mut accumulator: Accumulator<u32> = Accumulator::new(1);
    accumulator.slot_for_worker(0).record_remove(id_of(1));
    accumulator.slot_for_worker(0).record_insert(id_of(1), 8);
    accumulator.slot_for_worker(0).record_insert(id_of(1), 9);
    perform(&mut store, accumulator.flush());
    assert_eq!(store, store_of(&[(1, 9)]));
}

#[test]
fn last_recorded_remove_strips_the_component() {
    let mut store = store_of(&[(1, 5)]);
    let mut accumulator: Accumulator<u32> = Accumulator::new(1);
    accumulator.slot_for_worker(0).record_insert(id_of(1), 8);
    accumulator.slot_for_worker(0).record_remove(id_of(1));
    perform(&mut store, accumulator.flush());
    assert!(store.is_empty());
}

#[test]
fn insert_for_entity_without_component_adds_it() {
    let mut store = store_of(&[]);
    let mut accumulator: Accumulator<u32> = Accumulator::new(1);
    accumulator.slot_for_worker(0).record_insert(id_of(4), 44);
    perform(&mut store, accumulator.flush());
    assert_eq!(store, store_of(&[(4, 44)]));
}

#[test]
fn records_are_flushed_in_slot_order() {
    let mut accumulator: Accumulator<u32> = Accumulator::new(3);
    accumulator.slot_for_worker(2).record_insert(id_of(3), 30);
    accumulator.slot_for_worker(0).record_insert(id_of(1), 10);
    accumulator.slot_for_worker(1).record_remove(id_of(2));
    let ops = accumulator.flush();
    assert_eq!(
        ops,
        vec![
            StoreOp::Insert(id_of(1), 10),
            StoreOp::Remove(id_of(2)),
            StoreOp::Insert(id_of(3), 30),
        ]
    );
}

#[test]
fn later_slot_wins_on_a_shared_entity() {
    let mut store = store_of(&[(1, 5)]);
    let mut first = EntryRecord::new();
    first.record_insert(id_of(1), 10u32);
    let mut second = EntryRecord::new();
    second.record_remove(id_of(1));
    perform(&mut store, flush(vec![first, second]));
    assert!(store.is_empty());

    let mut store = store_of(&[(1, 5)]);
    let mut first = EntryRecord::new();
    first.record_remove(id_of(1));
    let mut second = EntryRecord::new();
    second.record_insert(id_of(1), 10u32);
    perform(&mut store, flush(vec![first, second]));
    assert_eq!(store, store_of(&[(1, 10)]));
}

#[test]
fn disjoint_records_flush_the_same_in_any_order() {
    let orders: [[usize; 3]; 6] = [
        [0, 1, 2],
        [0, 2, 1],
        [1, 0, 2],
        [1, 2, 0],
        [2, 0, 1],
        [2, 1, 0],
    ];
    let expected = store_of(&[(1, 11), (3, 7), (5, 55), (6, 66)]);
    for order in orders {
        let mut records: Vec<Option<EntryRecord<u32>>> = Vec::new();
        let mut a = EntryRecord::new();
        a.record_insert(id_of(1), 11);
        a.record_remove(id_of(2));
        let mut b = EntryRecord::new();
        b.record_remove(id_of(4));
        b.record_insert(id_of(5), 55);
        let mut c = EntryRecord::new();
        c.record_insert(id_of(6), 66);
        records.push(Some(a));
        records.push(Some(b));
        records.push(Some(c));
        let permuted: Vec<EntryRecord<u32>> = order
            .iter()
            .map(|slot| records[*slot].take().unwrap())
            .collect();
        let mut store = store_of(&[(1, 5), (2, 6), (3, 7), (4, 8)]);
        perform(&mut store, flush(permuted));
        assert_eq!(store, expected);
    }
}

#[test]
fn accumulator_has_the_slots_it_was_made_with() {
    let accumulator: Accumulator<u32> = Accumulator::new(4);
    assert_eq!(accumulator.workers(), 4);
    let none: Accumulator<u32> = Accumulator::new(0);
    assert_eq!(none.workers(), 0);
}

#[test]
fn workers_write_only_their_own_slot() {
    let mut accumulator: Accumulator<u32> = Accumulator::new(2);
    accumulator.slot_for_worker(0).record_insert(id_of(1), 10);
    assert!(accumulator.slot_for_worker(0).is_inserted(id_of(1)));
    assert!(!accumulator.slot_for_worker(1).is_inserted(id_of(1)));
}

#[test]
fn drain_all_hands_out_the_records_and_resets_the_slots() {
    let mut accumulator: Accumulator<u32> = Accumulator::new(2);
    accumulator.slot_for_worker(0).record_insert(id_of(1), 10);
    accumulator.slot_for_worker(1).record_remove(id_of(2));
    let records = accumulator.drain_all();
    assert_eq!(records.len(), 2);
    assert!(records[0].is_inserted(id_of(1)));
    assert!(records[1].is_removed(id_of(2)));
    assert_eq!(accumulator.workers(), 2);
    assert!(!accumulator.slot_for_worker(0).is_inserted(id_of(1)));
    assert!(!accumulator.slot_for_worker(1).is_removed(id_of(2)));
    assert!(accumulator.flush().is_empty());
}

#[test]
fn flush_discards_the_records() {
    let mut accumulator: Accumulator<u32> = Accumulator::new(1);
    accumulator.slot_for_worker(0).record_insert(id_of(1), 10);
    assert_eq!(accumulator.flush().len(), 1);
    assert!(accumulator.flush().is_empty());
}

#[test]
fn discard_drops_the_changes_unapplied() {
    let mut store = store_of(&[(1, 5)]);
    let mut accumulator: Accumulator<u32> = Accumulator::new(2);
    accumulator.slot_for_worker(0).record_remove(id_of(1));
    accumulator.slot_for_worker(1).record_insert(id_of(2), 20);
    accumulator.discard();
    assert_eq!(accumulator.workers(), 2);
    perform(&mut store, accumulator.flush());
    assert_eq!(store, store_of(&[(1, 5)]));
}

#[test]
fn drain_names_each_touched_entity_once() {
    let mut record = EntryRecord::new();
    for index in 0..8u32 {
        record.record_insert(id_of(index), index);
    }
    for index in [1u32, 4, 6] {
        record.record_remove(id_of(index));
    }
    record.record_insert(id_of(4), 40);
    record.record_remove(id_of(9));
    let ops = record.drain();
    assert_eq!(ops.len(), 9);
    let mut seen: Vec<u64> = ops
        .iter()
        .map(|op| match op {
            StoreOp::Remove(entity) => entity.to_bits(),
            StoreOp::Insert(entity, _) => entity.to_bits(),
        })
        .collect();
    seen.sort();
    seen.dedup();
    assert_eq!(seen.len(), 9);
    let mut store = store_of(&[(1, 100), (9, 900), (10, 1000)]);
    perform(&mut store, ops);
    assert_eq!(
        store,
        store_of(&[(0, 0), (2, 2), (3, 3), (4, 40), (5, 5), (7, 7), (10, 1000)])
    );
}
