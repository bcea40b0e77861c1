use std::collections::HashMap;

use query_entry::entity::EntityId;
use query_entry::entry::{Entry, OccupiedEntry, VacantEntry};
use query_entry::fetch::{EntryFetch, EntryState};
use query_entry::flush::StoreOp;
use query_entry::record::EntryRecord;

fn entity(index: u32) -> EntityId {
    EntityId::from_bits((1u64 << 32) | index as u64).unwrap()
}

fn bound_fetch() -> EntryFetch {
    let state = EntryState::init_state(Some(0)).unwrap();
    let mut fetch = EntryFetch::new(&state, 0, 1);
    fetch.set_table(0).unwrap();
    fetch
}

fn write_back(store: &mut HashMap<u64, u32>, record: &mut EntryRecord<u32>) {
    for op in record.drain() {
        match op {
            StoreOp::Remove(entity) => {
                store.remove(&entity.to_bits());
            }
            StoreOp::Insert(entity, value) => {
                store.insert(entity.to_bits(), value);
            }
        }
    }
}

fn occupied<'s>(
    fetch: &mut EntryFetch,
    record: &'s mut EntryRecord<u32>,
    store: &HashMap<u64, u32>,
    entity: EntityId,
) -> OccupiedEntry<'s, u32> {
    let snapshot = store.get(&entity.to_bits()).copied();
    match fetch.fetch(record, entity, 0, snapshot).unwrap() {
        Entry::Occupied(entry) => entry,
        Entry::Vacant(_) => panic!("the entry is vacant"),
    }
}

fn vacant<'s>(
    fetch: &mut EntryFetch,
    record: &'s mut EntryRecord<u32>,
    store: &HashMap<u64, u32>,
    entity: EntityId,
) -> VacantEntry<'s, u32> {
    let snapshot = store.get(&entity.to_bits()).copied();
    match fetch.fetch(record, entity, 0, snapshot).unwrap() {
        Entry::Vacant(entry) => entry,
        Entry::Occupied(_) => panic!("the entry is occupied"),
    }
}

#[test]
fn get_mut_twice_accumulates() {
    let mut store = HashMap::from([(entity(1).to_bits(), 5u32)]);
    let mut record = EntryRecord::new();
    let mut fetch = bound_fetch();
    {
        let mut entry = occupied(&mut fetch, &mut record, &store, entity(1));
        *entry.get_mut() += 10;
        assert_eq!(*entry.get(), 15);
        *entry.get_mut() += 2;
    }
    assert_eq!(store[&entity(1).to_bits()], 5);
    write_back(&mut store, &mut record);
    assert_eq!(store[&entity(1).to_bits()], 17);
}

#[test]
fn or_insert_then_insert_keeps_the_later_value() {
    let mut store: HashMap<u64, u32> = HashMap::new();
    let mut record = EntryRecord::new();
    let mut fetch = bound_fetch();
    {
        let snapshot = store.get(&entity(1).to_bits()).copied();
        let entry = fetch.fetch(&mut record, entity(1), 0, snapshot).unwrap();
        assert!(matches!(entry, Entry::Vacant(_)));
        let mut entry = entry.or_insert(4);
        assert_eq!(*entry.get(), 4);
        entry.insert(15);
        assert_eq!(*entry.get(), 15);
    }
    write_back(&mut store, &mut record);
    assert_eq!(store[&entity(1).to_bits()], 15);
}

#[test]
fn take_removes_the_component_at_flush() {
    let mut store = HashMap::from([(entity(1).to_bits(), 5u32)]);
    let mut record = EntryRecord::new();
    let mut fetch = bound_fetch();
    let entry = occupied(&mut fetch, &mut record, &store, entity(1));
    assert_eq!(entry.take(), 5);
    assert_eq!(store[&entity(1).to_bits()], 5);
    write_back(&mut store, &mut record);
    assert_eq!(store.get(&entity(1).to_bits()), None);
    let snapshot = store.get(&entity(1).to_bits()).copied();
    let entry = fetch.fetch(&mut record, entity(1), 1, snapshot).unwrap();
    assert!(matches!(entry, Entry::Vacant(_)));
}

#[test]
fn take_returns_the_pending_value() {
    let store = HashMap::from([(entity(1).to_bits(), 5u32)]);
    let mut record = EntryRecord::new();
    let mut fetch = bound_fetch();
    let mut entry = occupied(&mut fetch, &mut record, &store, entity(1));
    entry.insert(9);
    assert_eq!(entry.take(), 9);
    assert!(record.is_removed(entity(1)));
    assert!(!record.is_inserted(entity(1)));
}

#[test]
fn entity_is_vacant_after_take_in_the_same_scan() {
    let store = HashMap::from([(entity(1).to_bits(), 5u32)]);
    let mut record = EntryRecord::new();
    let mut fetch = bound_fetch();
    occupied(&mut fetch, &mut record, &store, entity(1)).take();
    let entry = vacant(&mut fetch, &mut record, &store, entity(1));
    let entry = entry.insert(6);
    assert_eq!(*entry.get(), 6);
    assert_eq!(record.drain(), vec![StoreOp::Insert(entity(1), 6)]);
}

#[test]
fn get_shows_the_store_value_and_records_nothing() {
    let store = HashMap::from([(entity(1).to_bits(), 5u32)]);
    let mut record = EntryRecord::new();
    let mut fetch = bound_fetch();
    {
        let entry = occupied(&mut fetch, &mut record, &store, entity(1));
        assert_eq!(*entry.get(), 5);
    }
    assert!(record.drain().is_empty());
}

#[test]
fn insert_on_occupied_replaces_the_value() {
    let mut store = HashMap::from([(entity(1).to_bits(), 5u32)]);
    let mut record = EntryRecord::new();
    let mut fetch = bound_fetch();
    {
        let mut entry = occupied(&mut fetch, &mut record, &store, entity(1));
        entry.insert(10);
        assert_eq!(*entry.get(), 10);
        assert_eq!(*entry.get_mut(), 10);
    }
    write_back(&mut store, &mut record);
    assert_eq!(store[&entity(1).to_bits()], 10);
}

#[test]
fn into_mut_writes_through() {
    let mut store = HashMap::from([(entity(1).to_bits(), 5u32)]);
    let mut record = EntryRecord::new();
    let mut fetch = bound_fetch();
    *occupied(&mut fetch, &mut record, &store, entity(1)).into_mut() += 10;
    write_back(&mut store, &mut record);
    assert_eq!(store[&entity(1).to_bits()], 15);
}

#[test]
fn vacant_insert_yields_occupied() {
    let mut store: HashMap<u64, u32> = HashMap::new();
    let mut record = EntryRecord::new();
    let mut fetch = bound_fetch();
    {
        let entry = vacant(&mut fetch, &mut record, &store, entity(2)).insert(10);
        assert_eq!(*entry.get(), 10);
    }
    let entry = occupied(&mut fetch, &mut record, &store, entity(2));
    assert_eq!(*entry.get(), 10);
    write_back(&mut store, &mut record);
    assert_eq!(store[&entity(2).to_bits()], 10);
}

#[test]
fn insert_entry_sets_the_value_either_way() {
    let mut store = HashMap::from([(entity(1).to_bits(), 5u32)]);
    let mut record = EntryRecord::new();
    let mut fetch = bound_fetch();
    for index in [1, 2] {
        let snapshot = store.get(&entity(index).to_bits()).copied();
        let entry = fetch.fetch(&mut record, entity(index), index, snapshot).unwrap();
        let entry = entry.insert_entry(4);
        assert_eq!(*entry.get(), 4);
    }
    for index in [1, 2] {
        let snapshot = store.get(&entity(index).to_bits()).copied();
        let entry = fetch.fetch(&mut record, entity(index), index, snapshot).unwrap();
        let entry = entry.insert_entry(2);
        assert_eq!(*entry.get(), 2);
    }
    write_back(&mut store, &mut record);
    assert_eq!(store[&entity(1).to_bits()], 2);
    assert_eq!(store[&entity(2).to_bits()], 2);
}

#[test]
fn or_insert_on_occupied_keeps_the_value() {
    let mut store = HashMap::from([(entity(1).to_bits(), 4u32)]);
    let mut record = EntryRecord::new();
    let mut fetch = bound_fetch();
    {
        let snapshot = store.get(&entity(1).to_bits()).copied();
        let entry = fetch.fetch(&mut record, entity(1), 0, snapshot).unwrap();
        let entry = entry.or_insert(15);
        assert_eq!(*entry.get(), 4);
        *entry.into_mut() *= 2;
    }
    write_back(&mut store, &mut record);
    assert_eq!(store[&entity(1).to_bits()], 8);
}

#[test]
fn or_insert_on_occupied_records_nothing() {
    let store = HashMap::from([(entity(1).to_bits(), 4u32)]);
    let mut record = EntryRecord::new();
    let mut fetch = bound_fetch();
    {
        let entry = fetch.fetch(&mut record, entity(1), 0, Some(4)).unwrap();
        entry.or_insert(15);
        let entry = fetch.fetch(&mut record, entity(1), 0, Some(4)).unwrap();
        entry.or_insert_with(|| 16);
        let entry = fetch.fetch(&mut record, entity(1), 0, Some(4)).unwrap();
        entry.or_default();
    }
    assert_eq!(store[&entity(1).to_bits()], 4);
    assert!(record.drain().is_empty());
}

#[test]
fn or_insert_with_runs_only_for_vacant() {
    let mut record = EntryRecord::new();
    let mut fetch = bound_fetch();
    let mut calls = 0;
    {
        let entry = fetch.fetch(&mut record, entity(1), 0, None).unwrap();
        let entry = entry.or_insert_with(|| {
            calls += 1;
            4u32
        });
        assert_eq!(*entry.get(), 4);
    }
    {
        let entry = fetch.fetch(&mut record, entity(1), 0, None).unwrap();
        let entry = entry.or_insert_with(|| {
            calls += 1;
            9u32
        });
        assert_eq!(*entry.get(), 4);
    }
    assert_eq!(calls, 1);
}

#[test]
fn or_default_inserts_the_default() {
    let mut store: HashMap<u64, u32> = HashMap::new();
    let mut record = EntryRecord::new();
    let mut fetch = bound_fetch();
    {
        let entry = fetch.fetch(&mut record, entity(1), 0, None).unwrap();
        let entry = entry.or_default();
        assert_eq!(*entry.get(), 0);
    }
    write_back(&mut store, &mut record);
    assert_eq!(store[&entity(1).to_bits()], 0);
}

#[test]
fn and_modify_changes_an_occupied_entry() {
    let mut store = HashMap::from([(entity(1).to_bits(), 0u32)]);
    let mut record = EntryRecord::new();
    let mut fetch = bound_fetch();
    {
        let entry = fetch.fetch(&mut record, entity(1), 0, Some(0)).unwrap();
        let entry = entry.and_modify(|value| *value += 1);
        assert!(matches!(entry, Entry::Occupied(_)));
    }
    write_back(&mut store, &mut record);
    assert_eq!(store[&entity(1).to_bits()], 1);
}

#[test]
fn and_modify_twice_composes_in_call_order() {
    let mut store = HashMap::from([(entity(1).to_bits(), 3u32)]);
    let mut record = EntryRecord::new();
    let mut fetch = bound_fetch();
    {
        let entry = fetch.fetch(&mut record, entity(1), 0, Some(3)).unwrap();
        let entry = entry
            .and_modify(|value| *value += 4)
            .and_modify(|value| *value *= 10);
        match entry {
            Entry::Occupied(entry) => assert_eq!(*entry.get(), 70),
            Entry::Vacant(_) => panic!("the entry is vacant"),
        }
    }
    write_back(&mut store, &mut record);
    assert_eq!(store[&entity(1).to_bits()], 70);
}

#[test]
fn and_modify_leaves_a_vacant_entry_alone() {
    let mut record: EntryRecord<u32> = EntryRecord::new();
    let mut fetch = bound_fetch();
    let mut calls = 0;
    {
        let entry = fetch.fetch(&mut record, entity(1), 0, None).unwrap();
        let entry = entry.and_modify(|value| {
            calls += 1;
            *value += 1;
        });
        assert!(matches!(entry, Entry::Vacant(_)));
    }
    assert_eq!(calls, 0);
    assert!(record.drain().is_empty());
}

#[test]
fn and_modify_then_or_insert() {
    let mut record = EntryRecord::new();
    let mut fetch = bound_fetch();
    let entry = fetch.fetch(&mut record, entity(1), 0, None).unwrap();
    let entry = entry.and_modify(|value| *value += 1).or_insert(7u32);
    assert_eq!(*entry.get(), 7);
}
