//! What holds of pending changes and of their flush, for every store.

use vstd::prelude::*;

use crate::flush::{apply_ops, replay, StoreOp};
use crate::model::{flush_all, merged, stored, RecordView};

verus! {

/// Recording an insert and flushing gives the store that flushing first and
/// inserting afterwards gives.
pub proof fn lemma_flush_insert<T>(pending: RecordView<T>, store: Map<u64, T>, entity: u64, value: T)
    ensures
        pending.insert(entity, value).flush(store) == pending.flush(store).insert(entity, value),
{
    assert(pending.insert(entity, value).flush(store) =~= pending.flush(store).insert(
        entity,
        value,
    ));
}

/// Recording a removal and flushing gives the store that flushing first and
/// removing afterwards gives.
pub proof fn lemma_flush_remove<T>(pending: RecordView<T>, store: Map<u64, T>, entity: u64)
    ensures
        pending.remove(entity).flush(store) == pending.flush(store).remove(entity),
{
    assert(pending.remove(entity).flush(store) =~= pending.flush(store).remove(entity));
}

/// Performing operations on a store is flushing what recording them leaves.
pub proof fn lemma_replay_flush<T>(store: Map<u64, T>, ops: Seq<StoreOp<T>>)
    ensures
        apply_ops(store, ops) == replay(ops).flush(store),
    decreases ops.len(),
{
    if ops.len() == 0 {
        assert(RecordView::<T>::empty().flush(store) =~= store);
    } else {
        lemma_replay_flush(store, ops.drop_last());
        match ops.last() {
            StoreOp::Remove(entity) => {
                lemma_flush_remove(replay(ops.drop_last()), store, entity@);
            },
            StoreOp::Insert(entity, value) => {
                lemma_flush_insert(replay(ops.drop_last()), store, entity@, value);
            },
        }
    }
}

/// Flushing two sets of changes one after the other is flushing them as one.
pub proof fn lemma_flush_followed_by<T>(
    first: RecordView<T>,
    second: RecordView<T>,
    store: Map<u64, T>,
)
    ensures
        first.followed_by(second).flush(store) == second.flush(first.flush(store)),
{
    assert(first.followed_by(second).flush(store) =~= second.flush(first.flush(store)));
}

/// Flushing records in order is flushing their merged changes.
pub proof fn lemma_flush_merged<T>(store: Map<u64, T>, records: Seq<RecordView<T>>)
    ensures
        flush_all(store, records) == merged(records).flush(store),
    decreases records.len(),
{
    if records.len() == 0 {
        assert(RecordView::<T>::empty().flush(store) =~= store);
    } else {
        lemma_flush_merged(store, records.drop_last());
        lemma_flush_followed_by(merged(records.drop_last()), records.last(), store);
    }
}

/// Recording two runs of operations one after the other leaves the changes
/// of the first followed by those of the second.
pub proof fn lemma_replay_concat<T>(first: Seq<StoreOp<T>>, second: Seq<StoreOp<T>>)
    ensures
        replay(first + second) == replay(first).followed_by(replay(second)),
    decreases second.len(),
{
    if second.len() == 0 {
        assert(first + second =~= first);
        assert(replay(first).followed_by(RecordView::empty()) =~= replay(first));
    } else {
        lemma_replay_concat(first, second.drop_last());
        assert((first + second).drop_last() =~= first + second.drop_last());
        assert((first + second).last() == second.last());
        let a = replay(first);
        let b = replay(second.drop_last());
        match second.last() {
            StoreOp::Remove(entity) => {
                assert(a.followed_by(b).remove(entity@) =~= a.followed_by(b.remove(entity@)));
            },
            StoreOp::Insert(entity, value) => {
                assert(a.followed_by(b).insert(entity@, value) =~= a.followed_by(
                    b.insert(entity@, value),
                ));
            },
        }
    }
}

/// What a flush leaves for an entity depends on the store only through the
/// value that the store held for that entity.
pub proof fn lemma_flush_at<T>(pending: RecordView<T>, store: Map<u64, T>, entity: u64)
    ensures
        stored(pending.flush(store), entity) == (if pending.inserts.contains_key(entity) {
            Some(pending.inserts[entity])
        } else if pending.removes.contains(entity) {
            None
        } else {
            stored(store, entity)
        }),
{
}

/// An entity that no record touches keeps the value the store held for it,
/// or stays without one.
pub proof fn law_untouched_unchanged<T>(
    store: Map<u64, T>,
    records: Seq<RecordView<T>>,
    entity: u64,
)
    requires
        forall|i: int| 0 <= i < records.len() ==> (#[trigger] records[i]).untouched(entity),
    ensures
        stored(flush_all(store, records), entity) == stored(store, entity),
    decreases records.len(),
{
    if records.len() > 0 {
        assert(records.last() == records[records.len() - 1]);
        assert forall|i: int| 0 <= i < records.drop_last().len() implies (
        #[trigger] records.drop_last()[i]).untouched(entity) by {
            assert(records.drop_last()[i] == records[i]);
        }
        law_untouched_unchanged(store, records.drop_last(), entity);
        lemma_flush_at(records.last(), flush_all(store, records.drop_last()), entity);
    }
}

/// Where only one record touches an entity, flushing all records leaves for
/// that entity what flushing that record alone leaves.
pub proof fn lemma_owner_decides<T>(
    store: Map<u64, T>,
    records: Seq<RecordView<T>>,
    owner: int,
    entity: u64,
)
    requires
        0 <= owner < records.len(),
        forall|i: int|
            0 <= i < records.len() && i != owner ==> (#[trigger] records[i]).untouched(entity),
    ensures
        stored(flush_all(store, records), entity) == stored(records[owner].flush(store), entity),
    decreases records.len(),
{
    let init = records.drop_last();
    assert(records.last() == records[records.len() - 1]);
    assert forall|i: int| 0 <= i < init.len() implies #[trigger] init[i] == records[i] by {}
    lemma_flush_at(records.last(), flush_all(store, init), entity);
    if owner == records.len() - 1 {
        assert forall|i: int| 0 <= i < init.len() implies (#[trigger] init[i]).untouched(
            entity,
        ) by {
            assert(init[i] == records[i]);
        }
        law_untouched_unchanged(store, init, entity);
        lemma_flush_at(records[owner], store, entity);
    } else {
        assert forall|i: int| 0 <= i < init.len() && i != owner implies (
        #[trigger] init[i]).untouched(entity) by {
            assert(init[i] == records[i]);
        }
        lemma_owner_decides(store, init, owner, entity);
    }
}

/// After a flush an entity holds what its worker recorded last: the value of
/// the last insert, nothing after a last removal, and what the store held
/// where the worker recorded nothing. `owner` is the slot of the worker that
/// visited the entity; no other record touches it.
pub proof fn law_last_write_decides<T>(
    store: Map<u64, T>,
    records: Seq<RecordView<T>>,
    owner: int,
    before: RecordView<T>,
    entity: u64,
    value: T,
)
    requires
        0 <= owner < records.len(),
        forall|i: int|
            0 <= i < records.len() && i != owner ==> (#[trigger] records[i]).untouched(entity),
    ensures
        records[owner] == before.insert(entity, value) ==> stored(
            flush_all(store, records),
            entity,
        ) == Some(value),
        records[owner] == before.remove(entity) ==> stored(flush_all(store, records), entity)
            is None,
        records[owner].untouched(entity) ==> stored(flush_all(store, records), entity) == stored(
            store,
            entity,
        ),
{
    lemma_owner_decides(store, records, owner, entity);
    lemma_flush_at(records[owner], store, entity);
}

/// An insert followed by a removal of the same entity leaves the removal
/// alone pending, a removal followed by an insert leaves the insert alone
/// pending with its value, and neither leaves both.
pub proof fn law_last_write_wins<T>(pending: RecordView<T>, entity: u64, value: T)
    ensures
        pending.insert(entity, value).remove(entity) == pending.remove(entity),
        pending.remove(entity).insert(entity, value) == pending.insert(entity, value),
        pending.remove(entity).removes.contains(entity),
        !pending.remove(entity).inserts.contains_key(entity),
        pending.insert(entity, value).inserts.contains_key(entity),
        pending.insert(entity, value).inserts[entity] == value,
        !pending.insert(entity, value).removes.contains(entity),
        pending.exclusive() ==> pending.insert(entity, value).exclusive(),
        pending.exclusive() ==> pending.remove(entity).exclusive(),
{
    assert(pending.insert(entity, value).remove(entity) =~= pending.remove(entity));
    assert(pending.remove(entity).insert(entity, value) =~= pending.insert(entity, value));
}

/// No entity is touched by two of the records.
pub open spec fn disjoint_records<T>(records: Seq<RecordView<T>>) -> bool {
    forall|i: int, j: int, entity: u64|
        0 <= i < records.len() && 0 <= j < records.len() && i != j ==> !(
        #[trigger] records[i].touched().contains(entity)
            && #[trigger] records[j].touched().contains(entity))
}

/// `order` lists each of the slots below `count` exactly once.
pub open spec fn is_slot_order(order: Seq<int>, count: nat) -> bool {
    &&& order.len() == count
    &&& forall|i: int| 0 <= i < order.len() ==> 0 <= #[trigger] order[i] < count
    &&& forall|i: int, j: int|
        0 <= i < order.len() && 0 <= j < order.len() && i != j ==> #[trigger] order[i]
            != #[trigger] order[j]
    &&& forall|slot: int| 0 <= slot < count ==> #[trigger] order.contains(slot)
}

/// The records taken in the given order of slots.
pub open spec fn reordered<T>(records: Seq<RecordView<T>>, order: Seq<int>) -> Seq<RecordView<T>> {
    Seq::new(order.len(), |i: int| records[order[i]])
}

/// Where no entity is touched by two records, flushing the records in any
/// order of their slots leaves the same store.
pub proof fn law_flush_order_irrelevant<T>(
    store: Map<u64, T>,
    records: Seq<RecordView<T>>,
    order: Seq<int>,
)
    requires
        disjoint_records(records),
        is_slot_order(order, records.len()),
    ensures
        flush_all(store, reordered(records, order)) == flush_all(store, records),
{
    let other = reordered(records, order);
    assert forall|entity: u64|
        stored(flush_all(store, other), entity) == stored(
            flush_all(store, records),
            entity,
        ) by {
        if exists|slot: int|
            0 <= slot < records.len() && (#[trigger] records[slot]).touched().contains(entity) {
            let slot = choose|slot: int|
                0 <= slot < records.len() && (#[trigger] records[slot]).touched().contains(
                    entity,
                );
            assert(order.contains(slot));
            let at = choose|i: int| 0 <= i < order.len() && order[i] == slot;
            assert forall|i: int| 0 <= i < records.len() && i != slot implies (
            #[trigger] records[i]).untouched(entity) by {
                assert(!(records[i].touched().contains(entity) && records[slot].touched().contains(
                    entity,
                )));
            }
            assert forall|i: int| 0 <= i < other.len() && i != at implies (
            #[trigger] other[i]).untouched(entity) by {
                assert(order[i] != order[at]);
                assert(other[i] == records[order[i]]);
                assert(records[order[i]].untouched(entity));
            }
            lemma_owner_decides(store, records, slot, entity);
            lemma_owner_decides(store, other, at, entity);
            assert(other[at] == records[slot]);
        } else {
            assert forall|i: int| 0 <= i < records.len() implies (
            #[trigger] records[i]).untouched(entity) by {
                assert(!records[i].touched().contains(entity));
            }
            assert forall|i: int| 0 <= i < other.len() implies (#[trigger] other[i]).untouched(
                entity,
            ) by {
                assert(other[i] == records[order[i]]);
                assert(records[order[i]].untouched(entity));
            }
            law_untouched_unchanged(store, records, entity);
            law_untouched_unchanged(store, other, entity);
        }
    }
    let a = flush_all(store, other);
    let b = flush_all(store, records);
    assert forall|entity: u64| a.dom().contains(entity) <==> b.dom().contains(entity) by {
        assert(stored(a, entity) == stored(b, entity));
    }
    assert(a.dom() =~= b.dom());
    assert forall|entity: u64| #[trigger] a.dom().contains(entity) implies a[entity]
        == b[entity] by {
        assert(stored(a, entity) == stored(b, entity));
    }
    assert(a =~= b);
}

} // verus!
