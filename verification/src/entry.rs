//! The occupied/vacant view of one component on one visited entity.
//!
//! An entry is bound to the entity, to the record of the worker that visits
//! it, and to the value that the store held for the entity when the visit
//! began. Whatever is done through the entry goes into the record; the store
//! itself stays as it is until the flush.

use vstd::prelude::*;

use crate::entity::EntityId;
use crate::record::EntryRecord;

verus! {

/// An entry whose entity has the component, as far as this worker can see.
pub struct OccupiedEntry<'s, T> {
    /// The visited entity.
    pub entity: EntityId,
    /// The record of the visiting worker.
    pub record: &'s mut EntryRecord<T>,
    /// The value the store held for the entity, where the entry still keeps
    /// it.
    pub snapshot: Option<T>,
}

/// An entry whose entity lacks the component, as far as this worker can see.
pub struct VacantEntry<'s, T> {
    /// The visited entity.
    pub entity: EntityId,
    /// The record of the visiting worker.
    pub record: &'s mut EntryRecord<T>,
}

impl<'s, T> OccupiedEntry<'s, T> {
    /// The record is well-formed and shows a value for the entity.
    pub open spec fn wf(&self) -> bool {
        &&& self.record.wf()
        &&& self.record@.visible(self.entity@, self.snapshot) is Some
    }

    /// The component value that the entry stands for: the pending value where
    /// one is pending, else the value the store held.
    pub open spec fn value(&self) -> T {
        self.record@.visible(self.entity@, self.snapshot)->0
    }

    /// The current component value.
    pub fn get(&self) -> (value: &T)
        requires
            self.wf(),
        ensures
            *value == self.value(),
    {
        self.record.lookup(self.entity, self.snapshot.as_ref()).unwrap()
    }

    /// Replaces the component value. The new value is pending in the record
    /// from now on, and is what `get` and `get_mut` show.
    pub fn insert(&mut self, component: T)
        requires
            old(self).wf(),
        ensures
            final(self).wf(),
            final(self).value() == component,
            final(self).record@ == old(self).record@.insert(old(self).entity@, component),
            final(self).entity == old(self).entity,
            final(self).snapshot == old(self).snapshot,
            *final(final(self).record) == *final(old(self).record),
    {
        self.record.record_insert(self.entity, component);
    }

    /// Removes the component and hands its last value back. The removal is
    /// pending in the record from now on, in place of any pending insert.
    pub fn take(self) -> (value: T)
        requires
            self.wf(),
        ensures
            value == self.value(),
            final(self.record).wf(),
            final(self.record)@ == old(self.record)@.remove(self.entity@),
            forall|snapshot: Option<T>|
                (#[trigger] final(self.record)@.visible(self.entity@, snapshot)) is None,
    {
        let OccupiedEntry { entity, record, snapshot } = self;
        match record.record_remove(entity) {
            Some(pending) => pending,
            None => snapshot.unwrap(),
        }
    }

    /// A mutable handle on the component value. The value is pending in the
    /// record from now on, so what is written through the handle is what a
    /// later `get` or `get_mut` shows and what the flush writes.
    pub fn get_mut(&mut self) -> (value: &mut T)
        requires
            old(self).wf(),
        ensures
            *value == old(self).value(),
            final(self).wf(),
            final(self).value() == *final(value),
            final(self).record@ == old(self).record@.insert(old(self).entity@, *final(value)),
            final(self).entity == old(self).entity,
            *final(final(self).record) == *final(old(self).record),
    {
        if !self.record.is_inserted(self.entity) {
            let held = self.snapshot.take().unwrap();
            self.record.record_insert(self.entity, held);
        }
        let ghost pending = self.record@;
        proof {
            assert(pending.insert(self.entity@, pending.inserts[self.entity@]) =~= old(
                self,
            ).record@.insert(self.entity@, old(self).value()));
        }
        let value = self.record.get_mut(self.entity);
        proof {
            assert(pending.insert(self.entity@, *final(value)) =~= old(self).record@.insert(
                self.entity@,
                *final(value),
            ));
        }
        value
    }

    /// Turns the entry into a mutable handle on the component value that lives
    /// as long as the borrow of the record.
    pub fn into_mut(self) -> (value: &'s mut T)
        requires
            self.wf(),
        ensures
            *value == self.value(),
            final(self.record).wf(),
            final(self.record)@ == old(self.record)@.insert(self.entity@, *final(value)),
    {
        let OccupiedEntry { entity, record, snapshot } = self;
        if !record.is_inserted(entity) {
            record.record_insert(entity, snapshot.unwrap());
        }
        let ghost pending = record@;
        let value = record.get_mut(entity);
        proof {
            assert(pending.insert(entity@, *final(value)) =~= self.record@.insert(
                entity@,
                *final(value),
            ));
        }
        value
    }
}

impl<'s, T> VacantEntry<'s, T> {
    /// The record is well-formed and holds no pending value for the entity.
    pub open spec fn wf(&self) -> bool {
        &&& self.record.wf()
        &&& !self.record@.inserts.contains_key(self.entity@)
    }

    /// Gives the entity the component. The value is pending in the record from
    /// now on, in place of any pending removal.
    pub fn insert(self, component: T) -> (entry: OccupiedEntry<'s, T>)
        requires
            self.wf(),
        ensures
            entry.wf(),
            entry.value() == component,
            entry.entity == self.entity,
            entry.snapshot is None,
            entry.record@ == old(self.record)@.insert(self.entity@, component),
            *final(entry.record) == *final(self.record),
    {
        let VacantEntry { entity, record } = self;
        record.record_insert(entity, component);
        OccupiedEntry { entity, record, snapshot: None }
    }
}

/// A view of one component on one visited entity: there, or not there.
pub enum Entry<'s, T> {
    /// The entity has the component.
    Occupied(OccupiedEntry<'s, T>),
    /// The entity lacks the component.
    Vacant(VacantEntry<'s, T>),
}

impl<'s, T> Entry<'s, T> {
    /// The entry of either kind is well-formed.
    pub open spec fn wf(&self) -> bool {
        match self {
            Entry::Occupied(entry) => entry.wf(),
            Entry::Vacant(entry) => entry.wf(),
        }
    }

    /// The visited entity.
    pub open spec fn entity(&self) -> EntityId {
        match self {
            Entry::Occupied(entry) => entry.entity,
            Entry::Vacant(entry) => entry.entity,
        }
    }

    /// Lets `f` change the value of an occupied entry in place; a vacant entry
    /// is handed back as it is. For an occupied entry `f` runs once, on a
    /// handle that shows the entry's value, and what it leaves behind the
    /// handle is the entry's value and pending in the record from then on.
    pub fn and_modify<F: FnOnce(&mut T)>(self, f: F) -> (entry: Self)
        requires
            self.wf(),
            self matches Entry::Occupied(occupied) ==> forall|handle: &mut T|
                *handle == occupied.value() ==> call_requires(f, (handle,)),
        ensures
            self is Vacant ==> entry == self,
            self matches Entry::Occupied(before) ==> entry matches Entry::Occupied(after)
                && after.wf() && after.entity == before.entity
                && *final(after.record) == *final(before.record) && exists|handle: &mut T|
                {
                    &&& *handle == before.value()
                    &&& #[trigger] call_ensures(f, (handle,), ())
                    &&& after.value() == *final(handle)
                    &&& after.record@ == before.record@.insert(before.entity@, *final(handle))
                },
    {
        match self {
            Entry::Occupied(mut occupied) => {
                let handle = occupied.get_mut();
                f(handle);
                Entry::Occupied(occupied)
            },
            Entry::Vacant(vacant) => Entry::Vacant(vacant),
        }
    }

    /// Sets the component value, whether or not the entity had one.
    pub fn insert_entry(self, component: T) -> (entry: OccupiedEntry<'s, T>)
        requires
            self.wf(),
        ensures
            entry.wf(),
            entry.value() == component,
            entry.entity == self.entity(),
            self matches Entry::Occupied(before) ==> entry.record@ == before.record@.insert(
                before.entity@,
                component,
            ) && *final(entry.record) == *final(before.record),
            self matches Entry::Vacant(before) ==> entry.record@ == before.record@.insert(
                before.entity@,
                component,
            ) && *final(entry.record) == *final(before.record),
    {
        match self {
            Entry::Occupied(mut occupied) => {
                occupied.insert(component);
                occupied
            },
            Entry::Vacant(vacant) => vacant.insert(component),
        }
    }

    /// The occupied entry as it is, or the vacant entry filled with
    /// `default`.
    pub fn or_insert(self, default: T) -> (entry: OccupiedEntry<'s, T>)
        requires
            self.wf(),
        ensures
            entry.wf(),
            self matches Entry::Occupied(before) ==> entry == before,
            self matches Entry::Vacant(before) ==> entry.value() == default && entry.entity
                == before.entity && entry.record@ == before.record@.insert(
                before.entity@,
                default,
            ) && *final(entry.record) == *final(before.record),
    {
        match self {
            Entry::Occupied(occupied) => occupied,
            Entry::Vacant(vacant) => vacant.insert(default),
        }
    }

    /// The occupied entry as it is, or the vacant entry filled with what
    /// `default` produces. `default` runs only for a vacant entry.
    pub fn or_insert_with<F: FnOnce() -> T>(self, default: F) -> (entry: OccupiedEntry<'s, T>)
        requires
            self.wf(),
            self is Vacant ==> call_requires(default, ()),
        ensures
            entry.wf(),
            self matches Entry::Occupied(before) ==> entry == before,
            self matches Entry::Vacant(before) ==> call_ensures(default, (), entry.value())
                && entry.entity == before.entity && entry.record@ == before.record@.insert(
                before.entity@,
                entry.value(),
            ) && *final(entry.record) == *final(before.record),
    {
        match self {
            Entry::Occupied(occupied) => occupied,
            Entry::Vacant(vacant) => vacant.insert(default()),
        }
    }
}

impl<'s, T: Default> Entry<'s, T> {
    /// The occupied entry as it is, or the vacant entry filled with the
    /// default value of `T`.
    pub fn or_default(self) -> (entry: OccupiedEntry<'s, T>)
        requires
            self.wf(),
        ensures
            entry.wf(),
            self matches Entry::Occupied(before) ==> entry == before,
            self matches Entry::Vacant(before) ==> call_ensures(T::default, (), entry.value())
                && entry.entity == before.entity && entry.record@ == before.record@.insert(
                before.entity@,
                entry.value(),
            ) && *final(entry.record) == *final(before.record),
    {
        match self {
            Entry::Occupied(occupied) => occupied,
            Entry::Vacant(vacant) => vacant.insert(T::default()),
        }
    }
}

/// Two modifications of an occupied entry, one after the other, compose: the
/// second closure sees what the first left, and what the second leaves is the
/// entry's value and pending in the record. `middle` is what `and_modify`
/// with `f` makes of `start`, and `end` what `and_modify` with `g` makes of
/// `middle`.
pub proof fn law_and_modify_composes<'s, T, F: FnOnce(&mut T), G: FnOnce(&mut T)>(
    start: OccupiedEntry<'s, T>,
    f: F,
    middle: OccupiedEntry<'s, T>,
    g: G,
    end: OccupiedEntry<'s, T>,
)
    requires
        start.wf(),
        middle.entity == start.entity,
        exists|handle: &mut T|
            {
                &&& *handle == start.value()
                &&& #[trigger] call_ensures(f, (handle,), ())
                &&& middle.value() == *final(handle)
                &&& middle.record@ == start.record@.insert(start.entity@, *final(handle))
            },
        end.entity == middle.entity,
        exists|handle: &mut T|
            {
                &&& *handle == middle.value()
                &&& #[trigger] call_ensures(g, (handle,), ())
                &&& end.value() == *final(handle)
                &&& end.record@ == middle.record@.insert(middle.entity@, *final(handle))
            },
    ensures
        exists|first: &mut T, second: &mut T|
            {
                &&& *first == start.value()
                &&& #[trigger] call_ensures(f, (first,), ())
                &&& *second == *final(first)
                &&& #[trigger] call_ensures(g, (second,), ())
                &&& end.value() == *final(second)
                &&& old(end.record)@ == old(start.record)@.insert(start.entity@, *final(second))
            },
{
    let first = choose|handle: &mut T|
        {
            &&& *handle == start.value()
            &&& #[trigger] call_ensures(f, (handle,), ())
            &&& middle.value() == *final(handle)
            &&& middle.record@ == start.record@.insert(start.entity@, *final(handle))
        };
    let second = choose|handle: &mut T|
        {
            &&& *handle == middle.value()
            &&& #[trigger] call_ensures(g, (handle,), ())
            &&& end.value() == *final(handle)
            &&& end.record@ == middle.record@.insert(middle.entity@, *final(handle))
        };
    assert(end.record@ =~= start.record@.insert(start.entity@, *final(second)));
    assert(call_ensures(f, (first,), ()) && call_ensures(g, (second,), ()));
}

} // verus!
