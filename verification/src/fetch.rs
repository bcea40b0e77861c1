//! The protocol between the scan's driver and the entry view.
//!
//! Before a scan the state is set up for one component type and declares what
//! the scan needs of the store: shared read access to that component, nothing
//! more, since every change is deferred. During the scan the driver binds the
//! adapter to one table after the other and asks it for an entry per visited
//! row. A driver that breaks the order of these calls is told so at once.

use vstd::prelude::*;

use crate::entity::EntityId;
use crate::entry::{Entry, OccupiedEntry, VacantEntry};
use crate::record::EntryRecord;

verus! {

/// How a scan uses a component of the store.
#[derive(Clone, Copy, Debug, PartialEq, Eq, Structural)]
pub enum AccessMode {
    /// Shared access: any number of scans may hold it at once.
    Read,
    /// Exclusive access.
    Write,
}

/// What a scan declares to the scheduler before it runs.
#[derive(Clone, Copy, Debug, PartialEq, Eq, Structural)]
pub struct AccessRequest {
    /// The index of the component type in the store.
    pub component: usize,
    /// The access that the scan needs to it.
    pub mode: AccessMode,
}

/// Why a scan could not be set up.
#[derive(Clone, Copy, Debug, PartialEq, Eq, Structural)]
pub enum SetupError {
    /// The component type was never registered in the store.
    UnregisteredComponent,
}

/// How the driver broke the order of calls.
#[derive(Clone, Copy, Debug, PartialEq, Eq, Structural)]
pub enum ProtocolError {
    /// An entry was asked for before any table was bound.
    NotBound,
    /// A table was bound that had been bound before in this scan.
    TableRebound,
    /// The adapter was used after the scan had ended.
    Exhausted,
}

/// Where the adapter stands in the scan.
#[derive(Clone, Copy, Debug, PartialEq, Eq, Structural)]
pub enum Phase {
    /// No table has been bound yet.
    Uninitialized,
    /// A table is bound and none of its rows has been visited.
    Bound { table: u32 },
    /// A row of the bound table has been visited.
    Visiting { table: u32, row: u32 },
    /// The scan has ended.
    Exhausted,
}

/// What is fixed for the length of one scan: the component type that the
/// entries are about.
#[derive(Clone, Copy, Debug, PartialEq, Eq, Structural)]
pub struct EntryState {
    component: usize,
}

impl EntryState {
    /// The index of the component type in the store.
    pub closed spec fn component(&self) -> usize {
        self.component
    }

    /// Sets the state up for the component type whose index the store has
    /// resolved to `resolved`; a type that the store does not know is
    /// reported here, before any entity is visited.
    pub fn init_state(resolved: Option<usize>) -> (state: Result<EntryState, SetupError>)
        ensures
            match resolved {
                Some(component) => state matches Ok(s) && s.component() == component,
                None => state == Err::<EntryState, SetupError>(SetupError::UnregisteredComponent),
            },
    {
        match resolved {
            Some(component) => Ok(EntryState { component }),
            None => Err(SetupError::UnregisteredComponent),
        }
    }

    /// The state for the component type whose index the store has resolved
    /// to `resolved`, if the store knows the type.
    pub fn get_state(resolved: Option<usize>) -> (state: Option<EntryState>)
        ensures
            match resolved {
                Some(component) => state matches Some(s) && s.component() == component,
                None => state is None,
            },
    {
        match resolved {
            Some(component) => Some(EntryState { component }),
            None => None,
        }
    }

    /// The index of the component type in the store.
    pub fn component_index(&self) -> (component: usize)
        ensures
            component == self.component(),
    {
        self.component
    }

    /// What the scan declares: shared read access to the component. Changes
    /// go to the workers' records, which are no part of the store, so the
    /// scan can run beside others that read the same component.
    pub fn update_component_access(&self) -> (request: AccessRequest)
        ensures
            request == (AccessRequest { component: self.component(), mode: AccessMode::Read }),
    {
        AccessRequest { component: self.component, mode: AccessMode::Read }
    }

    /// Whether the scan visits entities of a table, given whether the table
    /// holds the component: it does either way, since an entry can be vacant.
    pub fn matches_component_set(&self, has_component: bool) -> (visits: bool)
        ensures
            visits,
    {
        true
    }
}

/// What binding `table` does in a given phase with the given tables bound so
/// far: the error, or nothing.
pub open spec fn bind_outcome(phase: Phase, tables: Seq<u32>, table: u32) -> Option<ProtocolError> {
    if phase is Exhausted {
        Some(ProtocolError::Exhausted)
    } else if tables.contains(table) {
        Some(ProtocolError::TableRebound)
    } else {
        None
    }
}

/// What asking for an entry does in a given phase: the error, or the table
/// whose row is visited.
pub open spec fn fetch_outcome(phase: Phase) -> Result<u32, ProtocolError> {
    match phase {
        Phase::Uninitialized => Err(ProtocolError::NotBound),
        Phase::Bound { table } => Ok(table),
        Phase::Visiting { table, row } => Ok(table),
        Phase::Exhausted => Err(ProtocolError::Exhausted),
    }
}

/// The adapter of one worker for one scan.
pub struct EntryFetch {
    state: EntryState,
    last_run: u32,
    this_run: u32,
    phase: Phase,
    tables: Vec<u32>,
}

impl EntryFetch {
    /// Where the adapter stands in the scan.
    pub closed spec fn phase(&self) -> Phase {
        self.phase
    }

    /// The tables bound so far, in the order of binding.
    pub closed spec fn tables(&self) -> Seq<u32> {
        self.tables@
    }

    /// The state that the adapter was made for.
    pub closed spec fn state(&self) -> EntryState {
        self.state
    }

    /// The ticks of the last and of this run, as they were handed in.
    pub closed spec fn ticks(&self) -> (u32, u32) {
        (self.last_run, self.this_run)
    }

    /// No table is bound twice, and the bound table is among those bound.
    pub closed spec fn wf(&self) -> bool {
        &&& self.tables@.no_duplicates()
        &&& match self.phase {
            Phase::Uninitialized => self.tables@.len() == 0,
            Phase::Bound { table } => self.tables@.len() > 0 && self.tables@.last() == table,
            Phase::Visiting { table, row } => self.tables@.len() > 0 && self.tables@.last()
                == table,
            Phase::Exhausted => true,
        }
    }

    /// The adapter at the start of a scan. The ticks are kept as they are and
    /// handed back by `last_run` and `this_run`.
    pub fn new(state: &EntryState, last_run: u32, this_run: u32) -> (fetch: EntryFetch)
        ensures
            fetch.wf(),
            fetch.phase() == Phase::Uninitialized,
            fetch.tables() == Seq::<u32>::empty(),
            fetch.state() == *state,
            fetch.ticks() == (last_run, this_run),
    {
        EntryFetch {
            state: *state,
            last_run,
            this_run,
            phase: Phase::Uninitialized,
            tables: Vec::new(),
        }
    }

    /// Where the adapter stands in the scan.
    pub fn current_phase(&self) -> (phase: Phase)
        ensures
            phase == self.phase(),
    {
        self.phase
    }

    /// The tick of the run before this one.
    pub fn last_run(&self) -> (tick: u32)
        ensures
            tick == self.ticks().0,
    {
        self.last_run
    }

    /// The tick of this run.
    pub fn this_run(&self) -> (tick: u32)
        ensures
            tick == self.ticks().1,
    {
        self.this_run
    }

    /// Whether `table` has been bound in this scan.
    fn was_bound(&self, table: u32) -> (bound: bool)
        ensures
            bound == self.tables().contains(table),
    {
        let mut i: usize = 0;
        while i < self.tables.len()
            invariant
                i <= self.tables@.len(),
                forall|n: int| 0 <= n < i ==> self.tables@[n] != table,
            decreases self.tables.len() - i,
        {
            if self.tables[i] == table {
                return true;
            }
            i += 1;
        }
        false
    }

    /// Binds the adapter to `table`, whose rows are visited next. Each table
    /// is bound once in a scan; binding one again, or binding after the scan
    /// has ended, is refused and leaves the adapter as it was.
    pub fn set_table(&mut self, table: u32) -> (outcome: Result<(), ProtocolError>)
        requires
            old(self).wf(),
        ensures
            final(self).wf(),
            final(self).state() == old(self).state(),
            final(self).ticks() == old(self).ticks(),
            match bind_outcome(old(self).phase(), old(self).tables(), table) {
                Some(error) => outcome == Err::<(), ProtocolError>(error) && final(self).phase()
                    == old(self).phase() && final(self).tables() == old(self).tables(),
                None => outcome is Ok && final(self).phase() == (Phase::Bound { table })
                    && final(self).tables() == old(self).tables().push(table),
            },
            outcome is Ok ==> final(self).tables().contains(table),
    {
        match self.phase {
            Phase::Exhausted => {
                return Err(ProtocolError::Exhausted);
            },
            _ => {},
        }
        if self.was_bound(table) {
            return Err(ProtocolError::TableRebound);
        }
        self.tables.push(table);
        self.phase = Phase::Bound { table };
        assert(self.tables@.last() == table);
        Ok(())
    }

    /// Binds the adapter to the table of `archetype`; the rows of the table
    /// are visited next. The same as `set_table` for that table.
    pub fn set_archetype(&mut self, archetype: u32, table: u32) -> (outcome: Result<
        (),
        ProtocolError,
    >)
        requires
            old(self).wf(),
        ensures
            final(self).wf(),
            final(self).state() == old(self).state(),
            final(self).ticks() == old(self).ticks(),
            match bind_outcome(old(self).phase(), old(self).tables(), table) {
                Some(error) => outcome == Err::<(), ProtocolError>(error) && final(self).phase()
                    == old(self).phase() && final(self).tables() == old(self).tables(),
                None => outcome is Ok && final(self).phase() == (Phase::Bound { table })
                    && final(self).tables() == old(self).tables().push(table),
            },
            outcome is Ok ==> final(self).tables().contains(table),
    {
        self.set_table(table)
    }

    /// The entry for `entity`, which lies in row `row` of the bound table and
    /// whose component value in the store is `snapshot`. The entry is occupied
    /// where the worker's record shows a value for the entity, vacant where it
    /// shows none, and is bound to that record. Asked before a table is
    /// bound, or after the scan has ended, the adapter refuses and leaves
    /// itself and the record as they were.
    pub fn fetch<'s, T>(
        &mut self,
        record: &'s mut EntryRecord<T>,
        entity: EntityId,
        row: u32,
        snapshot: Option<T>,
    ) -> (outcome: Result<Entry<'s, T>, ProtocolError>)
        requires
            old(self).wf(),
            old(record).wf(),
        ensures
            final(self).wf(),
            final(self).tables() == old(self).tables(),
            final(self).state() == old(self).state(),
            final(self).ticks() == old(self).ticks(),
            match fetch_outcome(old(self).phase()) {
                Err(error) => {
                    &&& outcome matches Err(e) && e == error
                    &&& final(self).phase() == old(self).phase()
                    &&& *final(record) == *old(record)
                },
                Ok(table) => {
                    &&& final(self).phase() == (Phase::Visiting { table, row })
                    &&& outcome matches Ok(entry) && entry.wf() && entry.entity() == entity
                        && match old(record)@.visible(entity@, snapshot) {
                        Some(value) => {
                            &&& entry matches Entry::Occupied(occupied)
                            &&& occupied.value() == value
                            &&& occupied.snapshot == snapshot
                            &&& occupied.record@ == old(record)@
                            &&& *final(occupied.record) == *final(record)
                        },
                        None => {
                            &&& entry matches Entry::Vacant(vacant)
                            &&& vacant.record@ == old(record)@
                            &&& *final(vacant.record) == *final(record)
                        },
                    }
                },
            },
    {
        let table = match self.phase {
            Phase::Uninitialized => {
                return Err(ProtocolError::NotBound);
            },
            Phase::Exhausted => {
                return Err(ProtocolError::Exhausted);
            },
            Phase::Bound { table } => table,
            Phase::Visiting { table, row: _ } => table,
        };
        self.phase = Phase::Visiting { table, row };
        proof {
            record.lemma_exclusive();
        }
        let occupied = record.lookup(entity, snapshot.as_ref()).is_some();
        if occupied {
            Ok(Entry::Occupied(OccupiedEntry { entity, record, snapshot }))
        } else {
            Ok(Entry::Vacant(VacantEntry { entity, record }))
        }
    }

    /// Ends the scan: from now on the adapter refuses to bind and to fetch.
    pub fn finish(&mut self)
        requires
            old(self).wf(),
        ensures
            final(self).wf(),
            final(self).phase() == Phase::Exhausted,
            final(self).tables() == old(self).tables(),
            final(self).state() == old(self).state(),
            final(self).ticks() == old(self).ticks(),
    {
        self.phase = Phase::Exhausted;
    }
}

impl Clone for EntryFetch {
    /// An adapter that stands where this one stands.
    fn clone(&self) -> (copy: Self)
        ensures
            copy.wf() == self.wf(),
            copy.phase() == self.phase(),
            copy.tables() == self.tables(),
            copy.state() == self.state(),
            copy.ticks() == self.ticks(),
    {
        let copy = EntryFetch {
            state: self.state,
            last_run: self.last_run,
            this_run: self.this_run,
            phase: self.phase,
            tables: self.tables.clone(),
        };
        assert(copy.tables@ =~= self.tables@);
        copy
    }
}

} // verus!
