//! The hashed entity collections of `bevy_ecs`, as far as records use them.
//!
//! Nothing in this module is proved. Each function states what the collection
//! method it calls does to the collection's contents, which are named by
//! [`members`] and [`slots`] and keyed by the entities' bit patterns.

use bevy_ecs::entity::{Entity, EntityHashMap, EntityHashSet};
use vstd::prelude::*;

use crate::entity::is_entity_bits;

verus! {

/// `bevy_ecs::entity::EntityHashSet`, carried as an opaque value: what it
/// holds is known only through [`members`].
#[verifier::external_type_specification]
#[verifier::external_body]
pub struct ExEntityHashSet(EntityHashSet);

/// `bevy_ecs::entity::EntityHashMap`, carried as an opaque value: what one
/// with `usize` values holds is known only through [`slots`].
#[verifier::external_type_specification]
#[verifier::external_body]
#[verifier::reject_recursive_types(V)]
pub struct ExEntityHashMap<V>(EntityHashMap<V>);

/// The bit patterns of the entities that an `EntityHashSet` holds.
pub uninterp spec fn members(set: EntityHashSet) -> Set<u64>;

/// What an `EntityHashMap<usize>` maps, keyed by the entities' bit patterns.
pub uninterp spec fn slots(table: EntityHashMap<usize>) -> Map<u64, usize>;

/// The map that holds nothing.
pub open spec fn no_slots() -> Map<u64, usize> {
    Map::empty()
}

/// `EntityHashSet::new`: a set that holds nothing.
#[verifier::external_body]
pub(crate) fn set_new() -> (set: EntityHashSet)
    ensures
        members(set) == Set::<u64>::empty(),
{
    EntityHashSet::new()
}

/// `HashSet::insert` on an `EntityHashSet`: the entity is a member afterwards
/// and nothing else changes; the result tells whether it was new.
#[verifier::external_body]
pub(crate) fn set_insert(set: &mut EntityHashSet, bits: u64) -> (fresh: bool)
    requires
        is_entity_bits(bits),
    ensures
        members(*final(set)) == members(*old(set)).insert(bits),
        fresh == !members(*old(set)).contains(bits),
{
    set.insert(Entity::from_bits(bits))
}

/// `HashSet::remove` on an `EntityHashSet`: the entity is no member afterwards
/// and nothing else changes; the result tells whether it was one.
#[verifier::external_body]
pub(crate) fn set_remove(set: &mut EntityHashSet, bits: u64) -> (present: bool)
    requires
        is_entity_bits(bits),
    ensures
        members(*final(set)) == members(*old(set)).remove(bits),
        present == members(*old(set)).contains(bits),
{
    set.remove(&Entity::from_bits(bits))
}

/// `HashSet::contains` on an `EntityHashSet`.
#[verifier::external_body]
pub(crate) fn set_contains(set: &EntityHashSet, bits: u64) -> (present: bool)
    requires
        is_entity_bits(bits),
    ensures
        present == members(*set).contains(bits),
{
    set.contains(&Entity::from_bits(bits))
}

/// `HashSet::clear` on an `EntityHashSet`: nothing is left.
#[verifier::external_body]
pub(crate) fn set_clear(set: &mut EntityHashSet)
    ensures
        members(*final(set)) == Set::<u64>::empty(),
{
    set.clear()
}

/// `EntityHashSet::iter`, each entity turned into its bits by
/// `Entity::to_bits`: every member comes out exactly once, in an order that
/// the set does not promise.
#[verifier::external_body]
pub(crate) fn set_list(set: &EntityHashSet) -> (list: Vec<u64>)
    ensures
        list@.no_duplicates(),
        forall|bits: u64| list@.contains(bits) <==> members(*set).contains(bits),
        forall|i: int| 0 <= i < list@.len() ==> is_entity_bits(#[trigger] list@[i]),
{
    let mut list = Vec::with_capacity(set.len());
    for entity in set.iter() {
        list.push(entity.to_bits());
    }
    list
}

/// `EntityHashMap::new`: a map that holds nothing.
#[verifier::external_body]
pub(crate) fn map_new() -> (table: EntityHashMap<usize>)
    ensures
        slots(table) == no_slots(),
{
    EntityHashMap::new()
}

/// `HashMap::get` on an `EntityHashMap`, the value copied out.
#[verifier::external_body]
pub(crate) fn map_get(table: &EntityHashMap<usize>, bits: u64) -> (slot: Option<usize>)
    requires
        is_entity_bits(bits),
    ensures
        slot == (if slots(*table).contains_key(bits) {
            Some(slots(*table)[bits])
        } else {
            None
        }),
{
    table.get(&Entity::from_bits(bits)).copied()
}

/// `HashMap::insert` on an `EntityHashMap`: the entity maps to `slot`
/// afterwards and nothing else changes; the result is what it mapped to
/// before.
#[verifier::external_body]
pub(crate) fn map_insert(table: &mut EntityHashMap<usize>, bits: u64, slot: usize) -> (before: Option<usize>)
    requires
        is_entity_bits(bits),
    ensures
        slots(*final(table)) == slots(*old(table)).insert(bits, slot),
        before == (if slots(*old(table)).contains_key(bits) {
            Some(slots(*old(table))[bits])
        } else {
            None
        }),
{
    table.insert(Entity::from_bits(bits), slot)
}

/// `HashMap::remove` on an `EntityHashMap`: the entity maps to nothing
/// afterwards and nothing else changes; the result is what it mapped to
/// before.
#[verifier::external_body]
pub(crate) fn map_remove(table: &mut EntityHashMap<usize>, bits: u64) -> (before: Option<usize>)
    requires
        is_entity_bits(bits),
    ensures
        slots(*final(table)) == slots(*old(table)).remove(bits),
        before == (if slots(*old(table)).contains_key(bits) {
            Some(slots(*old(table))[bits])
        } else {
            None
        }),
{
    table.remove(&Entity::from_bits(bits))
}

/// `HashMap::clear` on an `EntityHashMap`: nothing is left.
#[verifier::external_body]
pub(crate) fn map_clear(table: &mut EntityHashMap<usize>)
    ensures
        slots(*final(table)) == no_slots(),
{
    table.clear()
}

} // verus!
