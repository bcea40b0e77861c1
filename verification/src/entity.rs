//! Entity identifiers as the 64-bit pattern the component store uses for them.

use vstd::prelude::*;

verus! {

/// Whether `bits` is the bit pattern of an entity: the high half (the
/// generation) is neither zero nor has its top bit set.
pub open spec fn is_entity_bits(bits: u64) -> bool {
    0x1_0000_0000 <= bits < 0x8000_0000_0000_0000
}

/// Identifies one entity. The view is the identifier's bit pattern, which is
/// always an entity's.
#[derive(Clone, Copy, Debug, PartialEq, Eq, Hash, Structural)]
pub struct EntityId {
    bits: u64,
}

impl View for EntityId {
    type V = u64;

    closed spec fn view(&self) -> u64 {
        self.bits
    }
}

impl EntityId {
    #[verifier::type_invariant]
    spec fn well_formed(self) -> bool {
        is_entity_bits(self.bits)
    }

    /// The identifier with the given bit pattern, if it is an entity's.
    pub fn from_bits(bits: u64) -> (id: Option<EntityId>)
        ensures
            id is Some <==> is_entity_bits(bits),
            id matches Some(e) ==> e@ == bits,
    {
        if 0x1_0000_0000 <= bits && bits < 0x8000_0000_0000_0000 {
            Some(EntityId { bits })
        } else {
            None
        }
    }

    /// The identifier's bit pattern.
    pub fn to_bits(self) -> (bits: u64)
        ensures
            bits == self@,
            is_entity_bits(bits),
    {
        proof {
            use_type_invariant(&self);
        }
        self.bits
    }
}

} // verus!
