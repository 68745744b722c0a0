//! Well-known capability identifiers.

use vstd::prelude::*;
use super::ids::CapabilityId;

verus! {

/// The mining capability.
pub fn mining() -> (r: CapabilityId)
    ensures
        r.0@ == "mining"@,
{
    CapabilityId::new("mining")
}

/// The hauling capability.
pub fn hauling() -> (r: CapabilityId)
    ensures
        r.0@ == "hauling"@,
{
    CapabilityId::new("hauling")
}

/// The construction capability.
pub fn construction() -> (r: CapabilityId)
    ensures
        r.0@ == "construction"@,
{
    CapabilityId::new("construction")
}

/// The farming capability.
pub fn farming() -> (r: CapabilityId)
    ensures
        r.0@ == "farming"@,
{
    CapabilityId::new("farming")
}

/// The crafting capability.
pub fn crafting() -> (r: CapabilityId)
    ensures
        r.0@ == "crafting"@,
{
    CapabilityId::new("crafting")
}

/// The cooking capability.
pub fn cooking() -> (r: CapabilityId)
    ensures
        r.0@ == "cooking"@,
{
    CapabilityId::new("cooking")
}

/// The medical capability.
pub fn medical() -> (r: CapabilityId)
    ensures
        r.0@ == "medical"@,
{
    CapabilityId::new("medical")
}

/// The research capability.
pub fn research() -> (r: CapabilityId)
    ensures
        r.0@ == "research"@,
{
    CapabilityId::new("research")
}

/// The combat capability.
pub fn combat() -> (r: CapabilityId)
    ensures
        r.0@ == "combat"@,
{
    CapabilityId::new("combat")
}

/// The cleaning capability.
pub fn cleaning() -> (r: CapabilityId)
    ensures
        r.0@ == "cleaning"@,
{
    CapabilityId::new("cleaning")
}

} // verus!
