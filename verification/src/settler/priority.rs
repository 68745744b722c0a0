//! Region-specific priority adjustments.

use vstd::prelude::*;
use super::ids::RegionId;

verus! {

/// Region-specific priority adjustment.
#[derive(Clone, Debug, PartialEq, Eq, Structural)]
pub struct RegionPriority {
    pub region: RegionId,
    pub priority_boost: i32,
    pub urgent: bool,
}

impl RegionPriority {
    /// No boost, not urgent.
    pub fn new(region: RegionId) -> (r: Self)
        ensures
            r == (RegionPriority { region, priority_boost: 0, urgent: false }),
    {
        RegionPriority { region, priority_boost: 0, urgent: false }
    }

    /// Sets the boost.
    pub fn with_boost(self, boost: i32) -> (r: Self)
        ensures
            r == (RegionPriority { priority_boost: boost, ..self }),
    {
        RegionPriority { priority_boost: boost, ..self }
    }

    /// Marks the region urgent.
    pub fn urgent(self) -> (r: Self)
        ensures
            r == (RegionPriority { urgent: true, ..self }),
    {
        RegionPriority { urgent: true, ..self }
    }
}

} // verus!
