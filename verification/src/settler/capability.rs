//! Skill levels and capability categories.

use vstd::prelude::*;

verus! {

/// Skill level for a capability, lowest first.
#[derive(Clone, Copy, Debug, PartialEq, Eq, PartialOrd, Ord, Hash, Structural)]
pub enum SkillLevel {
    Novice,
    Apprentice,
    Journeyman,
    Expert,
    Master,
}

impl SkillLevel {
    /// The rank of the level, from 0 (novice) to 4 (master).
    pub open spec fn rank(self) -> int {
        match self {
            SkillLevel::Novice => 0,
            SkillLevel::Apprentice => 1,
            SkillLevel::Journeyman => 2,
            SkillLevel::Expert => 3,
            SkillLevel::Master => 4,
        }
    }

    /// The level one step up, or `None` at master.
    pub fn next(self) -> (r: Option<Self>)
        ensures
            r is None <==> self == SkillLevel::Master,
            r matches Some(n) ==> n.rank() == self.rank() + 1,
    {
        match self {
            SkillLevel::Novice => Some(SkillLevel::Apprentice),
            SkillLevel::Apprentice => Some(SkillLevel::Journeyman),
            SkillLevel::Journeyman => Some(SkillLevel::Expert),
            SkillLevel::Expert => Some(SkillLevel::Master),
            SkillLevel::Master => None,
        }
    }
}

impl Default for SkillLevel {
    fn default() -> (r: Self)
        ensures
            r == SkillLevel::Novice,
    {
        SkillLevel::Novice
    }
}

/// Category for grouping capabilities.
#[derive(Clone, Copy, Debug, PartialEq, Eq, PartialOrd, Ord, Hash, Structural)]
pub enum CapabilityCategory {
    Labor,
    Crafting,
    Combat,
    Social,
    Research,
    Medical,
    Farming,
}

} // verus!
