//! Counts of diplomatic stances held by a faction.

use vstd::prelude::*;
use super::diplomacy::{stance_value, DiplomaticStance};

verus! {

/// Count of different diplomatic stances for a faction.
#[derive(Clone, Debug, PartialEq, Eq, Structural)]
pub struct StanceCounts {
    pub war: u32,
    pub hostile: u32,
    pub unfriendly: u32,
    pub neutral: u32,
    pub cordial: u32,
    pub friendly: u32,
    pub allied: u32,
}

impl Default for StanceCounts {
    fn default() -> (c: Self)
        ensures
            c == (StanceCounts {
                war: 0,
                hostile: 0,
                unfriendly: 0,
                neutral: 0,
                cordial: 0,
                friendly: 0,
                allied: 0,
            }),
    {
        StanceCounts { war: 0, hostile: 0, unfriendly: 0, neutral: 0, cordial: 0, friendly: 0, allied: 0 }
    }
}

impl StanceCounts {
    /// How many relations with the given stance were counted.
    pub open spec fn count_of(self, stance: DiplomaticStance) -> u32 {
        match stance {
            DiplomaticStance::War => self.war,
            DiplomaticStance::Hostile => self.hostile,
            DiplomaticStance::Unfriendly => self.unfriendly,
            DiplomaticStance::Neutral => self.neutral,
            DiplomaticStance::Cordial => self.cordial,
            DiplomaticStance::Friendly => self.friendly,
            DiplomaticStance::Allied => self.allied,
        }
    }

    /// Count one more relation with the given stance; the other counts stay.
    pub fn add_stance(&mut self, stance: DiplomaticStance)
        requires
            old(self).count_of(stance) < u32::MAX,
        ensures
            final(self).count_of(stance) == old(self).count_of(stance) + 1,
            forall|other: DiplomaticStance|
                other != stance ==> #[trigger] final(self).count_of(other) == old(self).count_of(other),
    {
        match stance {
            DiplomaticStance::War => self.war = self.war + 1,
            DiplomaticStance::Hostile => self.hostile = self.hostile + 1,
            DiplomaticStance::Unfriendly => self.unfriendly = self.unfriendly + 1,
            DiplomaticStance::Neutral => self.neutral = self.neutral + 1,
            DiplomaticStance::Cordial => self.cordial = self.cordial + 1,
            DiplomaticStance::Friendly => self.friendly = self.friendly + 1,
            DiplomaticStance::Allied => self.allied = self.allied + 1,
        }
    }

    /// Cordial, friendly and allied relations together.
    pub fn positive_count(&self) -> (n: u32)
        requires
            self.cordial + self.friendly + self.allied <= u32::MAX,
        ensures
            n == self.cordial + self.friendly + self.allied,
    {
        self.cordial + self.friendly + self.allied
    }

    /// War, hostile and unfriendly relations together.
    pub fn negative_count(&self) -> (n: u32)
        requires
            self.war + self.hostile + self.unfriendly <= u32::MAX,
        ensures
            n == self.war + self.hostile + self.unfriendly,
    {
        self.war + self.hostile + self.unfriendly
    }
}

} // verus!

verus! {

/// Counting a stance adds one to the positive count exactly when the stance
/// is positive, and one to the negative count exactly when it is negative.
pub proof fn law_add_stance_counts(before: StanceCounts, after: StanceCounts, stance: DiplomaticStance)
    requires
        after.count_of(stance) == before.count_of(stance) + 1,
        forall|other: DiplomaticStance| other != stance ==> #[trigger] after.count_of(other) == before.count_of(other),
    ensures
        after.cordial + after.friendly + after.allied == before.cordial + before.friendly + before.allied + if stance_value(
            stance,
        ) > 0 {
            1int
        } else {
            0int
        },
        after.war + after.hostile + after.unfriendly == before.war + before.hostile + before.unfriendly + if stance_value(
            stance,
        ) < 0 {
            1int
        } else {
            0int
        },
{
    assert(after.count_of(DiplomaticStance::War) == after.war);
    assert(after.count_of(DiplomaticStance::Hostile) == after.hostile);
    assert(after.count_of(DiplomaticStance::Unfriendly) == after.unfriendly);
    assert(after.count_of(DiplomaticStance::Neutral) == after.neutral);
    assert(after.count_of(DiplomaticStance::Cordial) == after.cordial);
    assert(after.count_of(DiplomaticStance::Friendly) == after.friendly);
    assert(after.count_of(DiplomaticStance::Allied) == after.allied);
}

/// Counting a stance adds one to the field named after that stance and leaves
/// every other field as it was.
pub proof fn law_add_stance_bumps_its_field(before: StanceCounts, after: StanceCounts, stance: DiplomaticStance)
    requires
        after.count_of(stance) == before.count_of(stance) + 1,
        forall|other: DiplomaticStance| other != stance ==> #[trigger] after.count_of(other) == before.count_of(other),
    ensures
        after == match stance {
            DiplomaticStance::War => StanceCounts { war: (before.war + 1) as u32, ..before },
            DiplomaticStance::Hostile => StanceCounts { hostile: (before.hostile + 1) as u32, ..before },
            DiplomaticStance::Unfriendly => StanceCounts { unfriendly: (before.unfriendly + 1) as u32, ..before },
            DiplomaticStance::Neutral => StanceCounts { neutral: (before.neutral + 1) as u32, ..before },
            DiplomaticStance::Cordial => StanceCounts { cordial: (before.cordial + 1) as u32, ..before },
            DiplomaticStance::Friendly => StanceCounts { friendly: (before.friendly + 1) as u32, ..before },
            DiplomaticStance::Allied => StanceCounts { allied: (before.allied + 1) as u32, ..before },
        },
{
    assert(after.count_of(DiplomaticStance::War) == after.war && before.count_of(DiplomaticStance::War) == before.war);
    assert(after.count_of(DiplomaticStance::Hostile) == after.hostile && before.count_of(DiplomaticStance::Hostile) == before.hostile);
    assert(after.count_of(DiplomaticStance::Unfriendly) == after.unfriendly && before.count_of(DiplomaticStance::Unfriendly) == before.unfriendly);
    assert(after.count_of(DiplomaticStance::Neutral) == after.neutral && before.count_of(DiplomaticStance::Neutral) == before.neutral);
    assert(after.count_of(DiplomaticStance::Cordial) == after.cordial && before.count_of(DiplomaticStance::Cordial) == before.cordial);
    assert(after.count_of(DiplomaticStance::Friendly) == after.friendly && before.count_of(DiplomaticStance::Friendly) == before.friendly);
    assert(after.count_of(DiplomaticStance::Allied) == after.allied && before.count_of(DiplomaticStance::Allied) == before.allied);
}

} // verus!
