//! Diplomatic stances, treaties and diplomacy events.

use vstd::prelude::*;
use vstd::utf8::encode_utf8;
use crate::checksum::{crc32, crc32_of, le_bytes, push_le, push_str_bytes};
use crate::text::{decimal, prefixed_decimal};
use super::ids::SocialFactionId;
pub use super::diplomacy_tracker::DiplomacyTracker;

verus! {

/// Diplomatic stance between factions, from war to alliance.
#[derive(Clone, Copy, Debug, PartialEq, Eq, PartialOrd, Ord, Hash, Structural)]
pub enum DiplomaticStance {
    War,
    Hostile,
    Unfriendly,
    Neutral,
    Cordial,
    Friendly,
    Allied,
}

impl Default for DiplomaticStance {
    fn default() -> (r: Self)
        ensures
            r == DiplomaticStance::Neutral,
    {
        DiplomaticStance::Neutral
    }
}

/// The value of a stance, from -3 (war) to 3 (allied).
pub open spec fn stance_value(s: DiplomaticStance) -> int {
    match s {
        DiplomaticStance::War => -3,
        DiplomaticStance::Hostile => -2,
        DiplomaticStance::Unfriendly => -1,
        DiplomaticStance::Neutral => 0,
        DiplomaticStance::Cordial => 1,
        DiplomaticStance::Friendly => 2,
        DiplomaticStance::Allied => 3,
    }
}

/// The stance of a value; values below -3 mean war and above 3 alliance.
pub open spec fn stance_of_value(v: int) -> DiplomaticStance {
    if v <= -3 {
        DiplomaticStance::War
    } else if v == -2 {
        DiplomaticStance::Hostile
    } else if v == -1 {
        DiplomaticStance::Unfriendly
    } else if v == 0 {
        DiplomaticStance::Neutral
    } else if v == 1 {
        DiplomaticStance::Cordial
    } else if v == 2 {
        DiplomaticStance::Friendly
    } else {
        DiplomaticStance::Allied
    }
}

impl DiplomaticStance {
    /// Passage is allowed from neutral upwards.
    pub fn allows_passage(&self) -> (b: bool)
        ensures
            b == (stance_value(*self) >= 0),
    {
        matches!(
            self,
            DiplomaticStance::Neutral | DiplomaticStance::Cordial | DiplomaticStance::Friendly | DiplomaticStance::Allied
        )
    }

    /// Trade is allowed from cordial upwards.
    pub fn allows_trade(&self) -> (b: bool)
        ensures
            b == (stance_value(*self) >= 1),
    {
        matches!(self, DiplomaticStance::Cordial | DiplomaticStance::Friendly | DiplomaticStance::Allied)
    }

    /// Combat is allowed at war or when hostile.
    pub fn allows_combat(&self) -> (b: bool)
        ensures
            b == (stance_value(*self) <= -2),
    {
        matches!(self, DiplomaticStance::War | DiplomaticStance::Hostile)
    }

    /// Cordial, friendly or allied.
    pub fn is_positive(&self) -> (b: bool)
        ensures
            b == (stance_value(*self) > 0),
    {
        matches!(self, DiplomaticStance::Cordial | DiplomaticStance::Friendly | DiplomaticStance::Allied)
    }

    /// War, hostile or unfriendly.
    pub fn is_negative(&self) -> (b: bool)
        ensures
            b == (stance_value(*self) < 0),
    {
        matches!(self, DiplomaticStance::War | DiplomaticStance::Hostile | DiplomaticStance::Unfriendly)
    }

    /// The value of the stance, from -3 (war) to 3 (allied).
    pub fn as_value(&self) -> (v: i32)
        ensures
            v == stance_value(*self),
    {
        match self {
            DiplomaticStance::War => -3,
            DiplomaticStance::Hostile => -2,
            DiplomaticStance::Unfriendly => -1,
            DiplomaticStance::Neutral => 0,
            DiplomaticStance::Cordial => 1,
            DiplomaticStance::Friendly => 2,
            DiplomaticStance::Allied => 3,
        }
    }

    /// The stance of a value, clamping values outside -3..=3.
    pub fn from_value(value: i32) -> (s: Self)
        ensures
            s == stance_of_value(value as int),
    {
        if value <= -3 {
            DiplomaticStance::War
        } else if value == -2 {
            DiplomaticStance::Hostile
        } else if value == -1 {
            DiplomaticStance::Unfriendly
        } else if value == 0 {
            DiplomaticStance::Neutral
        } else if value == 1 {
            DiplomaticStance::Cordial
        } else if value == 2 {
            DiplomaticStance::Friendly
        } else {
            DiplomaticStance::Allied
        }
    }
}

/// Reading a stance's value back gives the stance.
pub proof fn law_stance_value_roundtrip(s: DiplomaticStance)
    ensures
        stance_of_value(stance_value(s)) == s,
        -3 <= stance_value(s) <= 3,
{
}

/// The value of the stance of `v` is `v` clamped to -3..=3.
pub proof fn law_value_stance_clamps(v: int)
    ensures
        stance_value(stance_of_value(v)) == (if v < -3 { -3 } else if v > 3 { 3 } else { v }),
{
}

/// Unique identifier for a treaty.
#[derive(Clone, Copy, Debug, PartialEq, Eq, PartialOrd, Ord, Hash, Structural)]
pub struct TreatyId(pub u64);

impl TreatyId {
    /// The identifier with the given number.
    pub fn new(id: u64) -> (r: Self)
        ensures
            r.0 == id,
    {
        TreatyId(id)
    }

    /// The number of the identifier.
    pub fn raw(self) -> (r: u64)
        ensures
            r == self.0,
    {
        self.0
    }

    /// The text form `treaty:<number>`.
    pub fn to_string(&self) -> (s: String)
        ensures
            s@ == "treaty:"@ + decimal(self.0 as nat),
    {
        prefixed_decimal("treaty:", self.0)
    }
}

/// Kind of treaty.
#[derive(Clone, Debug, PartialEq, Eq, Hash)]
pub enum TreatyKind {
    NonAggression,
    TradeAgreement,
    DefensiveAlliance,
    MilitaryAlliance,
    Ceasefire,
    Vassalage,
    Protectorate,
    ResourceSharing,
    BorderAgreement,
    Custom(String),
}

impl TreatyKind {
    /// The index of the kind in declaration order (custom kinds share 9).
    pub open spec fn spec_index(&self) -> u8 {
        match self {
            TreatyKind::NonAggression => 0,
            TreatyKind::TradeAgreement => 1,
            TreatyKind::DefensiveAlliance => 2,
            TreatyKind::MilitaryAlliance => 3,
            TreatyKind::Ceasefire => 4,
            TreatyKind::Vassalage => 5,
            TreatyKind::Protectorate => 6,
            TreatyKind::ResourceSharing => 7,
            TreatyKind::BorderAgreement => 8,
            TreatyKind::Custom(_) => 9,
        }
    }

    /// The index of the kind in declaration order (custom kinds share 9).
    pub fn as_index(&self) -> (i: u8)
        ensures
            i == self.spec_index(),
    {
        match self {
            TreatyKind::NonAggression => 0,
            TreatyKind::TradeAgreement => 1,
            TreatyKind::DefensiveAlliance => 2,
            TreatyKind::MilitaryAlliance => 3,
            TreatyKind::Ceasefire => 4,
            TreatyKind::Vassalage => 5,
            TreatyKind::Protectorate => 6,
            TreatyKind::ResourceSharing => 7,
            TreatyKind::BorderAgreement => 8,
            TreatyKind::Custom(_) => 9,
        }
    }
}

/// Status of a treaty; expiry and breach carry their tick.
#[derive(Clone, Copy, Debug, PartialEq, Eq, Hash, Structural)]
pub enum TreatyStatus {
    Active,
    Expired(u64),
    Broken(u64),
    Renegotiating,
}

/// A treaty between factions.
#[derive(Clone, Debug, PartialEq, Eq, Hash)]
pub struct Treaty {
    pub id: TreatyId,
    pub kind: TreatyKind,
    pub parties: Vec<SocialFactionId>,
    pub signed_tick: u64,
    pub expires_tick: Option<u64>,
    pub status: TreatyStatus,
}

/// The bytes checksummed by `Treaty::checksum`.
pub open spec fn treaty_bytes(t: Treaty) -> Seq<u8> {
    le_bytes(t.id.0 as nat, 8) + seq![t.kind.spec_index()] + le_bytes(t.parties@.len(), 8) + le_bytes(
        t.signed_tick as nat,
        8,
    )
}

impl Treaty {
    /// An active treaty signed at `tick`, with no expiry.
    pub fn new(id: TreatyId, kind: TreatyKind, parties: Vec<SocialFactionId>, tick: u64) -> (r: Self)
        ensures
            r == (Treaty { id, kind, parties, signed_tick: tick, expires_tick: None, status: TreatyStatus::Active }),
    {
        Treaty { id, kind, parties, signed_tick: tick, expires_tick: None, status: TreatyStatus::Active }
    }

    /// The treaty expires `duration` ticks after signing.
    pub fn with_duration(self, duration: u64) -> (r: Self)
        requires
            self.signed_tick + duration <= u64::MAX,
        ensures
            r == (Treaty { expires_tick: Some((self.signed_tick + duration) as u64), ..self }),
    {
        let mut t = self;
        t.expires_tick = Some(t.signed_tick + duration);
        t
    }

    /// Whether the treaty is in force.
    pub fn is_active(&self) -> (b: bool)
        ensures
            b == (self.status == TreatyStatus::Active),
    {
        matches!(self.status, TreatyStatus::Active)
    }

    /// Whether the expiry tick, if any, has been reached.
    pub fn is_expired(&self, current_tick: u64) -> (b: bool)
        ensures
            b == match self.expires_tick {
                Some(exp) => current_tick >= exp,
                None => false,
            },
    {
        match self.expires_tick {
            Some(exp) => current_tick >= exp,
            None => false,
        }
    }

    /// The treaty is broken at `tick`.
    pub fn break_treaty(&mut self, tick: u64)
        ensures
            *final(self) == (Treaty { status: TreatyStatus::Broken(tick), ..*old(self) }),
    {
        self.status = TreatyStatus::Broken(tick);
    }

    /// The treaty expires at `tick`.
    pub fn expire(&mut self, tick: u64)
        ensures
            *final(self) == (Treaty { status: TreatyStatus::Expired(tick), ..*old(self) }),
    {
        self.status = TreatyStatus::Expired(tick);
    }

    /// The CRC32 checksum of the treaty's identity, kind, party count and signing tick.
    pub fn checksum(&self) -> (c: u32)
        ensures
            c == crc32_of(treaty_bytes(*self)),
    {
        let mut bytes: Vec<u8> = Vec::new();
        push_le(&mut bytes, self.id.0, 8);
        bytes.push(self.kind.as_index());
        push_le(&mut bytes, self.parties.len() as u64, 8);
        push_le(&mut bytes, self.signed_tick, 8);
        proof {
            assert(bytes@ =~= treaty_bytes(*self));
        }
        crc32(&bytes)
    }
}

/// Kind of diplomacy event.
#[derive(Clone, Debug, PartialEq)]
pub enum DiplomacyEventKind {
    StanceChanged {
        faction_a: SocialFactionId,
        faction_b: SocialFactionId,
        old_stance: DiplomaticStance,
        new_stance: DiplomaticStance,
    },
    TreatySigned { treaty_id: TreatyId, parties: Vec<SocialFactionId>, kind: TreatyKind },
    TreatyBroken { treaty_id: TreatyId, breaker: SocialFactionId },
    TreatyExpired { treaty_id: TreatyId },
    WarDeclared { aggressor: SocialFactionId, defender: SocialFactionId },
    PeaceOffered { offerer: SocialFactionId, target: SocialFactionId },
    FavorChanged { faction_a: SocialFactionId, faction_b: SocialFactionId, delta: i32 },
}

/// Event for diplomatic changes.
#[derive(Clone, Debug, PartialEq)]
pub struct DiplomacyEvent {
    pub tick: u64,
    pub kind: DiplomacyEventKind,
}

} // verus!

verus! {

/// The permissions of stances nest: trade needs passage, and combat rules
/// passage out; a positive stance allows trade and a negative one is never
/// neutral ground for passage.
pub proof fn law_stance_permissions_nest(s: DiplomaticStance)
    ensures
        stance_value(s) >= 1 ==> stance_value(s) >= 0,
        stance_value(s) <= -2 ==> !(stance_value(s) >= 0),
        stance_value(s) > 0 <==> stance_value(s) >= 1,
        stance_value(s) < 0 ==> !(stance_value(s) >= 0),
        !(stance_value(s) > 0 && stance_value(s) < 0),
{
}

} // verus!

verus! {

/// `favor / 100` rounded toward zero.
pub open spec fn favor_steps(favor: int) -> int {
    if favor >= 0 {
        favor / 100
    } else {
        -((-favor) / 100)
    }
}

/// `a + b`, held within the range of `i32`.
pub open spec fn saturating_add_i32(a: i32, b: i32) -> i32 {
    if a + b > i32::MAX {
        i32::MAX
    } else if a + b < i32::MIN {
        i32::MIN
    } else {
        (a + b) as i32
    }
}

/// The stance after the accumulated favor becomes `favor`: it moves one step
/// toward the favor's hundreds when they lie more than one step away.
pub open spec fn stance_after_favor(stance: DiplomaticStance, favor: i32) -> DiplomaticStance {
    let target = favor_steps(favor as int);
    let current = stance_value(stance);
    if target > current + 1 {
        stance_of_value(current + 1)
    } else if target < current - 1 {
        stance_of_value(current - 1)
    } else {
        stance
    }
}

/// A relation between two factions. The trust between them is kept by the
/// host, outside this library.
#[derive(Clone, Debug, PartialEq)]
pub struct DiplomaticRelation {
    pub faction_a: SocialFactionId,
    pub faction_b: SocialFactionId,
    pub stance: DiplomaticStance,
    pub accumulated_favor: i32,
    pub last_interaction_tick: u64,
    pub active_treaties: Vec<TreatyId>,
}

/// Holds of every treaty but `id`.
pub open spec fn other_treaty(id: TreatyId) -> spec_fn(TreatyId) -> bool {
    |t: TreatyId| t != id
}

/// What a relation holds, with the factions read as their names.
#[verifier::ext_equal]
pub struct RelationView {
    pub faction_a: Seq<char>,
    pub faction_b: Seq<char>,
    pub stance: DiplomaticStance,
    pub accumulated_favor: i32,
    pub last_interaction_tick: u64,
    pub active_treaties: Seq<TreatyId>,
}

/// The bytes checksummed by `DiplomaticRelation::checksum_with_trust`.
pub open spec fn relation_bytes(r: RelationView, trust_bits: u32) -> Seq<u8> {
    encode_utf8(r.faction_a) + encode_utf8(r.faction_b) + seq![(stance_value(r.stance) + 3) as u8] + le_bytes(
        trust_bits as nat,
        4,
    ) + le_bytes((r.accumulated_favor as u32) as nat, 4)
}

impl View for DiplomaticRelation {
    type V = RelationView;

    open spec fn view(&self) -> RelationView {
        RelationView {
            faction_a: self.faction_a.0@,
            faction_b: self.faction_b.0@,
            stance: self.stance,
            accumulated_favor: self.accumulated_favor,
            last_interaction_tick: self.last_interaction_tick,
            active_treaties: self.active_treaties@,
        }
    }
}

impl DiplomaticRelation {
    /// A neutral relation with no favor and no treaties, last touched at `tick`.
    pub fn new(faction_a: SocialFactionId, faction_b: SocialFactionId, tick: u64) -> (r: Self)
        ensures
            r.faction_a == faction_a,
            r.faction_b == faction_b,
            r.stance == DiplomaticStance::Neutral,
            r.accumulated_favor == 0,
            r.last_interaction_tick == tick,
            r.active_treaties@ == Seq::<TreatyId>::empty(),
    {
        DiplomaticRelation {
            faction_a,
            faction_b,
            stance: DiplomaticStance::Neutral,
            accumulated_favor: 0,
            last_interaction_tick: tick,
            active_treaties: Vec::new(),
        }
    }

    /// The relation with the given stance.
    pub fn with_stance(self, stance: DiplomaticStance) -> (r: Self)
        ensures
            (r == DiplomaticRelation { stance, ..self }),
    {
        let mut r = self;
        r.stance = stance;
        r
    }

    /// Adds `delta` to the favor (held within `i32`), records the interaction,
    /// and moves the stance one step toward the favor when it lags by more
    /// than one step.
    pub fn modify_favor(&mut self, delta: i32, tick: u64)
        ensures
            final(self).accumulated_favor == saturating_add_i32(old(self).accumulated_favor, delta),
            final(self).stance == stance_after_favor(old(self).stance, final(self).accumulated_favor),
            (*final(self) == DiplomaticRelation {
                accumulated_favor: final(self).accumulated_favor,
                stance: final(self).stance,
                last_interaction_tick: tick,
                ..*old(self)
            }),
    {
        let sum: i64 = self.accumulated_favor as i64 + delta as i64;
        let favor: i32 = if sum > i32::MAX as i64 {
            i32::MAX
        } else if sum < i32::MIN as i64 {
            i32::MIN
        } else {
            sum as i32
        };
        self.accumulated_favor = favor;
        self.last_interaction_tick = tick;
        let f: i64 = favor as i64;
        let steps: i64 = if f >= 0 {
            f / 100
        } else {
            -((-f) / 100)
        };
        let current = self.stance.as_value();
        if steps > current as i64 + 1 {
            self.stance = DiplomaticStance::from_value(current + 1);
        } else if steps < current as i64 - 1 {
            self.stance = DiplomaticStance::from_value(current - 1);
        }
    }

    /// The CRC32 checksum of the relation: the two faction names, the stance,
    /// the bits of the trust between the factions (kept by the caller), and
    /// the favor.
    pub fn checksum_with_trust(&self, trust_bits: u32) -> (c: u32)
        ensures
            c == crc32_of(relation_bytes(self@, trust_bits)),
    {
        let mut bytes: Vec<u8> = Vec::new();
        push_str_bytes(&mut bytes, self.faction_a.as_str());
        push_str_bytes(&mut bytes, self.faction_b.as_str());
        let stance_byte: u8 = (self.stance.as_value() + 3) as u8;
        bytes.push(stance_byte);
        push_le(&mut bytes, trust_bits as u64, 4);
        push_le(&mut bytes, (self.accumulated_favor as u32) as u64, 4);
        proof {
            assert(bytes@ =~= relation_bytes(self@, trust_bits));
        }
        crc32(&bytes)
    }

    /// Records a treaty between the two factions, once.
    pub fn add_treaty(&mut self, treaty_id: TreatyId)
        ensures
            final(self).active_treaties@ == if old(self).active_treaties@.contains(treaty_id) {
                old(self).active_treaties@
            } else {
                old(self).active_treaties@.push(treaty_id)
            },
            (*final(self) == DiplomaticRelation { active_treaties: final(self).active_treaties, ..*old(self) }),
    {
        let mut i: usize = 0;
        while i < self.active_treaties.len()
            invariant
                i <= self.active_treaties@.len(),
                forall|j: int| 0 <= j < i ==> self.active_treaties@[j] != treaty_id,
            decreases self.active_treaties@.len() - i,
        {
            if self.active_treaties[i] == treaty_id {
                return;
            }
            i = i + 1;
        }
        self.active_treaties.push(treaty_id);
    }

    /// Forgets a treaty between the two factions.
    pub fn remove_treaty(&mut self, treaty_id: TreatyId)
        ensures
            final(self).active_treaties@ == old(self).active_treaties@.filter(other_treaty(treaty_id)),
            (*final(self) == DiplomaticRelation { active_treaties: final(self).active_treaties, ..*old(self) }),
    {
        let mut kept: Vec<TreatyId> = Vec::new();
        let ghost src = self.active_treaties@;
        let ghost pred = other_treaty(treaty_id);
        let mut i: usize = 0;
        while i < self.active_treaties.len()
            invariant
                i <= src.len(),
                src == self.active_treaties@,
                pred == other_treaty(treaty_id),
                kept@ == src.subrange(0, i as int).filter(pred),
            decreases src.len() - i,
        {
            let t = self.active_treaties[i];
            proof {
                reveal_with_fuel(Seq::<_>::filter, 1);
                assert(src.subrange(0, i + 1).drop_last() =~= src.subrange(0, i as int));
                assert(src.subrange(0, i + 1).last() == t);
            }
            if t != treaty_id {
                kept.push(t);
            }
            proof {
                assert(kept@ =~= src.subrange(0, i + 1).filter(pred));
            }
            i = i + 1;
        }
        proof {
            assert(src.subrange(0, src.len() as int) =~= src);
        }
        self.active_treaties = kept;
    }
}

/// A change of favor moves the stance by at most one step, and only toward the
/// favor: the stance never moves away from where the favor points.
pub proof fn law_favor_moves_stance_one_step(stance: DiplomaticStance, favor: i32)
    ensures
        -1 <= stance_value(stance_after_favor(stance, favor)) - stance_value(stance) <= 1,
        stance_value(stance_after_favor(stance, favor)) > stance_value(stance) ==> favor_steps(favor as int)
            > stance_value(stance) + 1,
        stance_value(stance_after_favor(stance, favor)) < stance_value(stance) ==> favor_steps(favor as int)
            < stance_value(stance) - 1,
{
}

} // verus!
