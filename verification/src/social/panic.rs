//! Sources of panic, mass panic events and their tracker, and cascades of
//! panic through a group. How strongly each agent panics is fractional and is
//! kept by the host, as is each event's initial intensity.

use vstd::prelude::*;
use std::collections::BTreeSet;
use crate::checksum::{crc32, crc32_of, le_bytes, push_le};
use crate::id_table::{find_id, id_map, insert_by_id, lemma_id_map_at, lemma_id_map_len, lemma_id_map_update, sorted_by_id, Identified};
use super::ids::{PanicId, SocialAgentId, SocialGroupId};

verus! {

/// Source of a panic trigger.
#[derive(Clone, Debug, PartialEq, Eq, Hash)]
pub enum PanicSource {
    Threat(String),
    CasualtyWitnessed(SocialAgentId),
    LeaderFallen(SocialAgentId),
    MoraleBroken(SocialAgentId),
    SuddenNoise,
    Fire,
    Explosion,
    EnemyBreakthrough,
    AmbushDetected,
    FlankingAttack,
    FriendlyFire,
    Contagion(SocialAgentId),
    Custom(String),
}

/// Status of a panic event.
#[derive(Clone, Copy, Debug, PartialEq, Eq, Hash, Structural)]
pub enum PanicEventStatus {
    Spreading,
    Contained,
    Resolved,
}

impl PanicEventStatus {
    /// The index of the status in declaration order.
    pub open spec fn spec_index(self) -> u8 {
        match self {
            PanicEventStatus::Spreading => 0,
            PanicEventStatus::Contained => 1,
            PanicEventStatus::Resolved => 2,
        }
    }

    /// The index of the status in declaration order.
    pub fn as_index(self) -> (i: u8)
        ensures
            i == self.spec_index(),
    {
        match self {
            PanicEventStatus::Spreading => 0,
            PanicEventStatus::Contained => 1,
            PanicEventStatus::Resolved => 2,
        }
    }
}

} // verus!

verus! {

broadcast use vstd::laws_cmp::group_laws_cmp, vstd::std_specs::btree::group_btree_axioms;

/// A mass panic event affecting multiple agents. The agents and groups are
/// held by number.
#[derive(Debug)]
pub struct PanicEvent {
    pub id: PanicId,
    pub source: PanicSource,
    pub affected_agents: BTreeSet<u64>,
    pub affected_groups: BTreeSet<u64>,
    pub started_tick: u64,
    pub resolved_tick: Option<u64>,
    pub status: PanicEventStatus,
}

/// The bytes checksummed by `PanicEvent::checksum_with_intensity`.
pub open spec fn panic_event_bytes(id: PanicId, intensity_bits: u32, affected: nat, status: PanicEventStatus) -> Seq<u8> {
    le_bytes(id.0 as nat, 8) + le_bytes(intensity_bits as nat, 4) + le_bytes(affected, 8) + seq![status.spec_index()]
}

impl PanicEvent {
    /// A spreading event started at `tick`, affecting nobody yet.
    pub fn new(id: PanicId, source: PanicSource, tick: u64) -> (r: Self)
        ensures
            r.id == id,
            r.source == source,
            r.affected_agents@ == Set::<u64>::empty(),
            r.affected_groups@ == Set::<u64>::empty(),
            r.started_tick == tick,
            r.resolved_tick is None,
            r.status == PanicEventStatus::Spreading,
    {
        PanicEvent {
            id,
            source,
            affected_agents: BTreeSet::new(),
            affected_groups: BTreeSet::new(),
            started_tick: tick,
            resolved_tick: None,
            status: PanicEventStatus::Spreading,
        }
    }

    /// The agent is affected by the event.
    pub fn add_affected_agent(&mut self, agent: SocialAgentId)
        ensures
            final(self).affected_agents@ == old(self).affected_agents@.insert(agent.0),
            final(self).affected_groups@ == old(self).affected_groups@,
            final(self).id == old(self).id,
            final(self).source == old(self).source,
            final(self).started_tick == old(self).started_tick,
            final(self).resolved_tick == old(self).resolved_tick,
            final(self).status == old(self).status,
    {
        self.affected_agents.insert(agent.0);
    }

    /// The group is affected by the event.
    pub fn add_affected_group(&mut self, group: SocialGroupId)
        ensures
            final(self).affected_groups@ == old(self).affected_groups@.insert(group.0),
            final(self).affected_agents@ == old(self).affected_agents@,
            final(self).id == old(self).id,
            final(self).source == old(self).source,
            final(self).started_tick == old(self).started_tick,
            final(self).resolved_tick == old(self).resolved_tick,
            final(self).status == old(self).status,
    {
        self.affected_groups.insert(group.0);
    }

    /// The event stops spreading.
    pub fn contain(&mut self)
        ensures
            final(self).status == PanicEventStatus::Contained,
            final(self).affected_agents@ == old(self).affected_agents@,
            final(self).affected_groups@ == old(self).affected_groups@,
            final(self).id == old(self).id,
            final(self).source == old(self).source,
            final(self).started_tick == old(self).started_tick,
            final(self).resolved_tick == old(self).resolved_tick,
    {
        self.status = PanicEventStatus::Contained;
    }

    /// The event is over at `tick`.
    pub fn resolve(&mut self, tick: u64)
        ensures
            final(self).status == PanicEventStatus::Resolved,
            final(self).resolved_tick == Some(tick),
            final(self).affected_agents@ == old(self).affected_agents@,
            final(self).affected_groups@ == old(self).affected_groups@,
            final(self).id == old(self).id,
            final(self).source == old(self).source,
            final(self).started_tick == old(self).started_tick,
    {
        self.status = PanicEventStatus::Resolved;
        self.resolved_tick = Some(tick);
    }

    /// Whether the event is spreading or contained.
    pub fn is_active(&self) -> (b: bool)
        ensures
            b == (self.status != PanicEventStatus::Resolved),
    {
        matches!(self.status, PanicEventStatus::Spreading | PanicEventStatus::Contained)
    }

    /// The number of affected agents.
    pub fn affected_count(&self) -> (n: usize)
        ensures
            n == self.affected_agents@.len(),
    {
        self.affected_agents.len()
    }

    /// The CRC32 checksum of the event's number, the bits of its initial
    /// intensity (kept by the caller), the number of affected agents and its
    /// status.
    pub fn checksum_with_intensity(&self, intensity_bits: u32) -> (c: u32)
        ensures
            c == crc32_of(panic_event_bytes(self.id, intensity_bits, self.affected_agents@.len(), self.status)),
    {
        let mut bytes: Vec<u8> = Vec::new();
        push_le(&mut bytes, self.id.0, 8);
        push_le(&mut bytes, intensity_bits as u64, 4);
        push_le(&mut bytes, self.affected_agents.len() as u64, 8);
        bytes.push(self.status.as_index());
        proof {
            assert(bytes@ =~= panic_event_bytes(self.id, intensity_bits, self.affected_agents@.len(), self.status));
        }
        crc32(&bytes)
    }
}

impl Identified for PanicEvent {
    open spec fn ident(&self) -> u64 {
        self.id.0
    }

    fn ident_value(&self) -> (r: u64) {
        self.id.0
    }
}

/// Panic cascading through a group: the agents it reached, each with the tick
/// it reached them, starting with its origin.
#[derive(Debug)]
pub struct PanicCascade {
    pub origin: SocialAgentId,
    pub affected_sequence: Vec<(SocialAgentId, u64)>,
    pub started_tick: u64,
    pub ended_tick: Option<u64>,
}

impl PanicCascade {
    /// A cascade from `origin` starting at `tick`.
    pub fn new(origin: SocialAgentId, tick: u64) -> (r: Self)
        ensures
            r.origin == origin,
            r.affected_sequence@ == seq![(origin, tick)],
            r.started_tick == tick,
            r.ended_tick is None,
    {
        let mut affected_sequence = Vec::new();
        affected_sequence.push((origin, tick));
        PanicCascade { origin, affected_sequence, started_tick: tick, ended_tick: None }
    }

    /// The cascade reaches `agent` at `tick`.
    pub fn add_spread(&mut self, agent: SocialAgentId, tick: u64)
        ensures
            final(self).affected_sequence@ == old(self).affected_sequence@.push((agent, tick)),
            final(self).origin == old(self).origin,
            final(self).started_tick == old(self).started_tick,
            final(self).ended_tick == old(self).ended_tick,
    {
        self.affected_sequence.push((agent, tick));
    }

    /// The cascade ends at `tick`.
    pub fn end(&mut self, tick: u64)
        ensures
            final(self).ended_tick == Some(tick),
            final(self).affected_sequence@ == old(self).affected_sequence@,
            final(self).origin == old(self).origin,
            final(self).started_tick == old(self).started_tick,
    {
        self.ended_tick = Some(tick);
    }

    /// The number of agents the cascade reached, its origin included.
    pub fn cascade_depth(&self) -> (n: usize)
        ensures
            n == self.affected_sequence@.len(),
    {
        self.affected_sequence.len()
    }

    /// How far the panic spread beyond its origin.
    pub fn spread_count(&self) -> (n: usize)
        requires
            self.affected_sequence@.len() >= 1,
        ensures
            n == self.affected_sequence@.len() - 1,
    {
        self.affected_sequence.len() - 1
    }
}

/// The checksums of the first `n` events, four bytes each; event `i` is
/// checked with intensity bits `bits[i]`.
pub open spec fn event_sums(es: Seq<PanicEvent>, bits: Seq<u32>, n: int) -> Seq<u8>
    decreases n,
{
    if n <= 0 {
        Seq::empty()
    } else {
        event_sums(es, bits, n - 1) + le_bytes(
            crc32_of(panic_event_bytes(es[n - 1].id, bits[n - 1], es[n - 1].affected_agents@.len(), es[n - 1].status))
                as nat,
            4,
        )
    }
}

/// The checksums of the first `n` agents, four bytes each.
pub open spec fn agent_sums(sums: Seq<u32>, n: int) -> Seq<u8>
    decreases n,
{
    if n <= 0 {
        Seq::empty()
    } else {
        agent_sums(sums, n - 1) + le_bytes(sums[n - 1] as nat, 4)
    }
}

/// The bytes checksummed by `PanicTracker::checksum_with`.
pub open spec fn panic_bytes(agent_checksums: Seq<u32>, es: Seq<PanicEvent>, bits: Seq<u32>) -> Seq<u8> {
    le_bytes(agent_checksums.len(), 8) + agent_sums(agent_checksums, agent_checksums.len() as int) + le_bytes(
        es.len(),
        8,
    ) + event_sums(es, bits, es.len() as int)
}

/// Holds of events that are spreading or contained.
pub open spec fn event_active() -> spec_fn(PanicEvent) -> bool {
    |e: PanicEvent| e.status != PanicEventStatus::Resolved
}

/// Tracker for mass panic events, by event number.
#[derive(Debug)]
pub struct PanicTracker {
    events: Vec<PanicEvent>,
    next_event_id: u64,
}

impl PanicTracker {
    #[verifier::type_invariant]
    spec fn wf(&self) -> bool {
        &&& sorted_by_id(self.events@)
        &&& forall|i: int| 0 <= i < self.events@.len() ==> #[trigger] self.events@[i].id.0 < self.next_event_id
    }

    /// The events, in order of their numbers.
    pub closed spec fn event_entries(&self) -> Seq<PanicEvent> {
        self.events@
    }

    /// The number the next event receives.
    pub closed spec fn next_event_id(&self) -> u64 {
        self.next_event_id
    }

    /// The events as a map from event number.
    pub open spec fn event_map(&self) -> Map<u64, PanicEvent> {
        id_map(self.event_entries())
    }

    /// A tracker without events; the first event is number 0.
    pub fn new() -> (r: Self)
        ensures
            r.event_entries() == Seq::<PanicEvent>::empty(),
            r.event_map() == Map::<u64, PanicEvent>::empty(),
            r.next_event_id() == 0,
    {
        let r = PanicTracker { events: Vec::new(), next_event_id: 0 };
        proof {
            assert(id_map(r.events@) =~= Map::<u64, PanicEvent>::empty());
        }
        r
    }

    /// The number the next event receives.
    pub fn next_event_number(&self) -> (n: u64)
        ensures
            n == self.next_event_id(),
    {
        self.next_event_id
    }

    /// Starts a spreading event from `source` at `tick` under the next event number.
    pub fn create_panic_event(&mut self, source: PanicSource, tick: u64) -> (id: PanicId)
        requires
            old(self).next_event_id() < u64::MAX,
        ensures
            id.0 == old(self).next_event_id(),
            !old(self).event_map().contains_key(id.0),
            final(self).next_event_id() == old(self).next_event_id() + 1,
            final(self).event_map().dom() == old(self).event_map().dom().insert(id.0),
            final(self).event_map().remove(id.0) == old(self).event_map(),
            ({
                let e = final(self).event_map()[id.0];
                &&& e.id == id
                &&& e.source == source
                &&& e.affected_agents@ == Set::<u64>::empty()
                &&& e.affected_groups@ == Set::<u64>::empty()
                &&& e.started_tick == tick
                &&& e.resolved_tick is None
                &&& e.status == PanicEventStatus::Spreading
            }),
    {
        proof {
            use_type_invariant(&*self);
        }
        let id = PanicId::new(self.next_event_id);
        let ghost old_events = self.events@;
        proof {
            if id_map(old_events).contains_key(id.0) {
                let i = choose|i: int| 0 <= i < old_events.len() && #[trigger] old_events[i].ident() == id.0;
                assert(old_events[i].id.0 < self.next_event_id);
            }
        }
        let event = PanicEvent::new(id, source, tick);
        let mut events = Vec::new();
        std::mem::swap(&mut events, &mut self.events);
        insert_by_id(&mut events, event);
        let next = self.next_event_id + 1;
        proof {
            assert forall|i: int| 0 <= i < events@.len() implies #[trigger] events@[i].id.0 < next by {
                lemma_id_map_at(events@, i);
                let k = events@[i].id.0;
                if k != id.0 {
                    assert(id_map(old_events).contains_key(k));
                    let j = choose|j: int| 0 <= j < old_events.len() && #[trigger] old_events[j].ident() == k;
                    assert(old_events[j].id.0 < self.next_event_id);
                }
            }
            assert(id_map(events@).remove(id.0) =~= id_map(old_events));
        }
        self.next_event_id = next;
        self.events = events;
        id
    }

    /// Resolves the event at `tick`, when there is one; returns whether there was.
    pub fn resolve_event(&mut self, event_id: PanicId, tick: u64) -> (found: bool)
        ensures
            found == old(self).event_map().contains_key(event_id.0),
            final(self).next_event_id() == old(self).next_event_id(),
            final(self).event_map().dom() == old(self).event_map().dom(),
            forall|k: u64| k != event_id.0 ==> #[trigger] final(self).event_map().get(k) == old(self).event_map().get(k),
            found ==> ({
                let e = final(self).event_map()[event_id.0];
                let o = old(self).event_map()[event_id.0];
                &&& e.status == PanicEventStatus::Resolved
                &&& e.resolved_tick == Some(tick)
                &&& e.id == o.id
                &&& e.source == o.source
                &&& e.affected_agents@ == o.affected_agents@
                &&& e.affected_groups@ == o.affected_groups@
                &&& e.started_tick == o.started_tick
            }),
    {
        proof {
            use_type_invariant(&*self);
        }
        let (found, i) = find_id(&self.events, event_id.0);
        if !found {
            return false;
        }
        let mut events = Vec::new();
        std::mem::swap(&mut events, &mut self.events);
        let ghost s = events@;
        proof {
            lemma_id_map_at(s, i as int);
        }
        let mut e = events.remove(i);
        e.resolve(tick);
        let ghost ev = e;
        events.insert(i, e);
        proof {
            assert(events@ =~= s.update(i as int, ev));
            lemma_id_map_update(s, i as int, ev);
            assert forall|j: int| 0 <= j < events@.len() implies #[trigger] events@[j].id.0 < self.next_event_id by {
                assert(events@[j].id == s[j].id);
            }
            assert(id_map(events@).dom() =~= id_map(s).dom());
        }
        self.events = events;
        true
    }

    /// The number of events that are spreading or contained.
    pub fn active_event_count(&self) -> (n: usize)
        ensures
            n == self.event_entries().filter(event_active()).len(),
    {
        let mut n: usize = 0;
        let mut i: usize = 0;
        while i < self.events.len()
            invariant
                i <= self.events@.len(),
                n == self.events@.subrange(0, i as int).filter(event_active()).len(),
                n <= i,
            decreases self.events@.len() - i,
        {
            proof {
                reveal_with_fuel(Seq::<_>::filter, 1);
                assert(self.events@.subrange(0, i + 1).drop_last() =~= self.events@.subrange(0, i as int));
            }
            if self.events[i].is_active() {
                n = n + 1;
            }
            i = i + 1;
        }
        proof {
            assert(self.events@.subrange(0, self.events@.len() as int) =~= self.events@);
        }
        n
    }

    /// The number of events, whatever their status.
    pub fn event_count(&self) -> (n: usize)
        ensures
            n == self.event_map().len(),
            n == self.event_entries().len(),
    {
        proof {
            use_type_invariant(self);
            lemma_id_map_len(self.events@);
        }
        self.events.len()
    }

    /// All events, in order of their numbers.
    pub fn events(&self) -> (r: &[PanicEvent])
        ensures
            r@ == self.event_entries(),
    {
        self.events.as_slice()
    }

    /// The CRC32 checksum of the panic state: the number of agents and their
    /// checksums (computed by the host, in order of agent), then the number of
    /// events and their checksums, event `i` with intensity bits
    /// `intensity_bits[i]`.
    pub fn checksum_with(&self, agent_checksums: &[u32], intensity_bits: &[u32]) -> (c: u32)
        requires
            intensity_bits@.len() == self.event_entries().len(),
        ensures
            c == crc32_of(panic_bytes(agent_checksums@, self.event_entries(), intensity_bits@)),
    {
        let mut bytes: Vec<u8> = Vec::new();
        push_le(&mut bytes, agent_checksums.len() as u64, 8);
        let ghost head = bytes@;
        let mut i: usize = 0;
        while i < agent_checksums.len()
            invariant
                i <= agent_checksums@.len(),
                bytes@ == head + agent_sums(agent_checksums@, i as int),
            decreases agent_checksums@.len() - i,
        {
            push_le(&mut bytes, agent_checksums[i] as u64, 4);
            proof {
                assert(bytes@ =~= head + agent_sums(agent_checksums@, i + 1));
            }
            i = i + 1;
        }
        push_le(&mut bytes, self.events.len() as u64, 8);
        let ghost mid = bytes@;
        let mut j: usize = 0;
        while j < self.events.len()
            invariant
                j <= self.events@.len(),
                intensity_bits@.len() == self.events@.len(),
                bytes@ == mid + event_sums(self.events@, intensity_bits@, j as int),
            decreases self.events@.len() - j,
        {
            let c = self.events[j].checksum_with_intensity(intensity_bits[j]);
            push_le(&mut bytes, c as u64, 4);
            proof {
                assert(bytes@ =~= mid + event_sums(self.events@, intensity_bits@, j + 1));
            }
            j = j + 1;
        }
        proof {
            assert(bytes@ =~= panic_bytes(agent_checksums@, self.events@, intensity_bits@));
        }
        crc32(&bytes)
    }
}

} // verus!
