//! The betrayal incidents of all factions: incidents by identifier, and for
//! each betrayed faction the incidents against it in the order they began.
//! The agents' betrayal profiles are fractional and are kept by the host.

use vstd::prelude::*;
use crate::checksum::{crc32, crc32_of, le_bytes, push_le};
use crate::id_table::{
    find_id, get_by_id, has_id, id_map, insert_by_id, lemma_filter_sorted, lemma_id_map_at, lemma_id_map_len,
    lemma_id_map_update, lemma_sorted_same_elements, position_of_id, select, sorted_by_id, Identified,
};
use crate::keys::{insert_by_key, key_map, locate, lemma_key_map_at, remove_by_key, sorted_by_key, Keyed};
use super::betrayal::{
    detected, executed, incident_active, incident_bytes, resolved, BetrayalIncident, BetrayalKind, BetrayalResolution,
    BetrayalSeverity, BetrayalStatus,
};
use super::ids::{BetrayalId, SocialAgentId, SocialFactionId};

verus! {

impl Identified for BetrayalIncident {
    open spec fn ident(&self) -> u64 {
        self.id.0
    }

    fn ident_value(&self) -> (r: u64) {
        self.id.0
    }
}

/// The incidents against one faction, in the order they began.
#[derive(Debug)]
pub struct FactionIncidents {
    pub faction: SocialFactionId,
    pub incidents: Vec<BetrayalId>,
}

impl Keyed for FactionIncidents {
    open spec fn key(&self) -> Seq<char> {
        self.faction.0@
    }

    fn key_str(&self) -> (s: &str) {
        self.faction.as_str()
    }
}

/// Holds of active incidents.
pub open spec fn active_incident() -> spec_fn(BetrayalIncident) -> bool {
    |i: BetrayalIncident| incident_active(i)
}

/// The incidents listed against faction `f`, none when it has no list.
pub open spec fn listed(m: Map<Seq<char>, Seq<BetrayalId>>, f: Seq<char>) -> Seq<BetrayalId> {
    if m.contains_key(f) {
        m[f]
    } else {
        Seq::empty()
    }
}

/// The new plot created as number `id`.
pub open spec fn new_incident(
    id: BetrayalId,
    betrayer: SocialAgentId,
    betrayed_faction: SocialFactionId,
    kind: BetrayalKind,
) -> BetrayalIncident {
    BetrayalIncident {
        id,
        betrayer,
        betrayed_faction,
        target_faction: None,
        kind,
        status: BetrayalStatus::Plotting,
        detected_tick: None,
        resolved_tick: None,
        severity: BetrayalSeverity::Minor,
    }
}

/// The incidents with the listed identifiers, in order.
pub open spec fn incidents_of(ids: Seq<BetrayalId>, m: Map<u64, BetrayalIncident>) -> Seq<BetrayalIncident> {
    ids.map_values(|id: BetrayalId| m[id.0])
}

/// Holds of the incidents against the named faction.
pub open spec fn against(f: Seq<char>) -> spec_fn(BetrayalIncident) -> bool {
    |i: BetrayalIncident| i.betrayed_faction.0@ == f
}

/// The lists are exact: every listed incident exists and betrays the faction
/// it is listed under, each list runs in increasing incident number, and
/// every incident is listed under the faction it betrays.
pub open spec fn listing_exact(lists: Map<Seq<char>, Seq<BetrayalId>>, m: Map<u64, BetrayalIncident>) -> bool {
    &&& forall|f: Seq<char>, j: int|
        #![trigger lists[f][j]]
        lists.contains_key(f) && 0 <= j < lists[f].len() ==> m.contains_key(lists[f][j].0) && m[lists[f][j].0].betrayed_faction.0@
            == f
    &&& forall|f: Seq<char>, i: int, j: int|
        #![trigger lists[f][i], lists[f][j]]
        lists.contains_key(f) && 0 <= i < j < lists[f].len() ==> lists[f][i].0 < lists[f][j].0
    &&& forall|k: u64|
        #![trigger m[k]]
        m.contains_key(k) ==> lists.contains_key(m[k].betrayed_faction.0@) && lists[m[k].betrayed_faction.0@].contains(
            BetrayalId(k),
        )
}

/// With exact lists, the incidents listed against a faction are the
/// incidents against it, in order of their numbers.
proof fn lemma_listed_incidents(lists: Map<Seq<char>, Seq<BetrayalId>>, s: Seq<BetrayalIncident>, f: Seq<char>)
    requires
        sorted_by_id(s),
        listing_exact(lists, id_map(s)),
    ensures
        incidents_of(listed(lists, f), id_map(s)) == s.filter(against(f)),
{
    let m = id_map(s);
    let l = listed(lists, f);
    let a = incidents_of(l, m);
    let b = s.filter(against(f));
    assert forall|j: int| 0 <= j < a.len() implies #[trigger] a[j].ident() == l[j].0 && m.contains_key(l[j].0) by {
        assert(lists.contains_key(f));
        assert(m.contains_key(lists[f][j].0));
    }
    assert forall|i: int, j: int| 0 <= i < j < a.len() implies #[trigger] a[i].ident() < #[trigger] a[j].ident() by {
        assert(lists[f][i].0 < lists[f][j].0);
    }
    lemma_filter_sorted(s, against(f));
    assert forall|x: BetrayalIncident| a.contains(x) <==> b.contains(x) by {
        if a.contains(x) {
            let j = choose|j: int| 0 <= j < a.len() && a[j] == x;
            let k = l[j].0;
            assert(m.contains_key(k));
            assert(m[lists[f][j].0].betrayed_faction.0@ == f);
            let w = position_of_id(s, k);
            assert(has_id(s, k));
            assert(m[k] == s[w]);
            s.lemma_filter_contains(against(f), w);
        }
        if b.contains(x) {
            s.lemma_filter_contains_rev(against(f), x);
            let jb = choose|j: int| 0 <= j < b.len() && b[j] == x;
            s.lemma_filter_pred(against(f), jb);
            let w = choose|w: int| 0 <= w < s.len() && s[w] == x;
            lemma_id_map_at(s, w);
            let k = x.ident();
            assert(m[k] == x);
            assert(lists.contains_key(f) && lists[f].contains(BetrayalId(k)));
            let j = choose|j: int| 0 <= j < lists[f].len() && lists[f][j] == BetrayalId(k);
            assert(a[j] == m[k]);
        }
    }
    lemma_sorted_same_elements(a, b);
}

/// The checksums of the first `n` profiles, four bytes each.
pub open spec fn profile_sums(sums: Seq<u32>, n: int) -> Seq<u8>
    decreases n,
{
    if n <= 0 {
        Seq::empty()
    } else {
        profile_sums(sums, n - 1) + le_bytes(sums[n - 1] as nat, 4)
    }
}

/// The checksums of the first `n` incidents, four bytes each.
pub open spec fn incident_sums(s: Seq<BetrayalIncident>, n: int) -> Seq<u8>
    decreases n,
{
    if n <= 0 {
        Seq::empty()
    } else {
        incident_sums(s, n - 1) + le_bytes(crc32_of(incident_bytes(s[n - 1])) as nat, 4)
    }
}

/// The bytes checksummed by `BetrayalTracker::checksum_with_profiles`.
pub open spec fn betrayal_bytes(sums: Seq<u32>, s: Seq<BetrayalIncident>) -> Seq<u8> {
    le_bytes(sums.len(), 8) + profile_sums(sums, sums.len() as int) + le_bytes(s.len(), 8) + incident_sums(
        s,
        s.len() as int,
    )
}

/// Tracker for betrayal incidents.
#[derive(Debug)]
pub struct BetrayalTracker {
    incidents: Vec<BetrayalIncident>,
    by_faction: Vec<FactionIncidents>,
    next_incident_id: u64,
}

impl BetrayalTracker {
    #[verifier::type_invariant]
    spec fn wf(&self) -> bool {
        &&& sorted_by_id(self.incidents@)
        &&& forall|i: int| 0 <= i < self.incidents@.len() ==> #[trigger] self.incidents@[i].id.0 < self.next_incident_id
        &&& sorted_by_key(self.by_faction@)
        &&& listing_exact(self.faction_lists(), id_map(self.incidents@))
    }

    /// The incidents, in order of their identifiers.
    pub closed spec fn incident_entries(&self) -> Seq<BetrayalIncident> {
        self.incidents@
    }

    /// The number the next incident receives.
    pub closed spec fn next_incident_id(&self) -> u64 {
        self.next_incident_id
    }

    /// For each betrayed faction, the incidents against it in the order they began.
    pub closed spec fn faction_lists(&self) -> Map<Seq<char>, Seq<BetrayalId>> {
        key_map(self.by_faction@).map_values(|fi: FactionIncidents| fi.incidents@)
    }

    /// The incidents as a map from identifier number.
    pub open spec fn incident_map(&self) -> Map<u64, BetrayalIncident> {
        id_map(self.incident_entries())
    }

    /// A tracker without incidents; the first incident is number 0.
    pub fn new() -> (r: Self)
        ensures
            r.incident_entries() == Seq::<BetrayalIncident>::empty(),
            r.incident_map() == Map::<u64, BetrayalIncident>::empty(),
            r.faction_lists() == Map::<Seq<char>, Seq<BetrayalId>>::empty(),
            r.next_incident_id() == 0,
    {
        let r = BetrayalTracker { incidents: Vec::new(), by_faction: Vec::new(), next_incident_id: 0 };
        proof {
            assert(id_map(r.incidents@) =~= Map::<u64, BetrayalIncident>::empty());
            assert(key_map(r.by_faction@) =~= Map::<Seq<char>, FactionIncidents>::empty());
            assert(r.faction_lists() =~= Map::<Seq<char>, Seq<BetrayalId>>::empty());
        }
        r
    }

    /// The number the next incident receives.
    pub fn next_incident_number(&self) -> (n: u64)
        ensures
            n == self.next_incident_id(),
    {
        self.next_incident_id
    }

    /// Records a new plot by `betrayer` against `betrayed_faction` under the
    /// next incident number, and lists it against that faction.
    pub fn create_incident(&mut self, betrayer: SocialAgentId, betrayed_faction: SocialFactionId, kind: BetrayalKind) -> (id:
        BetrayalId)
        requires
            old(self).next_incident_id() < u64::MAX,
        ensures
            id.0 == old(self).next_incident_id(),
            !old(self).incident_map().contains_key(id.0),
            final(self).next_incident_id() == old(self).next_incident_id() + 1,
            final(self).incident_map() == old(self).incident_map().insert(
                id.0,
                new_incident(id, betrayer, betrayed_faction, kind),
            ),
            final(self).faction_lists() == old(self).faction_lists().insert(
                betrayed_faction.0@,
                listed(old(self).faction_lists(), betrayed_faction.0@).push(id),
            ),
    {
        proof {
            use_type_invariant(&*self);
        }
        let mut tracker = BetrayalTracker::new();
        std::mem::swap(&mut tracker, self);
        proof {
            use_type_invariant(&tracker);
        }
        let ghost old_lists = tracker.faction_lists();
        let BetrayalTracker { mut incidents, mut by_faction, next_incident_id } = tracker;
        let id = BetrayalId::new(next_incident_id);
        let ghost old_incidents = incidents@;
        let ghost old_map = id_map(old_incidents);
        let ghost f = betrayed_faction.0@;
        proof {
            assert forall|k: u64| old_map.contains_key(k) implies k < next_incident_id by {
                let i = choose|i: int| 0 <= i < old_incidents.len() && #[trigger] old_incidents[i].ident() == k;
                assert(old_incidents[i].id.0 < next_incident_id);
            }
        }
        let key = SocialFactionId::new(betrayed_faction.as_str());
        let ghost old_by = by_faction@;
        let mut list = match remove_by_key(&mut by_faction, key.as_str()) {
            Some(entry) => entry.incidents,
            None => Vec::new(),
        };
        proof {
            assert(list@ == listed(old_lists, f));
        }
        list.push(id);
        let entry = FactionIncidents { faction: key, incidents: list };
        let ghost ev = entry;
        insert_by_key(&mut by_faction, entry);
        let incident = BetrayalIncident::new(id, betrayer, betrayed_faction, kind);
        let ghost inc = incident;
        insert_by_id(&mut incidents, incident);
        let next = next_incident_id + 1;
        proof {
            assert forall|i: int| 0 <= i < incidents@.len() implies #[trigger] incidents@[i].id.0 < next by {
                lemma_id_map_at(incidents@, i);
                let k = incidents@[i].id.0;
                if k != id.0 {
                    assert(old_map.contains_key(k));
                }
            }
            assert(key_map(by_faction@) == key_map(old_by).remove(f).insert(f, ev));
            let lists = key_map(by_faction@).map_values(|fi: FactionIncidents| fi.incidents@);
            let n = listed(old_lists, f).len();
            assert(lists =~= old_lists.insert(f, listed(old_lists, f).push(id)));
            let m = id_map(incidents@);
            assert(m == old_map.insert(id.0, inc));
            assert forall|g: Seq<char>, j: int| #![trigger lists[g][j]]
                lists.contains_key(g) && 0 <= j < lists[g].len() implies m.contains_key(lists[g][j].0)
                && m[lists[g][j].0].betrayed_faction.0@ == g by {
                if g != f || j < n {
                    assert(old_lists[g][j] == lists[g][j]);
                    assert(old_map.contains_key(old_lists[g][j].0));
                    assert(old_map[old_lists[g][j].0].betrayed_faction.0@ == g);
                }
            }
            assert forall|g: Seq<char>, i: int, j: int| #![trigger lists[g][i], lists[g][j]]
                lists.contains_key(g) && 0 <= i < j < lists[g].len() implies lists[g][i].0 < lists[g][j].0 by {
                if g != f || j < n {
                    assert(old_lists[g][i] == lists[g][i]);
                    assert(old_lists[g][j] == lists[g][j]);
                } else {
                    assert(old_lists[g][i] == lists[g][i]);
                    assert(old_map.contains_key(old_lists[g][i].0));
                }
            }
            assert forall|k: u64| #![trigger m[k]] m.contains_key(k) implies lists.contains_key(m[k].betrayed_faction.0@)
                && lists[m[k].betrayed_faction.0@].contains(BetrayalId(k)) by {
                if k == id.0 {
                    assert(lists[f][n as int] == id);
                } else {
                    assert(old_map.contains_key(k));
                    let g = old_map[k].betrayed_faction.0@;
                    assert(old_lists.contains_key(g) && old_lists[g].contains(BetrayalId(k)));
                    let w = choose|w: int| 0 <= w < old_lists[g].len() && old_lists[g][w] == BetrayalId(k);
                    assert(lists[g][w] == BetrayalId(k));
                }
            }
        }
        *self = BetrayalTracker { incidents, by_faction, next_incident_id: next };
        id
    }

    /// The incident with the given identifier.
    pub fn get_incident(&self, id: BetrayalId) -> (r: Option<&BetrayalIncident>)
        ensures
            r is Some <==> self.incident_map().contains_key(id.0),
            r matches Some(i) ==> *i == self.incident_map()[id.0],
    {
        proof {
            use_type_invariant(self);
        }
        get_by_id(&self.incidents, id.0)
    }

    /// The active incidents, in order of their identifiers.
    pub fn active_incidents(&self) -> (r: Vec<&BetrayalIncident>)
        ensures
            r@.map_values(|i: &BetrayalIncident| *i) == self.incident_entries().filter(active_incident()),
    {
        let keep = |i: &BetrayalIncident| -> (b: bool)
            ensures
                b == incident_active(*i),
        {
            i.is_active()
        };
        select(self.incidents.as_slice(), keep, Ghost(active_incident()))
    }

    /// The active incidents against a faction, in the order they began: found
    /// through the faction's list, they are exactly the active incidents
    /// against it, in order of their numbers.
    pub fn active_incidents_for_faction(&self, faction: &SocialFactionId) -> (r: Vec<&BetrayalIncident>)
        ensures
            r@.map_values(|i: &BetrayalIncident| *i) == incidents_of(
                listed(self.faction_lists(), faction.0@),
                self.incident_map(),
            ).filter(active_incident()),
            r@.map_values(|i: &BetrayalIncident| *i) == self.incident_entries().filter(against(faction.0@)).filter(
                active_incident(),
            ),
    {
        proof {
            use_type_invariant(self);
            lemma_listed_incidents(self.faction_lists(), self.incidents@, faction.0@);
        }
        let ghost all = incidents_of(listed(self.faction_lists(), faction.0@), self.incident_map());
        let mut r: Vec<&BetrayalIncident> = Vec::new();
        let (found, pos) = locate(&self.by_faction, faction.as_str());
        if !found {
            proof {
                assert(all =~= Seq::<BetrayalIncident>::empty());
                assert(all.filter(active_incident()) =~= Seq::<BetrayalIncident>::empty()) by {
                    reveal_with_fuel(Seq::<_>::filter, 1);
                }
                assert(r@.map_values(|i: &BetrayalIncident| *i) =~= Seq::<BetrayalIncident>::empty());
            }
            return r;
        }
        proof {
            lemma_key_map_at(self.by_faction@, pos as int);
        }
        let ids = &self.by_faction[pos].incidents;
        let mut k: usize = 0;
        while k < ids.len()
            invariant
                ids@ == listed(self.faction_lists(), faction.0@),
                all == incidents_of(ids@, self.incident_map()),
                k <= ids@.len(),
                sorted_by_id(self.incidents@),
                forall|j: int| 0 <= j < ids@.len() ==> self.incident_map().contains_key(#[trigger] ids@[j].0),
                r@.map_values(|i: &BetrayalIncident| *i) == all.subrange(0, k as int).filter(active_incident()),
            decreases ids@.len() - k,
        {
            let ghost prev = r@;
            proof {
                reveal_with_fuel(Seq::<_>::filter, 1);
                assert(all.subrange(0, k + 1).drop_last() =~= all.subrange(0, k as int));
                assert(self.incident_map().contains_key(ids@[k as int].0));
            }
            match get_by_id(&self.incidents, ids[k].0) {
                Some(incident) => {
                    if incident.is_active() {
                        r.push(incident);
                        proof {
                            assert(r@.map_values(|i: &BetrayalIncident| *i) =~= prev.map_values(
                                |i: &BetrayalIncident| *i,
                            ).push(*incident));
                        }
                    }
                    proof {
                        assert(all.subrange(0, k + 1).last() == *incident);
                        assert(r@.map_values(|i: &BetrayalIncident| *i) =~= all.subrange(0, k + 1).filter(
                            active_incident(),
                        ));
                    }
                },
                None => {},
            }
            k = k + 1;
        }
        proof {
            assert(all.subrange(0, ids@.len() as int) =~= all);
        }
        r
    }

    /// The number of incidents, whatever their status.
    pub fn incident_count(&self) -> (n: usize)
        ensures
            n == self.incident_map().len(),
            n == self.incident_entries().len(),
    {
        proof {
            use_type_invariant(self);
            lemma_id_map_len(self.incidents@);
        }
        self.incidents.len()
    }

    /// The number of active incidents.
    pub fn active_incident_count(&self) -> (n: usize)
        ensures
            n == self.incident_entries().filter(active_incident()).len(),
    {
        let active = self.active_incidents();
        proof {
            assert(active@.map_values(|i: &BetrayalIncident| *i).len() == active@.len());
        }
        active.len()
    }

    /// Applies `change` to the incident with the given identifier, when there is one.
    fn update_incident(&mut self, id: BetrayalId, change: IncidentChange) -> (found: bool)
        ensures
            found == old(self).incident_map().contains_key(id.0),
            final(self).incident_map() == if found {
                old(self).incident_map().insert(id.0, change.apply(old(self).incident_map()[id.0]))
            } else {
                old(self).incident_map()
            },
            final(self).faction_lists() == old(self).faction_lists(),
            final(self).next_incident_id() == old(self).next_incident_id(),
    {
        proof {
            use_type_invariant(&*self);
        }
        let (found, i) = find_id(&self.incidents, id.0);
        if !found {
            return false;
        }
        let mut tracker = BetrayalTracker::new();
        std::mem::swap(&mut tracker, self);
        proof {
            use_type_invariant(&tracker);
        }
        let ghost lists = tracker.faction_lists();
        let BetrayalTracker { mut incidents, by_faction, next_incident_id } = tracker;
        let ghost s = incidents@;
        proof {
            lemma_id_map_at(s, i as int);
        }
        let mut incident = incidents.remove(i);
        match change {
            IncidentChange::Detect(tick) => incident.detect(tick),
            IncidentChange::Execute => incident.execute(),
            IncidentChange::Resolve(resolution, tick) => incident.resolve(resolution, tick),
        }
        let ghost iv = incident;
        incidents.insert(i, incident);
        proof {
            assert(incidents@ =~= s.update(i as int, iv));
            lemma_id_map_update(s, i as int, iv);
            assert forall|j: int| 0 <= j < incidents@.len() implies #[trigger] incidents@[j].id.0 < next_incident_id by {
                assert(incidents@[j].id == s[j].id);
            }
            let m0 = id_map(s);
            let m = id_map(incidents@);
            assert(iv.betrayed_faction == s[i as int].betrayed_faction);
            assert forall|g: Seq<char>, j: int| #![trigger lists[g][j]]
                lists.contains_key(g) && 0 <= j < lists[g].len() implies m.contains_key(lists[g][j].0)
                && m[lists[g][j].0].betrayed_faction.0@ == g by {
                assert(m0.contains_key(lists[g][j].0));
            }
            assert forall|k: u64| #![trigger m[k]] m.contains_key(k) implies lists.contains_key(m[k].betrayed_faction.0@)
                && lists[m[k].betrayed_faction.0@].contains(BetrayalId(k)) by {
                assert(m0.contains_key(k));
                assert(m0[k].betrayed_faction == m[k].betrayed_faction);
            }
        }
        *self = BetrayalTracker { incidents, by_faction, next_incident_id };
        true
    }

    /// Detects the plot with the given identifier at `tick`; returns whether
    /// there is such an incident.
    pub fn detect_incident(&mut self, id: BetrayalId, tick: u64) -> (found: bool)
        ensures
            found == old(self).incident_map().contains_key(id.0),
            final(self).incident_map() == if found {
                old(self).incident_map().insert(id.0, detected(old(self).incident_map()[id.0], tick))
            } else {
                old(self).incident_map()
            },
            final(self).faction_lists() == old(self).faction_lists(),
            final(self).next_incident_id() == old(self).next_incident_id(),
    {
        self.update_incident(id, IncidentChange::Detect(tick))
    }

    /// Carries out the plot with the given identifier; returns whether there
    /// is such an incident.
    pub fn execute_incident(&mut self, id: BetrayalId) -> (found: bool)
        ensures
            found == old(self).incident_map().contains_key(id.0),
            final(self).incident_map() == if found {
                old(self).incident_map().insert(id.0, executed(old(self).incident_map()[id.0]))
            } else {
                old(self).incident_map()
            },
            final(self).faction_lists() == old(self).faction_lists(),
            final(self).next_incident_id() == old(self).next_incident_id(),
    {
        self.update_incident(id, IncidentChange::Execute)
    }

    /// Resolves the incident with the given identifier at `tick`; returns
    /// whether there is such an incident.
    pub fn resolve_incident(&mut self, id: BetrayalId, resolution: BetrayalResolution, tick: u64) -> (found: bool)
        ensures
            found == old(self).incident_map().contains_key(id.0),
            final(self).incident_map() == if found {
                old(self).incident_map().insert(id.0, resolved(old(self).incident_map()[id.0], resolution, tick))
            } else {
                old(self).incident_map()
            },
            final(self).faction_lists() == old(self).faction_lists(),
            final(self).next_incident_id() == old(self).next_incident_id(),
    {
        self.update_incident(id, IncidentChange::Resolve(resolution, tick))
    }

    /// The CRC32 checksum of the betrayal state: the number of profiles and
    /// their checksums (computed by the host, in order of agent), then the
    /// number of incidents and their checksums.
    pub fn checksum_with_profiles(&self, profile_checksums: &[u32]) -> (c: u32)
        ensures
            c == crc32_of(betrayal_bytes(profile_checksums@, self.incident_entries())),
    {
        let mut bytes: Vec<u8> = Vec::new();
        push_le(&mut bytes, profile_checksums.len() as u64, 8);
        let ghost head = bytes@;
        let mut i: usize = 0;
        while i < profile_checksums.len()
            invariant
                i <= profile_checksums@.len(),
                bytes@ == head + profile_sums(profile_checksums@, i as int),
            decreases profile_checksums@.len() - i,
        {
            push_le(&mut bytes, profile_checksums[i] as u64, 4);
            proof {
                assert(bytes@ =~= head + profile_sums(profile_checksums@, i + 1));
            }
            i = i + 1;
        }
        push_le(&mut bytes, self.incidents.len() as u64, 8);
        let ghost mid = bytes@;
        let mut j: usize = 0;
        while j < self.incidents.len()
            invariant
                j <= self.incidents@.len(),
                bytes@ == mid + incident_sums(self.incidents@, j as int),
            decreases self.incidents@.len() - j,
        {
            let c = self.incidents[j].checksum();
            push_le(&mut bytes, c as u64, 4);
            proof {
                assert(bytes@ =~= mid + incident_sums(self.incidents@, j + 1));
            }
            j = j + 1;
        }
        proof {
            assert(bytes@ =~= betrayal_bytes(profile_checksums@, self.incidents@));
        }
        crc32(&bytes)
    }
}

/// A change to one incident.
enum IncidentChange {
    Detect(u64),
    Execute,
    Resolve(BetrayalResolution, u64),
}

impl IncidentChange {
    spec fn apply(self, i: BetrayalIncident) -> BetrayalIncident {
        match self {
            IncidentChange::Detect(tick) => detected(i, tick),
            IncidentChange::Execute => executed(i),
            IncidentChange::Resolve(resolution, tick) => resolved(i, resolution, tick),
        }
    }
}

} // verus!
