//! The diplomatic state of all factions: one relation per unordered pair of
//! factions, and the treaties signed between them.

use vstd::prelude::*;
use crate::id_table::{
    find_id, get_by_id, has_id, id_map, insert_by_id, lemma_id_map_at, lemma_id_map_len, lemma_id_map_update, select, sorted_by_id,
    Identified,
};
use crate::keys::{compare_keys, key_lt, lemma_key_order, KeyOrder};
use crate::checksum::{crc32, crc32_of, le_bytes, push_le};
use super::diplomacy::{
    other_treaty, relation_bytes, saturating_add_i32, stance_after_favor, treaty_bytes, DiplomaticRelation, DiplomaticStance, RelationView, Treaty, TreatyId, TreatyKind, TreatyStatus};
use super::ids::SocialFactionId;
use super::relations::{
    lemma_pair_map_at, lemma_pair_map_insert, lemma_pair_map_len, lemma_pair_map_update, locate_pair, pair_map, pair_of,
    sorted_by_pair,
};

verus! {

/// The pair of names in key order: a relation between two factions is kept
/// under the same pair whichever of them is named first.
pub open spec fn ordered_pair(a: Seq<char>, b: Seq<char>) -> (Seq<char>, Seq<char>) {
    if key_lt(b, a) {
        (b, a)
    } else {
        (a, b)
    }
}

/// A neutral relation under `k`, without favor or treaties, created at `tick`.
pub open spec fn fresh_relation(k: (Seq<char>, Seq<char>), tick: u64) -> RelationView {
    RelationView {
        faction_a: k.0,
        faction_b: k.1,
        stance: DiplomaticStance::Neutral,
        accumulated_favor: 0,
        last_interaction_tick: tick,
        active_treaties: Seq::empty(),
    }
}

/// The relation kept under `k`, or a fresh one created at `tick`.
pub open spec fn relation_or_fresh(
    m: Map<(Seq<char>, Seq<char>), RelationView>,
    k: (Seq<char>, Seq<char>),
    tick: u64,
) -> RelationView {
    if m.contains_key(k) {
        m[k]
    } else {
        fresh_relation(k, tick)
    }
}

/// The stance between two factions: that of their relation, neutral without one.
pub open spec fn stance_in(m: Map<(Seq<char>, Seq<char>), RelationView>, a: Seq<char>, b: Seq<char>) -> DiplomaticStance {
    let k = ordered_pair(a, b);
    if m.contains_key(k) {
        m[k].stance
    } else {
        DiplomaticStance::Neutral
    }
}

/// The relations after the stance between `a` and `b` is set at `tick`.
pub open spec fn with_stance_set(
    m: Map<(Seq<char>, Seq<char>), RelationView>,
    a: Seq<char>,
    b: Seq<char>,
    stance: DiplomaticStance,
    tick: u64,
) -> Map<(Seq<char>, Seq<char>), RelationView> {
    let k = ordered_pair(a, b);
    m.insert(k, RelationView { stance, last_interaction_tick: tick, ..relation_or_fresh(m, k, tick) })
}

/// The relation after `delta` is added to its favor at `tick`.
pub open spec fn with_favor(r: RelationView, delta: i32, tick: u64) -> RelationView {
    let favor = saturating_add_i32(r.accumulated_favor, delta);
    RelationView {
        accumulated_favor: favor,
        stance: stance_after_favor(r.stance, favor),
        last_interaction_tick: tick,
        ..r
    }
}

/// The relation with the treaty recorded, once.
pub open spec fn with_treaty(r: RelationView, id: TreatyId) -> RelationView {
    RelationView {
        active_treaties: if r.active_treaties.contains(id) {
            r.active_treaties
        } else {
            r.active_treaties.push(id)
        },
        ..r
    }
}

/// The relation with the treaty forgotten.
pub open spec fn without_treaty(r: RelationView, id: TreatyId) -> RelationView {
    RelationView { active_treaties: r.active_treaties.filter(other_treaty(id)), ..r }
}

/// The names of a list of factions.
pub open spec fn faction_names(s: Seq<SocialFactionId>) -> Seq<Seq<char>> {
    s.map_values(|f: SocialFactionId| f.0@)
}

/// The relations after party `i` is linked by treaty `id` with parties
/// `i + 1 .. j`, in that order; missing relations are created at `tick`.
pub open spec fn link_row(
    m: Map<(Seq<char>, Seq<char>), RelationView>,
    p: Seq<Seq<char>>,
    i: int,
    j: int,
    id: TreatyId,
    tick: u64,
) -> Map<(Seq<char>, Seq<char>), RelationView>
    decreases j - i,
{
    if j <= i + 1 {
        m
    } else {
        let before = link_row(m, p, i, j - 1, id, tick);
        let k = ordered_pair(p[i], p[j - 1]);
        before.insert(k, with_treaty(relation_or_fresh(before, k, tick), id))
    }
}

/// The relations after each of the first `n` parties is linked by treaty `id`
/// with every party after it.
pub open spec fn link_pairs(
    m: Map<(Seq<char>, Seq<char>), RelationView>,
    p: Seq<Seq<char>>,
    n: int,
    id: TreatyId,
    tick: u64,
) -> Map<(Seq<char>, Seq<char>), RelationView>
    decreases n,
{
    if n <= 0 {
        m
    } else {
        link_row(link_pairs(m, p, n - 1, id, tick), p, n - 1, p.len() as int, id, tick)
    }
}

/// The relations after treaty `id` is dropped from the existing relations
/// between party `i` and parties `i + 1 .. j`.
pub open spec fn unlink_row(
    m: Map<(Seq<char>, Seq<char>), RelationView>,
    p: Seq<Seq<char>>,
    i: int,
    j: int,
    id: TreatyId,
) -> Map<(Seq<char>, Seq<char>), RelationView>
    decreases j - i,
{
    if j <= i + 1 {
        m
    } else {
        let before = unlink_row(m, p, i, j - 1, id);
        let k = ordered_pair(p[i], p[j - 1]);
        if before.contains_key(k) {
            before.insert(k, without_treaty(before[k], id))
        } else {
            before
        }
    }
}

/// The relations after treaty `id` is dropped from the existing relations
/// between each of the first `n` parties and every party after it.
pub open spec fn unlink_pairs(
    m: Map<(Seq<char>, Seq<char>), RelationView>,
    p: Seq<Seq<char>>,
    n: int,
    id: TreatyId,
) -> Map<(Seq<char>, Seq<char>), RelationView>
    decreases n,
{
    if n <= 0 {
        m
    } else {
        unlink_row(unlink_pairs(m, p, n - 1, id), p, n - 1, p.len() as int, id)
    }
}

/// The pairs between party `i` and parties `i + 1 .. j` that have a relation in `m`.
pub open spec fn related_row(
    m: Map<(Seq<char>, Seq<char>), RelationView>,
    p: Seq<Seq<char>>,
    i: int,
    j: int,
) -> Seq<(Seq<char>, Seq<char>)>
    decreases j - i,
{
    if j <= i + 1 {
        Seq::empty()
    } else {
        let k = ordered_pair(p[i], p[j - 1]);
        related_row(m, p, i, j - 1) + if m.contains_key(k) {
            seq![k]
        } else {
            Seq::empty()
        }
    }
}

/// The pairs of parties, in order, that have a relation in `m`.
pub open spec fn related_pairs(m: Map<(Seq<char>, Seq<char>), RelationView>, p: Seq<Seq<char>>, n: int) -> Seq<
    (Seq<char>, Seq<char>),
>
    decreases n,
{
    if n <= 0 {
        Seq::empty()
    } else {
        related_pairs(m, p, n - 1) + related_row(m, p, n - 1, p.len() as int)
    }
}

/// The names of a list of faction pairs.
pub open spec fn pair_names(s: Seq<(SocialFactionId, SocialFactionId)>) -> Seq<(Seq<char>, Seq<char>)> {
    s.map_values(|q: (SocialFactionId, SocialFactionId)| (q.0.0@, q.1.0@))
}

/// The keys of a map of relations are ordered pairs.
pub open spec fn keys_ordered(m: Map<(Seq<char>, Seq<char>), RelationView>) -> bool {
    forall|k: (Seq<char>, Seq<char>)| #[trigger] m.contains_key(k) ==> !key_lt(k.1, k.0)
}

/// An ordered pair is never reversed.
pub proof fn lemma_ordered_pair(a: Seq<char>, b: Seq<char>)
    ensures
        !key_lt(ordered_pair(a, b).1, ordered_pair(a, b).0),
        ordered_pair(a, b) == ordered_pair(b, a),
{
    lemma_key_order(a, b);
}

/// The two names in key order.
fn ordered_names<'a>(a: &'a str, b: &'a str) -> (r: (&'a str, &'a str))
    ensures
        (r.0@, r.1@) == ordered_pair(a@, b@),
{
    match compare_keys(a, b) {
        KeyOrder::Greater => (b, a),
        _ => (a, b),
    }
}

/// Makes sure a relation is kept under the pair `(a, b)`, creating a neutral
/// one at `tick` when there is none, and returns its position.
fn ensure_relation(v: &mut Vec<DiplomaticRelation>, a: &str, b: &str, tick: u64) -> (i: usize)
    requires
        sorted_by_pair(old(v)@),
    ensures
        sorted_by_pair(final(v)@),
        pair_map(final(v)@) == pair_map(old(v)@).insert((a@, b@), relation_or_fresh(pair_map(old(v)@), (a@, b@), tick)),
        i < final(v)@.len(),
        pair_of(final(v)@[i as int]) == (a@, b@),
{
    let (found, i) = locate_pair(v, a, b);
    if found {
        proof {
            lemma_pair_map_at(v@, i as int);
            assert(pair_map(v@).insert((a@, b@), pair_map(v@)[(a@, b@)]) =~= pair_map(v@));
        }
        i
    } else {
        let r = DiplomaticRelation::new(SocialFactionId::new(a), SocialFactionId::new(b), tick);
        proof {
            assert(r@ =~= fresh_relation((a@, b@), tick));
            lemma_pair_map_insert(v@, i as int, r);
        }
        v.insert(i, r);
        i
    }
}

/// Records treaty `id` on the relation at position `i`.
fn add_treaty_at(v: &mut Vec<DiplomaticRelation>, i: usize, id: TreatyId)
    requires
        sorted_by_pair(old(v)@),
        i < old(v)@.len(),
    ensures
        sorted_by_pair(final(v)@),
        pair_map(final(v)@) == pair_map(old(v)@).insert(
            pair_of(old(v)@[i as int]),
            with_treaty(pair_map(old(v)@)[pair_of(old(v)@[i as int])], id),
        ),
{
    let ghost s = v@;
    proof {
        lemma_pair_map_at(s, i as int);
    }
    let mut r = v.remove(i);
    r.add_treaty(id);
    v.insert(i, r);
    proof {
        assert(v@ =~= s.update(i as int, r));
        assert(r@ =~= with_treaty(s[i as int]@, id));
        lemma_pair_map_update(s, i as int, r);
    }
}

/// Forgets treaty `id` on the relation at position `i`.
fn remove_treaty_at(v: &mut Vec<DiplomaticRelation>, i: usize, id: TreatyId)
    requires
        sorted_by_pair(old(v)@),
        i < old(v)@.len(),
    ensures
        sorted_by_pair(final(v)@),
        pair_map(final(v)@) == pair_map(old(v)@).insert(
            pair_of(old(v)@[i as int]),
            without_treaty(pair_map(old(v)@)[pair_of(old(v)@[i as int])], id),
        ),
{
    let ghost s = v@;
    proof {
        lemma_pair_map_at(s, i as int);
    }
    let mut r = v.remove(i);
    r.remove_treaty(id);
    v.insert(i, r);
    proof {
        assert(v@ =~= s.update(i as int, r));
        assert(r@ =~= without_treaty(s[i as int]@, id));
        lemma_pair_map_update(s, i as int, r);
    }
}

/// Adds `delta` to the favor of the relation at position `i` at `tick`.
fn modify_favor_at(v: &mut Vec<DiplomaticRelation>, i: usize, delta: i32, tick: u64)
    requires
        sorted_by_pair(old(v)@),
        i < old(v)@.len(),
    ensures
        sorted_by_pair(final(v)@),
        pair_map(final(v)@) == pair_map(old(v)@).insert(
            pair_of(old(v)@[i as int]),
            with_favor(pair_map(old(v)@)[pair_of(old(v)@[i as int])], delta, tick),
        ),
{
    let ghost s = v@;
    proof {
        lemma_pair_map_at(s, i as int);
    }
    let mut r = v.remove(i);
    r.modify_favor(delta, tick);
    v.insert(i, r);
    proof {
        assert(v@ =~= s.update(i as int, r));
        assert(r@ =~= with_favor(s[i as int]@, delta, tick));
        lemma_pair_map_update(s, i as int, r);
    }
}

/// Sets the stance of the relation at position `i`, touched at `tick`.
fn set_stance_at(v: &mut Vec<DiplomaticRelation>, i: usize, stance: DiplomaticStance, tick: u64)
    requires
        sorted_by_pair(old(v)@),
        i < old(v)@.len(),
    ensures
        sorted_by_pair(final(v)@),
        pair_map(final(v)@) == pair_map(old(v)@).insert(
            pair_of(old(v)@[i as int]),
            RelationView { stance, last_interaction_tick: tick, ..pair_map(old(v)@)[pair_of(old(v)@[i as int])] },
        ),
{
    let ghost s = v@;
    proof {
        lemma_pair_map_at(s, i as int);
    }
    let mut r = v.remove(i);
    r.stance = stance;
    r.last_interaction_tick = tick;
    v.insert(i, r);
    proof {
        assert(v@ =~= s.update(i as int, r));
        assert(r@ =~= RelationView { stance, last_interaction_tick: tick, ..s[i as int]@ });
        lemma_pair_map_update(s, i as int, r);
    }
}

/// Links every pair of parties, in order, by treaty `id`, creating missing
/// relations at `tick`.
fn link_parties(v: &mut Vec<DiplomaticRelation>, parties: &[SocialFactionId], id: TreatyId, tick: u64)
    requires
        sorted_by_pair(old(v)@),
        keys_ordered(pair_map(old(v)@)),
    ensures
        sorted_by_pair(final(v)@),
        keys_ordered(pair_map(final(v)@)),
        pair_map(final(v)@) == link_pairs(pair_map(old(v)@), faction_names(parties@), parties@.len() as int, id, tick),
{
    let ghost p = faction_names(parties@);
    let ghost m0 = pair_map(v@);
    let n = parties.len();
    let mut i: usize = 0;
    while i < n
        invariant
            n == parties@.len(),
            p == faction_names(parties@),
            i <= n,
            sorted_by_pair(v@),
            keys_ordered(pair_map(v@)),
            pair_map(v@) == link_pairs(m0, p, i as int, id, tick),
        decreases n - i,
    {
        let ghost row_start = pair_map(v@);
        let mut j: usize = i + 1;
        while j < n
            invariant
                n == parties@.len(),
                p == faction_names(parties@),
                i < n,
                i + 1 <= j <= n,
                sorted_by_pair(v@),
                keys_ordered(pair_map(v@)),
                row_start == link_pairs(m0, p, i as int, id, tick),
                pair_map(v@) == link_row(row_start, p, i as int, j as int, id, tick),
            decreases n - j,
        {
            let (ka, kb) = ordered_names(parties[i].as_str(), parties[j].as_str());
            let ghost before = pair_map(v@);
            let idx = ensure_relation(v, ka, kb, tick);
            add_treaty_at(v, idx, id);
            proof {
                assert(p[i as int] == parties@[i as int].0@);
                assert(p[j as int] == parties@[j as int].0@);
                lemma_ordered_pair(p[i as int], p[j as int]);
                assert(pair_map(v@) =~= link_row(row_start, p, i as int, j + 1, id, tick));
                assert forall|k: (Seq<char>, Seq<char>)| #[trigger] pair_map(v@).contains_key(k) implies !key_lt(k.1, k.0) by {
                    if k != (ka@, kb@) {
                        assert(before.contains_key(k));
                    }
                }
            }
            j = j + 1;
        }
        i = i + 1;
    }
}

/// Drops treaty `id` from the existing relations between every pair of
/// parties, in order, and returns those pairs.
fn unlink_parties(v: &mut Vec<DiplomaticRelation>, parties: &[SocialFactionId], id: TreatyId) -> (touched: Vec<
    (SocialFactionId, SocialFactionId),
>)
    requires
        sorted_by_pair(old(v)@),
        keys_ordered(pair_map(old(v)@)),
    ensures
        sorted_by_pair(final(v)@),
        keys_ordered(pair_map(final(v)@)),
        pair_map(final(v)@) == unlink_pairs(pair_map(old(v)@), faction_names(parties@), parties@.len() as int, id),
        pair_names(touched@) == related_pairs(pair_map(old(v)@), faction_names(parties@), parties@.len() as int),
{
    let ghost p = faction_names(parties@);
    let ghost m0 = pair_map(v@);
    let mut touched: Vec<(SocialFactionId, SocialFactionId)> = Vec::new();
    let n = parties.len();
    let mut i: usize = 0;
    proof {
        assert(pair_names(touched@) =~= Seq::<(Seq<char>, Seq<char>)>::empty());
    }
    while i < n
        invariant
            n == parties@.len(),
            p == faction_names(parties@),
            i <= n,
            sorted_by_pair(v@),
            keys_ordered(pair_map(v@)),
            pair_map(v@).dom() == m0.dom(),
            pair_map(v@) == unlink_pairs(m0, p, i as int, id),
            pair_names(touched@) == related_pairs(m0, p, i as int),
        decreases n - i,
    {
        let ghost row_start = pair_map(v@);
        let ghost touched_start = pair_names(touched@);
        let mut j: usize = i + 1;
        proof {
            assert(touched_start + related_row(m0, p, i as int, j as int) =~= touched_start);
        }
        while j < n
            invariant
                n == parties@.len(),
                p == faction_names(parties@),
                i < n,
                i + 1 <= j <= n,
                sorted_by_pair(v@),
                keys_ordered(pair_map(v@)),
                pair_map(v@).dom() == m0.dom(),
                row_start == unlink_pairs(m0, p, i as int, id),
                pair_map(v@) == unlink_row(row_start, p, i as int, j as int, id),
                touched_start == related_pairs(m0, p, i as int),
                pair_names(touched@) == touched_start + related_row(m0, p, i as int, j as int),
            decreases n - j,
        {
            let (ka, kb) = ordered_names(parties[i].as_str(), parties[j].as_str());
            let ghost before = pair_map(v@);
            let ghost names_before = pair_names(touched@);
            proof {
                assert(p[i as int] == parties@[i as int].0@);
                assert(p[j as int] == parties@[j as int].0@);
            }
            let (found, idx) = locate_pair(v, ka, kb);
            if found {
                proof {
                    lemma_pair_map_at(v@, idx as int);
                }
                remove_treaty_at(v, idx, id);
                let pair = (SocialFactionId::new(ka), SocialFactionId::new(kb));
                touched.push(pair);
                proof {
                    assert(pair_names(touched@) =~= names_before.push((ka@, kb@)));
                    assert(pair_map(v@).dom() =~= before.dom());
                }
            }
            proof {
                assert(pair_map(v@) =~= unlink_row(row_start, p, i as int, j + 1, id));
                assert(pair_names(touched@) =~= touched_start + related_row(m0, p, i as int, j + 1));
            }
            j = j + 1;
        }
        proof {
            assert(pair_names(touched@) =~= related_pairs(m0, p, i + 1));
        }
        i = i + 1;
    }
    touched
}

/// Copies a list of factions, name for name.
fn copy_factions(s: &[SocialFactionId]) -> (r: Vec<SocialFactionId>)
    ensures
        faction_names(r@) == faction_names(s@),
{
    let mut r: Vec<SocialFactionId> = Vec::new();
    let mut i: usize = 0;
    while i < s.len()
        invariant
            i <= s@.len(),
            r@.len() == i,
            forall|j: int| 0 <= j < i ==> #[trigger] r@[j].0@ == s@[j].0@,
        decreases s@.len() - i,
    {
        r.push(SocialFactionId::new(s[i].as_str()));
        i = i + 1;
    }
    proof {
        assert(faction_names(r@) =~= faction_names(s@));
    }
    r
}

/// Whether a list of factions names the given one.
fn lists_faction(s: &[SocialFactionId], name: &str) -> (b: bool)
    ensures
        b == faction_names(s@).contains(name@),
{
    let mut i: usize = 0;
    while i < s.len()
        invariant
            i <= s@.len(),
            forall|j: int| 0 <= j < i ==> #[trigger] s@[j].0@ != name@,
        decreases s@.len() - i,
    {
        if compare_keys(s[i].as_str(), name) == KeyOrder::Equal {
            proof {
                assert(faction_names(s@)[i as int] == name@);
            }
            return true;
        }
        i = i + 1;
    }
    proof {
        if faction_names(s@).contains(name@) {
            let j = choose|j: int| 0 <= j < faction_names(s@).len() && faction_names(s@)[j] == name@;
            assert(s@[j].0@ == name@);
        }
    }
    false
}

/// The treaty signed as number `id`: of the given kind, between the given
/// parties, at `tick`, active and without expiry.
pub open spec fn signed_treaty(t: Treaty, id: TreatyId, kind: TreatyKind, parties: Seq<SocialFactionId>, tick: u64) -> bool {
    &&& t.id == id
    &&& t.kind == kind
    &&& faction_names(t.parties@) == faction_names(parties)
    &&& t.signed_tick == tick
    &&& t.expires_tick is None
    &&& t.status == TreatyStatus::Active
}

/// Holds of treaties in force.
pub open spec fn treaty_active() -> spec_fn(Treaty) -> bool {
    |t: Treaty| t.status == TreatyStatus::Active
}

/// Holds of treaties in force to which the named faction is a party.
pub open spec fn treaty_in_force_for(name: Seq<char>) -> spec_fn(Treaty) -> bool {
    |t: Treaty| t.status == TreatyStatus::Active && faction_names(t.parties@).contains(name)
}

/// A treaty in force whose expiry tick has been reached at `tick`.
pub open spec fn expiring(t: Treaty, tick: u64) -> bool {
    &&& t.status == TreatyStatus::Active
    &&& match t.expires_tick {
        Some(e) => tick >= e,
        None => false,
    }
}

/// The treaty after expiries are processed at `tick`.
pub open spec fn expired_at(t: Treaty, tick: u64) -> Treaty {
    if expiring(t, tick) {
        Treaty { status: TreatyStatus::Expired(tick), ..t }
    } else {
        t
    }
}

/// The relations after the first `n` treaties that expire at `tick` are
/// dropped from the relations between their parties, in order.
pub open spec fn expire_links(
    m: Map<(Seq<char>, Seq<char>), RelationView>,
    ts: Seq<Treaty>,
    n: int,
    tick: u64,
) -> Map<(Seq<char>, Seq<char>), RelationView>
    decreases n,
{
    if n <= 0 {
        m
    } else {
        let before = expire_links(m, ts, n - 1, tick);
        let t = ts[n - 1];
        if expiring(t, tick) {
            unlink_pairs(before, faction_names(t.parties@), t.parties@.len() as int, t.id)
        } else {
            before
        }
    }
}

/// Processing expiries keeps identifiers, so the map of treaties is mapped
/// entry by entry.
proof fn lemma_expired_map(s: Seq<Treaty>, tick: u64)
    requires
        sorted_by_id(s),
    ensures
        sorted_by_id(s.map_values(|t: Treaty| expired_at(t, tick))),
        id_map(s.map_values(|t: Treaty| expired_at(t, tick))) == id_map(s).map_values(|t: Treaty| expired_at(t, tick)),
{
    let n = s.map_values(|t: Treaty| expired_at(t, tick));
    assert forall|i: int| 0 <= i < n.len() implies #[trigger] n[i].ident() == s[i].ident() by {}
    assert forall|a: int, b: int| 0 <= a < b < n.len() implies #[trigger] n[a].ident() < #[trigger] n[b].ident() by {
        assert(n[a].ident() == s[a].ident());
        assert(n[b].ident() == s[b].ident());
    }
    assert forall|k: u64| has_id(n, k) == has_id(s, k) by {
        if has_id(n, k) {
            let j = choose|j: int| 0 <= j < n.len() && #[trigger] n[j].ident() == k;
            assert(s[j].ident() == k);
        }
        if has_id(s, k) {
            let j = choose|j: int| 0 <= j < s.len() && #[trigger] s[j].ident() == k;
            assert(n[j].ident() == k);
        }
    }
    assert forall|k: u64| #[trigger] id_map(n).contains_key(k) implies id_map(n)[k] == id_map(s).map_values(
        |t: Treaty| expired_at(t, tick),
    )[k] by {
        let j = choose|j: int| 0 <= j < n.len() && #[trigger] n[j].ident() == k;
        lemma_id_map_at(n, j);
        lemma_id_map_at(s, j);
    }
    assert(id_map(n) =~= id_map(s).map_values(|t: Treaty| expired_at(t, tick)));
}

/// The checksums of the first `n` relations, four bytes each, least
/// significant first; relation `i` is checked with trust bits `trust[i]`.
pub open spec fn relation_sums(rs: Seq<DiplomaticRelation>, trust: Seq<u32>, n: int) -> Seq<u8>
    decreases n,
{
    if n <= 0 {
        Seq::empty()
    } else {
        relation_sums(rs, trust, n - 1) + le_bytes(crc32_of(relation_bytes(rs[n - 1]@, trust[n - 1])) as nat, 4)
    }
}

/// The checksums of the first `n` treaties, four bytes each.
pub open spec fn treaty_sums(ts: Seq<Treaty>, n: int) -> Seq<u8>
    decreases n,
{
    if n <= 0 {
        Seq::empty()
    } else {
        treaty_sums(ts, n - 1) + le_bytes(crc32_of(treaty_bytes(ts[n - 1])) as nat, 4)
    }
}

/// The bytes checksummed by `DiplomacyTracker::checksum_with_trust`: the
/// number of relations, their checksums, the number of treaties and their
/// checksums.
pub open spec fn tracker_bytes(rs: Seq<DiplomaticRelation>, trust: Seq<u32>, ts: Seq<Treaty>) -> Seq<u8> {
    le_bytes(rs.len(), 8) + relation_sums(rs, trust, rs.len() as int) + le_bytes(ts.len(), 8) + treaty_sums(
        ts,
        ts.len() as int,
    )
}

impl Identified for Treaty {
    open spec fn ident(&self) -> u64 {
        self.id.0
    }

    fn ident_value(&self) -> (r: u64) {
        self.id.0
    }
}

/// Tracker for all diplomatic state: the relations between pairs of factions,
/// the treaties by identifier, and the identifier the next treaty receives.
#[derive(Debug)]
pub struct DiplomacyTracker {
    relations: Vec<DiplomaticRelation>,
    treaties: Vec<Treaty>,
    next_treaty_id: u64,
}

impl DiplomacyTracker {
    #[verifier::type_invariant]
    spec fn wf(&self) -> bool {
        &&& sorted_by_pair(self.relations@)
        &&& keys_ordered(pair_map(self.relations@))
        &&& sorted_by_id(self.treaties@)
        &&& forall|i: int| 0 <= i < self.treaties@.len() ==> #[trigger] self.treaties@[i].id.0 < self.next_treaty_id
    }

    /// The relations, in order of their pairs of faction names.
    pub closed spec fn relation_entries(&self) -> Seq<DiplomaticRelation> {
        self.relations@
    }

    /// The treaties, in order of their identifiers.
    pub closed spec fn treaty_entries(&self) -> Seq<Treaty> {
        self.treaties@
    }

    /// The number the next signed treaty receives.
    pub closed spec fn next_treaty_id(&self) -> u64 {
        self.next_treaty_id
    }

    /// The relations as a map from the ordered pair of faction names.
    pub open spec fn relation_map(&self) -> Map<(Seq<char>, Seq<char>), RelationView> {
        pair_map(self.relation_entries())
    }

    /// The treaties as a map from identifier number.
    pub open spec fn treaty_map(&self) -> Map<u64, Treaty> {
        id_map(self.treaty_entries())
    }

    /// The stance between two factions.
    pub open spec fn stance_between(&self, a: Seq<char>, b: Seq<char>) -> DiplomaticStance {
        stance_in(self.relation_map(), a, b)
    }

    /// A tracker without relations or treaties; the first treaty is number 0.
    pub fn new() -> (r: Self)
        ensures
            r.relation_entries() == Seq::<DiplomaticRelation>::empty(),
            r.treaty_entries() == Seq::<Treaty>::empty(),
            r.relation_map() == Map::<(Seq<char>, Seq<char>), RelationView>::empty(),
            r.treaty_map() == Map::<u64, Treaty>::empty(),
            r.next_treaty_id() == 0,
    {
        let r = DiplomacyTracker { relations: Vec::new(), treaties: Vec::new(), next_treaty_id: 0 };
        proof {
            assert(pair_map(r.relations@) =~= Map::<(Seq<char>, Seq<char>), RelationView>::empty());
            assert(id_map(r.treaties@) =~= Map::<u64, Treaty>::empty());
        }
        r
    }

    /// The number the next signed treaty receives.
    pub fn next_treaty_number(&self) -> (n: u64)
        ensures
            n == self.next_treaty_id(),
    {
        self.next_treaty_id
    }

    /// The relation between two factions, created neutral at `tick` when they
    /// had none.
    pub fn get_or_create_relation(&mut self, faction_a: &SocialFactionId, faction_b: &SocialFactionId, tick: u64) -> (r:
        &DiplomaticRelation)
        ensures
            final(self).relation_map() == old(self).relation_map().insert(
                ordered_pair(faction_a.0@, faction_b.0@),
                relation_or_fresh(old(self).relation_map(), ordered_pair(faction_a.0@, faction_b.0@), tick),
            ),
            r@ == final(self).relation_map()[ordered_pair(faction_a.0@, faction_b.0@)],
            final(self).treaty_entries() == old(self).treaty_entries(),
            final(self).next_treaty_id() == old(self).next_treaty_id(),
    {
        proof {
            use_type_invariant(&*self);
        }
        let (ka, kb) = ordered_names(faction_a.as_str(), faction_b.as_str());
        let mut relations = Vec::new();
        std::mem::swap(&mut relations, &mut self.relations);
        let i = ensure_relation(&mut relations, ka, kb, tick);
        proof {
            lemma_ordered_pair(faction_a.0@, faction_b.0@);
            lemma_pair_map_at(relations@, i as int);
        }
        self.relations = relations;
        &self.relations[i]
    }

    /// The relation between two factions, when they have one.
    pub fn get_relation(&self, faction_a: &SocialFactionId, faction_b: &SocialFactionId) -> (r: Option<
        &DiplomaticRelation,
    >)
        ensures
            r is Some <==> self.relation_map().contains_key(ordered_pair(faction_a.0@, faction_b.0@)),
            r matches Some(rel) ==> rel@ == self.relation_map()[ordered_pair(faction_a.0@, faction_b.0@)],
    {
        proof {
            use_type_invariant(self);
        }
        let (ka, kb) = ordered_names(faction_a.as_str(), faction_b.as_str());
        let (found, i) = locate_pair(&self.relations, ka, kb);
        if found {
            proof {
                lemma_pair_map_at(self.relations@, i as int);
            }
            Some(&self.relations[i])
        } else {
            None
        }
    }

    /// The stance between two factions; neutral when they have no relation.
    pub fn get_stance(&self, faction_a: &SocialFactionId, faction_b: &SocialFactionId) -> (s: DiplomaticStance)
        ensures
            s == self.stance_between(faction_a.0@, faction_b.0@),
    {
        match self.get_relation(faction_a, faction_b) {
            Some(r) => r.stance,
            None => DiplomaticStance::Neutral,
        }
    }

    /// Sets the stance between two factions at `tick`, creating their relation
    /// when they had none.
    pub fn set_stance(&mut self, faction_a: &SocialFactionId, faction_b: &SocialFactionId, stance: DiplomaticStance, tick: u64)
        ensures
            final(self).relation_map() == with_stance_set(old(self).relation_map(), faction_a.0@, faction_b.0@, stance, tick),
            final(self).treaty_entries() == old(self).treaty_entries(),
            final(self).next_treaty_id() == old(self).next_treaty_id(),
    {
        proof {
            use_type_invariant(&*self);
        }
        let (ka, kb) = ordered_names(faction_a.as_str(), faction_b.as_str());
        let mut relations = Vec::new();
        std::mem::swap(&mut relations, &mut self.relations);
        let ghost m0 = pair_map(relations@);
        let i = ensure_relation(&mut relations, ka, kb, tick);
        set_stance_at(&mut relations, i, stance, tick);
        proof {
            lemma_ordered_pair(faction_a.0@, faction_b.0@);
            assert(pair_map(relations@) =~= with_stance_set(m0, faction_a.0@, faction_b.0@, stance, tick));
        }
        self.relations = relations;
    }

    /// Adds `delta` to the favor between two factions at `tick`, creating
    /// their relation when they had none; the stance follows the favor.
    pub fn modify_favor(&mut self, faction_a: &SocialFactionId, faction_b: &SocialFactionId, delta: i32, tick: u64)
        ensures
            final(self).relation_map() == old(self).relation_map().insert(
                ordered_pair(faction_a.0@, faction_b.0@),
                with_favor(
                    relation_or_fresh(old(self).relation_map(), ordered_pair(faction_a.0@, faction_b.0@), tick),
                    delta,
                    tick,
                ),
            ),
            final(self).treaty_entries() == old(self).treaty_entries(),
            final(self).next_treaty_id() == old(self).next_treaty_id(),
    {
        proof {
            use_type_invariant(&*self);
        }
        let (ka, kb) = ordered_names(faction_a.as_str(), faction_b.as_str());
        let mut relations = Vec::new();
        std::mem::swap(&mut relations, &mut self.relations);
        let ghost m0 = pair_map(relations@);
        let i = ensure_relation(&mut relations, ka, kb, tick);
        modify_favor_at(&mut relations, i, delta, tick);
        proof {
            lemma_ordered_pair(faction_a.0@, faction_b.0@);
            assert(pair_map(relations@) =~= m0.insert(
                (ka@, kb@),
                with_favor(relation_or_fresh(m0, (ka@, kb@), tick), delta, tick),
            ));
        }
        self.relations = relations;
    }

    /// The aggressor declares war on the defender at `tick`.
    pub fn declare_war(&mut self, aggressor: &SocialFactionId, defender: &SocialFactionId, tick: u64)
        ensures
            final(self).relation_map() == with_stance_set(
                old(self).relation_map(),
                aggressor.0@,
                defender.0@,
                DiplomaticStance::War,
                tick,
            ),
            final(self).treaty_entries() == old(self).treaty_entries(),
            final(self).next_treaty_id() == old(self).next_treaty_id(),
    {
        self.set_stance(aggressor, defender, DiplomaticStance::War, tick);
    }

    /// Whether the two factions are at war.
    pub fn are_at_war(&self, faction_a: &SocialFactionId, faction_b: &SocialFactionId) -> (b: bool)
        ensures
            b == (self.stance_between(faction_a.0@, faction_b.0@) == DiplomaticStance::War),
    {
        self.get_stance(faction_a, faction_b) == DiplomaticStance::War
    }

    /// Whether the two factions are allied.
    pub fn are_allied(&self, faction_a: &SocialFactionId, faction_b: &SocialFactionId) -> (b: bool)
        ensures
            b == (self.stance_between(faction_a.0@, faction_b.0@) == DiplomaticStance::Allied),
    {
        self.get_stance(faction_a, faction_b) == DiplomaticStance::Allied
    }

    /// The number of relations.
    pub fn relation_count(&self) -> (n: usize)
        ensures
            n == self.relation_map().len(),
            n == self.relation_entries().len(),
    {
        proof {
            use_type_invariant(self);
            lemma_pair_map_len(self.relations@);
        }
        self.relations.len()
    }

    /// Signs a treaty of the given kind between the parties at `tick` under
    /// the next treaty number, and links every pair of parties by it.
    pub fn sign_treaty(&mut self, kind: TreatyKind, parties: &[SocialFactionId], tick: u64) -> (id: TreatyId)
        requires
            old(self).next_treaty_id() < u64::MAX,
        ensures
            id.0 == old(self).next_treaty_id(),
            !old(self).treaty_map().contains_key(id.0),
            final(self).next_treaty_id() == old(self).next_treaty_id() + 1,
            final(self).treaty_map().dom() == old(self).treaty_map().dom().insert(id.0),
            final(self).treaty_map().remove(id.0) == old(self).treaty_map(),
            signed_treaty(final(self).treaty_map()[id.0], id, kind, parties@, tick),
            final(self).relation_map() == link_pairs(
                old(self).relation_map(),
                faction_names(parties@),
                parties@.len() as int,
                id,
                tick,
            ),
    {
        proof {
            use_type_invariant(&*self);
        }
        let id = TreatyId::new(self.next_treaty_id);
        let ghost old_map = id_map(self.treaties@);
        proof {
            if old_map.contains_key(id.0) {
                let i = choose|i: int| 0 <= i < self.treaties@.len() && #[trigger] self.treaties@[i].ident() == id.0;
                assert(self.treaties@[i].id.0 < self.next_treaty_id);
            }
        }
        let mut relations = Vec::new();
        std::mem::swap(&mut relations, &mut self.relations);
        link_parties(&mut relations, parties, id, tick);
        let treaty = Treaty::new(id, kind, copy_factions(parties), tick);
        let ghost tv = treaty;
        let mut treaties = Vec::new();
        std::mem::swap(&mut treaties, &mut self.treaties);
        let ghost old_treaties = treaties@;
        insert_by_id(&mut treaties, treaty);
        let next = self.next_treaty_id + 1;
        proof {
            assert forall|i: int| 0 <= i < treaties@.len() implies #[trigger] treaties@[i].id.0 < next by {
                lemma_id_map_at(treaties@, i);
                let k = treaties@[i].id.0;
                if k != id.0 {
                    assert(id_map(old_treaties).contains_key(k));
                    let j = choose|j: int| 0 <= j < old_treaties.len() && #[trigger] old_treaties[j].ident() == k;
                    assert(old_treaties[j].id.0 < self.next_treaty_id);
                }
            }
            assert(id_map(treaties@).remove(id.0) =~= old_map);
        }
        self.next_treaty_id = next;
        self.treaties = treaties;
        self.relations = relations;
        id
    }

    /// Breaks the treaty at `tick`: it is marked broken and dropped from the
    /// relations between its parties. Returns the pairs of parties whose
    /// relation dropped it, in order; nothing changes for an unknown treaty.
    pub fn break_treaty(&mut self, treaty_id: TreatyId, tick: u64) -> (touched: Vec<(SocialFactionId, SocialFactionId)>)
        ensures
            final(self).next_treaty_id() == old(self).next_treaty_id(),
            !old(self).treaty_map().contains_key(treaty_id.0) ==> {
                &&& final(self).treaty_entries() == old(self).treaty_entries()
                &&& final(self).relation_entries() == old(self).relation_entries()
                &&& touched@.len() == 0
            },
            old(self).treaty_map().contains_key(treaty_id.0) ==> {
                let t = old(self).treaty_map()[treaty_id.0];
                &&& final(self).treaty_map() == old(self).treaty_map().insert(
                    treaty_id.0,
                    Treaty { status: TreatyStatus::Broken(tick), ..t },
                )
                &&& final(self).relation_map() == unlink_pairs(
                    old(self).relation_map(),
                    faction_names(t.parties@),
                    t.parties@.len() as int,
                    treaty_id,
                )
                &&& pair_names(touched@) == related_pairs(
                    old(self).relation_map(),
                    faction_names(t.parties@),
                    t.parties@.len() as int,
                )
            },
    {
        proof {
            use_type_invariant(&*self);
        }
        let (found, i) = find_id(&self.treaties, treaty_id.0);
        if !found {
            return Vec::new();
        }
        let mut treaties = Vec::new();
        std::mem::swap(&mut treaties, &mut self.treaties);
        let ghost ts = treaties@;
        proof {
            lemma_id_map_at(ts, i as int);
        }
        let mut t = treaties.remove(i);
        t.break_treaty(tick);
        let mut relations = Vec::new();
        std::mem::swap(&mut relations, &mut self.relations);
        let touched = unlink_parties(&mut relations, t.parties.as_slice(), treaty_id);
        let ghost tv = t;
        treaties.insert(i, t);
        proof {
            assert(treaties@ =~= ts.update(i as int, tv));
            lemma_id_map_update(ts, i as int, tv);
            assert(tv == Treaty { status: TreatyStatus::Broken(tick), ..ts[i as int] });
            assert forall|j: int| 0 <= j < treaties@.len() implies #[trigger] treaties@[j].id.0 < self.next_treaty_id by {
                assert(treaties@[j].id == ts[j].id);
            }
        }
        self.treaties = treaties;
        self.relations = relations;
        touched
    }

    /// Marks every treaty in force whose expiry tick has been reached as
    /// expired at `tick`, and drops each from the relations between its
    /// parties, in order of treaty number.
    pub fn tick_treaties(&mut self, tick: u64)
        ensures
            final(self).treaty_entries() == old(self).treaty_entries().map_values(|t: Treaty| expired_at(t, tick)),
            final(self).treaty_map() == old(self).treaty_map().map_values(|t: Treaty| expired_at(t, tick)),
            final(self).relation_map() == expire_links(
                old(self).relation_map(),
                old(self).treaty_entries(),
                old(self).treaty_entries().len() as int,
                tick,
            ),
            final(self).next_treaty_id() == old(self).next_treaty_id(),
    {
        proof {
            use_type_invariant(&*self);
        }
        let mut treaties = Vec::new();
        std::mem::swap(&mut treaties, &mut self.treaties);
        let mut relations = Vec::new();
        std::mem::swap(&mut relations, &mut self.relations);
        let ghost ts0 = treaties@;
        let ghost m0 = pair_map(relations@);
        let mut i: usize = 0;
        while i < treaties.len()
            invariant
                treaties@.len() == ts0.len(),
                i <= ts0.len(),
                forall|j: int| 0 <= j < i ==> #[trigger] treaties@[j] == expired_at(ts0[j], tick),
                forall|j: int| i <= j < ts0.len() ==> #[trigger] treaties@[j] == ts0[j],
                sorted_by_pair(relations@),
                keys_ordered(pair_map(relations@)),
                pair_map(relations@) == expire_links(m0, ts0, i as int, tick),
            decreases ts0.len() - i,
        {
            let due = treaties[i].is_active() && treaties[i].is_expired(tick);
            let ghost before = treaties@;
            if due {
                let mut t = treaties.remove(i);
                let _ = unlink_parties(&mut relations, t.parties.as_slice(), t.id);
                t.expire(tick);
                treaties.insert(i, t);
                proof {
                    assert(treaties@ =~= before.update(i as int, expired_at(ts0[i as int], tick)));
                }
            }
            proof {
                assert(treaties@[i as int] == expired_at(ts0[i as int], tick));
            }
            i = i + 1;
        }
        proof {
            assert(treaties@ =~= ts0.map_values(|t: Treaty| expired_at(t, tick)));
            lemma_expired_map(ts0, tick);
            assert forall|j: int| 0 <= j < treaties@.len() implies #[trigger] treaties@[j].id.0 < self.next_treaty_id by {
                assert(treaties@[j].id == ts0[j].id);
            }
        }
        self.treaties = treaties;
        self.relations = relations;
    }

    /// The treaty with the given identifier.
    pub fn get_treaty(&self, id: TreatyId) -> (r: Option<&Treaty>)
        ensures
            r is Some <==> self.treaty_map().contains_key(id.0),
            r matches Some(t) ==> *t == self.treaty_map()[id.0],
    {
        proof {
            use_type_invariant(self);
        }
        get_by_id(&self.treaties, id.0)
    }

    /// The treaties in force, in order of treaty number.
    pub fn active_treaties(&self) -> (r: Vec<&Treaty>)
        ensures
            r@.map_values(|t: &Treaty| *t) == self.treaty_entries().filter(treaty_active()),
    {
        let keep = |t: &Treaty| -> (b: bool)
            ensures
                b == (t.status == TreatyStatus::Active),
        {
            t.is_active()
        };
        select(self.treaties.as_slice(), keep, Ghost(treaty_active()))
    }

    /// The treaties in force to which the faction is a party, in order of
    /// treaty number.
    pub fn treaties_for_faction(&self, faction: &SocialFactionId) -> (r: Vec<&Treaty>)
        ensures
            r@.map_values(|t: &Treaty| *t) == self.treaty_entries().filter(treaty_in_force_for(faction.0@)),
    {
        let name = faction.as_str();
        let keep = |t: &Treaty| -> (b: bool)
            ensures
                b == (t.status == TreatyStatus::Active && faction_names(t.parties@).contains(name@)),
        {
            t.is_active() && lists_faction(t.parties.as_slice(), name)
        };
        select(self.treaties.as_slice(), keep, Ghost(treaty_in_force_for(faction.0@)))
    }

    /// The number of treaties, whatever their status.
    pub fn treaty_count(&self) -> (n: usize)
        ensures
            n == self.treaty_map().len(),
            n == self.treaty_entries().len(),
    {
        proof {
            use_type_invariant(self);
            lemma_id_map_len(self.treaties@);
        }
        self.treaties.len()
    }

    /// All treaties, in order of treaty number.
    pub fn treaties(&self) -> (r: &[Treaty])
        ensures
            r@ == self.treaty_entries(),
            sorted_by_id(r@),
    {
        proof {
            use_type_invariant(self);
        }
        self.treaties.as_slice()
    }

    /// The CRC32 checksum of the diplomatic state; `trust_bits[i]` holds the
    /// bits of the trust between the factions of the `i`-th relation in the
    /// order of `relations`.
    pub fn checksum_with_trust(&self, trust_bits: &[u32]) -> (c: u32)
        requires
            trust_bits@.len() == self.relation_entries().len(),
        ensures
            c == crc32_of(tracker_bytes(self.relation_entries(), trust_bits@, self.treaty_entries())),
    {
        let mut bytes: Vec<u8> = Vec::new();
        push_le(&mut bytes, self.relations.len() as u64, 8);
        let ghost head = bytes@;
        let mut i: usize = 0;
        while i < self.relations.len()
            invariant
                i <= self.relations@.len(),
                trust_bits@.len() == self.relations@.len(),
                bytes@ == head + relation_sums(self.relations@, trust_bits@, i as int),
            decreases self.relations@.len() - i,
        {
            let c = self.relations[i].checksum_with_trust(trust_bits[i]);
            push_le(&mut bytes, c as u64, 4);
            proof {
                assert(bytes@ =~= head + relation_sums(self.relations@, trust_bits@, i + 1));
            }
            i = i + 1;
        }
        push_le(&mut bytes, self.treaties.len() as u64, 8);
        let ghost mid = bytes@;
        let mut j: usize = 0;
        while j < self.treaties.len()
            invariant
                j <= self.treaties@.len(),
                bytes@ == mid + treaty_sums(self.treaties@, j as int),
            decreases self.treaties@.len() - j,
        {
            let c = self.treaties[j].checksum();
            push_le(&mut bytes, c as u64, 4);
            proof {
                assert(bytes@ =~= mid + treaty_sums(self.treaties@, j + 1));
            }
            j = j + 1;
        }
        proof {
            assert(bytes@ =~= tracker_bytes(self.relations@, trust_bits@, self.treaties@));
        }
        crc32(&bytes)
    }

    /// All relations, in order of their pairs of faction names.
    pub fn relations(&self) -> (r: &[DiplomaticRelation])
        ensures
            r@ == self.relation_entries(),
            sorted_by_pair(r@),
    {
        proof {
            use_type_invariant(self);
        }
        self.relations.as_slice()
    }
}

} // verus!

verus! {

/// The stance between two factions does not depend on which is named first.
pub proof fn law_stance_is_symmetric(m: Map<(Seq<char>, Seq<char>), RelationView>, a: Seq<char>, b: Seq<char>)
    ensures
        stance_in(m, a, b) == stance_in(m, b, a),
{
    lemma_ordered_pair(a, b);
}

/// After the stance between two factions is set, it reads back in either
/// order, and the stance between any other pair of factions is unchanged.
pub proof fn law_set_stance_reads_back(
    m: Map<(Seq<char>, Seq<char>), RelationView>,
    a: Seq<char>,
    b: Seq<char>,
    stance: DiplomaticStance,
    tick: u64,
    c: Seq<char>,
    d: Seq<char>,
)
    ensures
        stance_in(with_stance_set(m, a, b, stance, tick), a, b) == stance,
        stance_in(with_stance_set(m, a, b, stance, tick), b, a) == stance,
        ordered_pair(c, d) != ordered_pair(a, b) ==> stance_in(with_stance_set(m, a, b, stance, tick), c, d)
            == stance_in(m, c, d),
{
    lemma_ordered_pair(a, b);
}

/// Every relation of `m1` is in `m2`, with at least its treaties.
pub open spec fn keeps_treaties(m1: Map<(Seq<char>, Seq<char>), RelationView>, m2: Map<(Seq<char>, Seq<char>), RelationView>) -> bool {
    &&& forall|k: (Seq<char>, Seq<char>)| #[trigger] m1.contains_key(k) ==> m2.contains_key(k)
    &&& forall|k: (Seq<char>, Seq<char>), t: TreatyId|
        #![trigger m2[k].active_treaties.contains(t)]
        #![trigger m1[k].active_treaties.contains(t)]
        m1.contains_key(k) && m1[k].active_treaties.contains(t) ==> m2[k].active_treaties.contains(t)
}

/// `m2` has the relations of `m1`, each with at most its treaties.
pub open spec fn drops_treaties(m1: Map<(Seq<char>, Seq<char>), RelationView>, m2: Map<(Seq<char>, Seq<char>), RelationView>) -> bool {
    &&& m2.dom() == m1.dom()
    &&& forall|k: (Seq<char>, Seq<char>), t: TreatyId|
        #![trigger m2[k].active_treaties.contains(t)]
        m2.contains_key(k) && m2[k].active_treaties.contains(t) ==> m1[k].active_treaties.contains(t)
}

proof fn lemma_link_row(
    m: Map<(Seq<char>, Seq<char>), RelationView>,
    p: Seq<Seq<char>>,
    i: int,
    j: int,
    id: TreatyId,
    tick: u64,
)
    requires
        0 <= i,
        j <= p.len(),
    ensures
        keeps_treaties(m, link_row(m, p, i, j, id, tick)),
        forall|jj: int|
            i < jj < j ==> link_row(m, p, i, j, id, tick).contains_key(#[trigger] ordered_pair(p[i], p[jj]))
                && link_row(m, p, i, j, id, tick)[ordered_pair(p[i], p[jj])].active_treaties.contains(id),
    decreases j - i,
{
    if j > i + 1 {
        lemma_link_row(m, p, i, j - 1, id, tick);
        let before = link_row(m, p, i, j - 1, id, tick);
        let k = ordered_pair(p[i], p[j - 1]);
        let after = link_row(m, p, i, j, id, tick);
        assert(after == before.insert(k, with_treaty(relation_or_fresh(before, k, tick), id)));
        assert(with_treaty(relation_or_fresh(before, k, tick), id).active_treaties.contains(id)) by {
            let r = relation_or_fresh(before, k, tick);
            if !r.active_treaties.contains(id) {
                assert(r.active_treaties.push(id)[r.active_treaties.len() as int] == id);
            }
        }
        assert forall|q: (Seq<char>, Seq<char>), t: TreatyId| m.contains_key(q) implies after.contains_key(q) && (
        m[q].active_treaties.contains(t) ==> #[trigger] after[q].active_treaties.contains(t)) by {
            assert(before.contains_key(q));
            if m[q].active_treaties.contains(t) {
                assert(before[q].active_treaties.contains(t));
                if q == k && !before[q].active_treaties.contains(id) {
                    let s = before[q].active_treaties;
                    let w = choose|w: int| 0 <= w < s.len() && s[w] == t;
                    assert(s.push(id)[w] == t);
                }
            }
        }
    }
}

proof fn lemma_link_pairs(
    m: Map<(Seq<char>, Seq<char>), RelationView>,
    p: Seq<Seq<char>>,
    n: int,
    id: TreatyId,
    tick: u64,
)
    requires
        n <= p.len(),
    ensures
        keeps_treaties(m, link_pairs(m, p, n, id, tick)),
        forall|i: int, j: int|
            0 <= i < j < p.len() && i < n ==> link_pairs(m, p, n, id, tick).contains_key(
                #[trigger] ordered_pair(p[i], p[j]),
            ) && link_pairs(m, p, n, id, tick)[ordered_pair(p[i], p[j])].active_treaties.contains(id),
    decreases n,
{
    if n > 0 {
        lemma_link_pairs(m, p, n - 1, id, tick);
        let before = link_pairs(m, p, n - 1, id, tick);
        lemma_link_row(before, p, n - 1, p.len() as int, id, tick);
        let after = link_pairs(m, p, n, id, tick);
        assert forall|q: (Seq<char>, Seq<char>), t: TreatyId| m.contains_key(q) implies after.contains_key(q) && (
        m[q].active_treaties.contains(t) ==> #[trigger] after[q].active_treaties.contains(t)) by {
            assert(before.contains_key(q));
            if m[q].active_treaties.contains(t) {
                assert(before[q].active_treaties.contains(t));
            }
        }
        assert forall|i: int, j: int| 0 <= i < j < p.len() && i < n implies after.contains_key(
            #[trigger] ordered_pair(p[i], p[j]),
        ) && after[ordered_pair(p[i], p[j])].active_treaties.contains(id) by {
            if i < n - 1 {
                let k = ordered_pair(p[i], p[j]);
                assert(before[k].active_treaties.contains(id));
            }
        }
    }
}

/// Signing a treaty links every pair of its parties by it, and no relation
/// loses a treaty or disappears.
pub proof fn law_signing_links_every_pair(
    m: Map<(Seq<char>, Seq<char>), RelationView>,
    parties: Seq<Seq<char>>,
    id: TreatyId,
    tick: u64,
)
    ensures
        keeps_treaties(m, link_pairs(m, parties, parties.len() as int, id, tick)),
        forall|i: int, j: int|
            0 <= i < j < parties.len() ==> link_pairs(m, parties, parties.len() as int, id, tick).contains_key(
                #[trigger] ordered_pair(parties[i], parties[j]),
            ) && link_pairs(m, parties, parties.len() as int, id, tick)[ordered_pair(
                parties[i],
                parties[j],
            )].active_treaties.contains(id),
{
    lemma_link_pairs(m, parties, parties.len() as int, id, tick);
}

proof fn lemma_filter_drops(s: Seq<TreatyId>, id: TreatyId, t: TreatyId)
    ensures
        s.filter(other_treaty(id)).contains(t) <==> (s.contains(t) && t != id),
{
    let f = s.filter(other_treaty(id));
    if s.contains(t) && t != id {
        let w = choose|w: int| 0 <= w < s.len() && s[w] == t;
        s.lemma_filter_contains(other_treaty(id), w);
    }
    if f.contains(t) {
        s.lemma_filter_contains_rev(other_treaty(id), t);
        let w = choose|w: int| 0 <= w < f.len() && f[w] == t;
        s.lemma_filter_pred(other_treaty(id), w);
    }
}

proof fn lemma_unlink_row(
    m: Map<(Seq<char>, Seq<char>), RelationView>,
    p: Seq<Seq<char>>,
    i: int,
    j: int,
    id: TreatyId,
)
    requires
        0 <= i,
        j <= p.len(),
    ensures
        drops_treaties(m, unlink_row(m, p, i, j, id)),
        forall|jj: int|
            i < jj < j && unlink_row(m, p, i, j, id).contains_key(#[trigger] ordered_pair(p[i], p[jj]))
                ==> !unlink_row(m, p, i, j, id)[ordered_pair(p[i], p[jj])].active_treaties.contains(id),
    decreases j - i,
{
    if j > i + 1 {
        lemma_unlink_row(m, p, i, j - 1, id);
        let before = unlink_row(m, p, i, j - 1, id);
        let k = ordered_pair(p[i], p[j - 1]);
        let after = unlink_row(m, p, i, j, id);
        if before.contains_key(k) {
            assert(after.dom() =~= before.dom());
            assert forall|q: (Seq<char>, Seq<char>), t: TreatyId| after.contains_key(q) && after[q].active_treaties.contains(t)
                implies #[trigger] m[q].active_treaties.contains(t) by {
                if q == k {
                    lemma_filter_drops(before[k].active_treaties, id, t);
                }
                assert(before[q].active_treaties.contains(t));
            }
            assert forall|jj: int| i < jj < j && after.contains_key(#[trigger] ordered_pair(p[i], p[jj])) implies !after[ordered_pair(
                p[i],
                p[jj],
            )].active_treaties.contains(id) by {
                let q = ordered_pair(p[i], p[jj]);
                if q == k {
                    lemma_filter_drops(before[k].active_treaties, id, id);
                } else {
                    assert(before.contains_key(q));
                }
            }
        }
    }
}

proof fn lemma_unlink_pairs(m: Map<(Seq<char>, Seq<char>), RelationView>, p: Seq<Seq<char>>, n: int, id: TreatyId)
    requires
        n <= p.len(),
    ensures
        drops_treaties(m, unlink_pairs(m, p, n, id)),
        forall|i: int, j: int|
            0 <= i < j < p.len() && i < n && unlink_pairs(m, p, n, id).contains_key(#[trigger] ordered_pair(p[i], p[j]))
                ==> !unlink_pairs(m, p, n, id)[ordered_pair(p[i], p[j])].active_treaties.contains(id),
    decreases n,
{
    if n > 0 {
        lemma_unlink_pairs(m, p, n - 1, id);
        let before = unlink_pairs(m, p, n - 1, id);
        lemma_unlink_row(before, p, n - 1, p.len() as int, id);
        let after = unlink_pairs(m, p, n, id);
        assert forall|q: (Seq<char>, Seq<char>), t: TreatyId| after.contains_key(q) && after[q].active_treaties.contains(t)
            implies #[trigger] m[q].active_treaties.contains(t) by {
            assert(before[q].active_treaties.contains(t));
        }
        assert forall|i: int, j: int|
            0 <= i < j < p.len() && i < n && after.contains_key(#[trigger] ordered_pair(p[i], p[j])) implies !after[ordered_pair(
            p[i],
            p[j],
        )].active_treaties.contains(id) by {
            if i < n - 1 {
                let k = ordered_pair(p[i], p[j]);
                assert(!before[k].active_treaties.contains(id));
            }
        }
    }
}

/// Breaking a treaty drops it from the relation of every pair of its parties;
/// no relation appears, disappears or gains a treaty.
pub proof fn law_breaking_unlinks_every_pair(
    m: Map<(Seq<char>, Seq<char>), RelationView>,
    parties: Seq<Seq<char>>,
    id: TreatyId,
)
    ensures
        drops_treaties(m, unlink_pairs(m, parties, parties.len() as int, id)),
        forall|i: int, j: int|
            0 <= i < j < parties.len() && unlink_pairs(m, parties, parties.len() as int, id).contains_key(
                #[trigger] ordered_pair(parties[i], parties[j]),
            ) ==> !unlink_pairs(m, parties, parties.len() as int, id)[ordered_pair(
                parties[i],
                parties[j],
            )].active_treaties.contains(id),
{
    lemma_unlink_pairs(m, parties, parties.len() as int, id);
}

/// After expiries are processed at a tick, no treaty in force is past its
/// expiry at that tick.
pub proof fn law_no_treaty_left_expiring(t: Treaty, tick: u64)
    ensures
        !expiring(expired_at(t, tick), tick),
        expiring(t, tick) ==> expired_at(t, tick).status == TreatyStatus::Expired(tick),
        !expiring(t, tick) ==> expired_at(t, tick) == t,
{
}

/// Every party of a treaty in force finds it among its treaties, whatever its
/// place in the list of parties; a faction that is not a party, or a treaty
/// not in force, is never found.
pub proof fn law_every_party_sees_its_treaty(t: Treaty, i: int, name: Seq<char>)
    ensures
        t.status == TreatyStatus::Active && 0 <= i < t.parties@.len() ==> (treaty_in_force_for(t.parties@[i].0@))(t),
        (forall|j: int| 0 <= j < t.parties@.len() ==> #[trigger] t.parties@[j].0@ != name) ==> !(treaty_in_force_for(name))(t),
        t.status != TreatyStatus::Active ==> !(treaty_in_force_for(name))(t),
{
    if t.status == TreatyStatus::Active && 0 <= i < t.parties@.len() {
        assert(faction_names(t.parties@)[i] == t.parties@[i].0@);
    }
    if faction_names(t.parties@).contains(name) {
        let j = choose|j: int| 0 <= j < faction_names(t.parties@).len() && faction_names(t.parties@)[j] == name;
        assert(t.parties@[j].0@ == name);
    }
}

} // verus!
