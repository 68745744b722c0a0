//! Relations between pairs of factions, kept in a vector sorted by the pair of
//! faction names (first name, then second) and read as a map from the pair to
//! what the relation holds.

use vstd::prelude::*;
use crate::keys::{compare_keys, key_lt, lemma_key_lt_transitive, lemma_key_order, KeyOrder};
use super::diplomacy::{DiplomaticRelation, RelationView};

verus! {

/// Strict order on pairs of names: by the first name, then by the second.
pub open spec fn pair_lt(p: (Seq<char>, Seq<char>), q: (Seq<char>, Seq<char>)) -> bool {
    key_lt(p.0, q.0) || (p.0 == q.0 && key_lt(p.1, q.1))
}

/// Pair order is a strict total order.
pub proof fn lemma_pair_order(p: (Seq<char>, Seq<char>), q: (Seq<char>, Seq<char>))
    ensures
        !pair_lt(p, p),
        p == q || pair_lt(p, q) || pair_lt(q, p),
        pair_lt(p, q) ==> !pair_lt(q, p),
{
    lemma_key_order(p.0, q.0);
    lemma_key_order(p.1, q.1);
    lemma_key_order(p.0, p.0);
    lemma_key_order(p.1, p.1);
}

pub proof fn lemma_pair_lt_transitive(p: (Seq<char>, Seq<char>), q: (Seq<char>, Seq<char>), r: (Seq<char>, Seq<char>))
    requires
        pair_lt(p, q),
        pair_lt(q, r),
    ensures
        pair_lt(p, r),
{
    if key_lt(p.0, q.0) && key_lt(q.0, r.0) {
        lemma_key_lt_transitive(p.0, q.0, r.0);
    }
    if key_lt(p.1, q.1) && key_lt(q.1, r.1) {
        lemma_key_lt_transitive(p.1, q.1, r.1);
    }
}

/// Compares the pairs `(a1, b1)` and `(a2, b2)` in pair order.
pub fn compare_pairs(a1: &str, b1: &str, a2: &str, b2: &str) -> (r: KeyOrder)
    ensures
        r == KeyOrder::Less <==> pair_lt((a1@, b1@), (a2@, b2@)),
        r == KeyOrder::Equal <==> (a1@, b1@) == (a2@, b2@),
        r == KeyOrder::Greater <==> pair_lt((a2@, b2@), (a1@, b1@)),
{
    proof {
        lemma_pair_order((a1@, b1@), (a2@, b2@));
    }
    match compare_keys(a1, a2) {
        KeyOrder::Equal => compare_keys(b1, b2),
        other => other,
    }
}

/// The pair of faction names under which a relation is kept.
pub open spec fn pair_of(r: DiplomaticRelation) -> (Seq<char>, Seq<char>) {
    (r.faction_a.0@, r.faction_b.0@)
}

/// The pairs of a sequence of relations strictly increase.
pub open spec fn sorted_by_pair(s: Seq<DiplomaticRelation>) -> bool {
    forall|i: int, j: int| 0 <= i < j < s.len() ==> pair_lt(#[trigger] pair_of(s[i]), #[trigger] pair_of(s[j]))
}

/// Some relation of the sequence is kept under pair `k`.
pub open spec fn has_pair(s: Seq<DiplomaticRelation>, k: (Seq<char>, Seq<char>)) -> bool {
    exists|i: int| 0 <= i < s.len() && #[trigger] pair_of(s[i]) == k
}

/// Where pair `k` stands in a sorted sequence: `(true, i)` when relation `i`
/// is kept under `k`, `(false, i)` when `k` would be inserted at position `i`.
pub open spec fn pair_slot(s: Seq<DiplomaticRelation>, k: (Seq<char>, Seq<char>), found: bool, i: int) -> bool {
    &&& 0 <= i <= s.len()
    &&& found ==> i < s.len() && pair_of(s[i]) == k
    &&& !found ==> (forall|j: int| 0 <= j < i ==> pair_lt(#[trigger] pair_of(s[j]), k))
    &&& !found ==> (forall|j: int| i <= j < s.len() ==> pair_lt(k, #[trigger] pair_of(s[j])))
}

/// A position of a relation kept under `k`, when there is one.
pub open spec fn position_of_pair(s: Seq<DiplomaticRelation>, k: (Seq<char>, Seq<char>)) -> int {
    choose|i: int| 0 <= i < s.len() && #[trigger] pair_of(s[i]) == k
}

/// A sequence of relations read as a map from each pair to what its relation holds.
pub open spec fn pair_map(s: Seq<DiplomaticRelation>) -> Map<(Seq<char>, Seq<char>), RelationView> {
    Map::new(|k: (Seq<char>, Seq<char>)| has_pair(s, k), |k: (Seq<char>, Seq<char>)| s[position_of_pair(s, k)]@)
}

/// Finds where the pair `(a, b)` stands in a sorted vector of relations.
pub fn locate_pair(v: &Vec<DiplomaticRelation>, a: &str, b: &str) -> (r: (bool, usize))
    requires
        sorted_by_pair(v@),
    ensures
        pair_slot(v@, (a@, b@), r.0, r.1 as int),
        r.0 == has_pair(v@, (a@, b@)),
{
    let ghost k = (a@, b@);
    let mut i: usize = 0;
    while i < v.len()
        invariant
            i <= v@.len(),
            k == (a@, b@),
            sorted_by_pair(v@),
            forall|j: int| 0 <= j < i ==> pair_lt(#[trigger] pair_of(v@[j]), k),
        decreases v@.len() - i,
    {
        let c = compare_pairs(v[i].faction_a.as_str(), v[i].faction_b.as_str(), a, b);
        match c {
            KeyOrder::Less => {},
            KeyOrder::Equal => {
                return (true, i);
            },
            KeyOrder::Greater => {
                proof {
                    assert forall|j: int| i <= j < v@.len() implies pair_lt(k, #[trigger] pair_of(v@[j])) by {
                        if j > i {
                            lemma_pair_lt_transitive(k, pair_of(v@[i as int]), pair_of(v@[j]));
                        }
                    }
                    assert forall|j: int| 0 <= j < v@.len() implies #[trigger] pair_of(v@[j]) != k by {
                        lemma_pair_order(k, k);
                    }
                }
                return (false, i);
            },
        }
        i = i + 1;
    }
    proof {
        assert forall|j: int| 0 <= j < v@.len() implies #[trigger] pair_of(v@[j]) != k by {
            lemma_pair_order(k, k);
        }
    }
    (false, i)
}

/// In a sorted sequence at most one relation is kept under a pair.
pub proof fn lemma_pair_unique(s: Seq<DiplomaticRelation>, i: int, j: int)
    requires
        sorted_by_pair(s),
        0 <= i < s.len(),
        0 <= j < s.len(),
        pair_of(s[i]) == pair_of(s[j]),
    ensures
        i == j,
{
    lemma_pair_order(pair_of(s[i]), pair_of(s[i]));
    if i < j {
        assert(pair_lt(pair_of(s[i]), pair_of(s[j])));
    } else if j < i {
        assert(pair_lt(pair_of(s[j]), pair_of(s[i])));
    }
}

/// In a sorted sequence, the map entry of a pair is the relation at its position.
pub proof fn lemma_pair_map_at(s: Seq<DiplomaticRelation>, p: int)
    requires
        sorted_by_pair(s),
        0 <= p < s.len(),
    ensures
        pair_map(s).contains_key(pair_of(s[p])),
        pair_map(s)[pair_of(s[p])] == s[p]@,
{
    let k = pair_of(s[p]);
    assert(has_pair(s, k));
    let i = position_of_pair(s, k);
    lemma_pair_unique(s, p, i);
}

/// Replacing a relation by one kept under the same pair updates that entry.
pub proof fn lemma_pair_map_update(s: Seq<DiplomaticRelation>, i: int, r: DiplomaticRelation)
    requires
        sorted_by_pair(s),
        0 <= i < s.len(),
        pair_of(s[i]) == pair_of(r),
    ensures
        sorted_by_pair(s.update(i, r)),
        pair_map(s.update(i, r)) == pair_map(s).insert(pair_of(r), r@),
{
    let n = s.update(i, r);
    assert forall|a: int, b: int| 0 <= a < b < n.len() implies pair_lt(#[trigger] pair_of(n[a]), #[trigger] pair_of(n[b])) by {
        assert(pair_of(n[a]) == pair_of(s[a]));
        assert(pair_of(n[b]) == pair_of(s[b]));
    }
    assert forall|k: (Seq<char>, Seq<char>)| has_pair(n, k) == has_pair(s, k) by {
        if has_pair(n, k) {
            let j = choose|j: int| 0 <= j < n.len() && #[trigger] pair_of(n[j]) == k;
            assert(pair_of(s[j]) == k);
        }
        if has_pair(s, k) {
            let j = choose|j: int| 0 <= j < s.len() && #[trigger] pair_of(s[j]) == k;
            assert(pair_of(n[j]) == k);
        }
    }
    assert forall|k: (Seq<char>, Seq<char>)| #[trigger] pair_map(n).contains_key(k) implies pair_map(n)[k]
        == pair_map(s).insert(pair_of(r), r@)[k] by {
        let j = choose|j: int| 0 <= j < n.len() && #[trigger] pair_of(n[j]) == k;
        lemma_pair_map_at(n, j);
        lemma_pair_map_at(s, j);
        if k == pair_of(r) {
            assert(pair_of(n[i]) == k);
            lemma_pair_unique(n, i, j);
        }
    }
    assert(pair_map(n) =~= pair_map(s).insert(pair_of(r), r@));
}

/// Inserting a relation at the slot of its pair adds that entry.
pub proof fn lemma_pair_map_insert(s: Seq<DiplomaticRelation>, i: int, r: DiplomaticRelation)
    requires
        sorted_by_pair(s),
        pair_slot(s, pair_of(r), false, i),
    ensures
        sorted_by_pair(s.insert(i, r)),
        !has_pair(s, pair_of(r)),
        pair_map(s.insert(i, r)) == pair_map(s).insert(pair_of(r), r@),
{
    let n = s.insert(i, r);
    let kr = pair_of(r);
    assert forall|a: int, b: int| 0 <= a < b < n.len() implies pair_lt(#[trigger] pair_of(n[a]), #[trigger] pair_of(n[b])) by {
        if a < i && b > i {
            lemma_pair_lt_transitive(pair_of(n[a]), kr, pair_of(n[b]));
        }
    }
    lemma_pair_order(kr, kr);
    assert forall|k: (Seq<char>, Seq<char>)| has_pair(n, k) == (has_pair(s, k) || k == kr) by {
        if has_pair(n, k) {
            let j = choose|j: int| 0 <= j < n.len() && #[trigger] pair_of(n[j]) == k;
            if j < i {
                assert(pair_of(s[j]) == k);
            } else if j > i {
                assert(pair_of(s[j - 1]) == k);
            }
        }
        if has_pair(s, k) {
            let j = choose|j: int| 0 <= j < s.len() && #[trigger] pair_of(s[j]) == k;
            if j < i {
                assert(pair_of(n[j]) == k);
            } else {
                assert(pair_of(n[j + 1]) == k);
            }
        }
        if k == kr {
            assert(pair_of(n[i]) == k);
        }
    }
    assert(!has_pair(s, kr)) by {
        if has_pair(s, kr) {
            let j = choose|j: int| 0 <= j < s.len() && #[trigger] pair_of(s[j]) == kr;
        }
    }
    assert forall|k: (Seq<char>, Seq<char>)| #[trigger] pair_map(n).contains_key(k) implies pair_map(n)[k]
        == pair_map(s).insert(kr, r@)[k] by {
        let j = choose|j: int| 0 <= j < n.len() && #[trigger] pair_of(n[j]) == k;
        lemma_pair_map_at(n, j);
        if j < i {
            lemma_pair_map_at(s, j);
        } else if j > i {
            lemma_pair_map_at(s, j - 1);
        }
    }
    assert(pair_map(n) =~= pair_map(s).insert(kr, r@));
}

/// The map of a sorted sequence has one entry per relation.
pub proof fn lemma_pair_map_len(s: Seq<DiplomaticRelation>)
    requires
        sorted_by_pair(s),
    ensures
        pair_map(s).dom().finite(),
        pair_map(s).len() == s.len(),
    decreases s.len(),
{
    if s.len() == 0 {
        assert(pair_map(s).dom() =~= Set::<(Seq<char>, Seq<char>)>::empty());
    } else {
        let t = s.drop_last();
        let last = s.last();
        assert(sorted_by_pair(t));
        lemma_pair_map_len(t);
        assert(s =~= t.insert(t.len() as int, last));
        assert forall|j: int| 0 <= j < t.len() implies pair_lt(#[trigger] pair_of(t[j]), pair_of(last)) by {
            assert(t[j] == s[j]);
        }
        lemma_pair_map_insert(t, t.len() as int, last);
        assert(pair_map(s).dom() =~= pair_map(t).dom().insert(pair_of(last)));
    }
}

} // verus!
