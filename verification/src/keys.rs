//! Text keys ordered as Rust orders strings: byte-wise lexicographic order of
//! their UTF-8 encodings. Collections keyed by text stay sorted in this order.

use vstd::prelude::*;
use vstd::utf8::{encode_utf8, encode_utf8_decode_utf8};

verus! {

/// The bytes by which a text key is ordered.
pub open spec fn key_bytes(s: Seq<char>) -> Seq<u8> {
    encode_utf8(s)
}

/// Strict lexicographic order on byte sequences.
pub open spec fn bytes_lt(a: Seq<u8>, b: Seq<u8>) -> bool
    decreases a.len(),
{
    if a.len() == 0 {
        b.len() > 0
    } else if b.len() == 0 {
        false
    } else if a[0] < b[0] {
        true
    } else if a[0] > b[0] {
        false
    } else {
        bytes_lt(a.drop_first(), b.drop_first())
    }
}

/// Strict order on text keys.
pub open spec fn key_lt(a: Seq<char>, b: Seq<char>) -> bool {
    bytes_lt(key_bytes(a), key_bytes(b))
}

pub proof fn lemma_bytes_lt_irreflexive(a: Seq<u8>)
    ensures
        !bytes_lt(a, a),
    decreases a.len(),
{
    if a.len() > 0 {
        lemma_bytes_lt_irreflexive(a.drop_first());
    }
}

pub proof fn lemma_bytes_lt_transitive(a: Seq<u8>, b: Seq<u8>, c: Seq<u8>)
    requires
        bytes_lt(a, b),
        bytes_lt(b, c),
    ensures
        bytes_lt(a, c),
    decreases a.len(),
{
    if a.len() > 0 && b.len() > 0 && c.len() > 0 && a[0] == b[0] && b[0] == c[0] {
        lemma_bytes_lt_transitive(a.drop_first(), b.drop_first(), c.drop_first());
    }
}

pub proof fn lemma_bytes_lt_total(a: Seq<u8>, b: Seq<u8>)
    ensures
        a == b || bytes_lt(a, b) || bytes_lt(b, a),
    decreases a.len(),
{
    if a.len() > 0 && b.len() > 0 && a[0] == b[0] {
        lemma_bytes_lt_total(a.drop_first(), b.drop_first());
        if a.drop_first() == b.drop_first() {
            assert(a =~= seq![a[0]] + a.drop_first());
            assert(b =~= seq![b[0]] + b.drop_first());
        }
    } else if a.len() == 0 && b.len() == 0 {
        assert(a =~= b);
    }
}

pub proof fn lemma_bytes_lt_asymmetric(a: Seq<u8>, b: Seq<u8>)
    requires
        bytes_lt(a, b),
    ensures
        !bytes_lt(b, a),
{
    if bytes_lt(b, a) {
        lemma_bytes_lt_transitive(a, b, a);
        lemma_bytes_lt_irreflexive(a);
    }
}

/// Distinct texts have distinct encodings.
pub proof fn lemma_key_bytes_injective(a: Seq<char>, b: Seq<char>)
    requires
        key_bytes(a) == key_bytes(b),
    ensures
        a == b,
{
    encode_utf8_decode_utf8(a);
    encode_utf8_decode_utf8(b);
}

/// Key order is a strict total order on texts.
pub proof fn lemma_key_order(a: Seq<char>, b: Seq<char>)
    ensures
        !key_lt(a, a),
        a == b || key_lt(a, b) || key_lt(b, a),
        key_lt(a, b) ==> !key_lt(b, a),
{
    lemma_bytes_lt_irreflexive(key_bytes(a));
    lemma_bytes_lt_total(key_bytes(a), key_bytes(b));
    if key_bytes(a) == key_bytes(b) {
        lemma_key_bytes_injective(a, b);
    }
    if key_lt(a, b) {
        lemma_bytes_lt_asymmetric(key_bytes(a), key_bytes(b));
    }
}

pub proof fn lemma_key_lt_transitive(a: Seq<char>, b: Seq<char>, c: Seq<char>)
    requires
        key_lt(a, b),
        key_lt(b, c),
    ensures
        key_lt(a, c),
{
    lemma_bytes_lt_transitive(key_bytes(a), key_bytes(b), key_bytes(c));
}

/// The bytes of `s` from position `i` on.
pub open spec fn suffix(s: Seq<u8>, i: int) -> Seq<u8> {
    s.subrange(i, s.len() as int)
}

/// The outcome of comparing two keys.
#[derive(Clone, Copy, Debug, PartialEq, Eq, Structural)]
pub enum KeyOrder {
    Less,
    Equal,
    Greater,
}

/// Compares two texts in key order.
pub fn compare_keys(a: &str, b: &str) -> (r: KeyOrder)
    ensures
        r == KeyOrder::Less <==> key_lt(a@, b@),
        r == KeyOrder::Equal <==> a@ == b@,
        r == KeyOrder::Greater <==> key_lt(b@, a@),
{
    proof {
        lemma_key_order(a@, b@);
    }
    let x = a.as_bytes();
    let y = b.as_bytes();
    let ghost xa = key_bytes(a@);
    let ghost ya = key_bytes(b@);
    let mut i: usize = 0;
    proof {
        assert(suffix(xa, 0) =~= xa);
        assert(suffix(ya, 0) =~= ya);
    }
    while i < x.len() && i < y.len()
        invariant
            xa == key_bytes(a@),
            ya == key_bytes(b@),
            x@ == xa,
            y@ == ya,
            i <= xa.len(),
            i <= ya.len(),
            xa.subrange(0, i as int) == ya.subrange(0, i as int),
            bytes_lt(xa, ya) == bytes_lt(suffix(xa, i as int), suffix(ya, i as int)),
            bytes_lt(ya, xa) == bytes_lt(suffix(ya, i as int), suffix(xa, i as int)),
        decreases xa.len() - i,
    {
        let xb = x[i];
        let yb = y[i];
        proof {
            assert(suffix(xa, i as int)[0] == xb);
            assert(suffix(ya, i as int)[0] == yb);
        }
        if xb < yb {
            proof {
                lemma_bytes_lt_asymmetric(suffix(xa, i as int), suffix(ya, i as int));
            }
            return KeyOrder::Less;
        }
        if xb > yb {
            proof {
                lemma_bytes_lt_asymmetric(suffix(ya, i as int), suffix(xa, i as int));
            }
            return KeyOrder::Greater;
        }
        proof {
            let xs = suffix(xa, i as int);
            let ys = suffix(ya, i as int);
            assert(xs.drop_first() =~= xa.subrange(i + 1, xa.len() as int));
            assert(ys.drop_first() =~= ya.subrange(i + 1, ya.len() as int));
            assert(xa.subrange(0, i + 1) =~= xa.subrange(0, i as int).push(xb));
            assert(ya.subrange(0, i + 1) =~= ya.subrange(0, i as int).push(yb));
        }
        i = i + 1;
    }
    proof {
        let xs = xa.subrange(i as int, xa.len() as int);
        let ys = ya.subrange(i as int, ya.len() as int);
        if i == xa.len() && i == ya.len() {
            assert(xa =~= xa.subrange(0, i as int));
            assert(ya =~= ya.subrange(0, i as int));
        }
    }
    if x.len() < y.len() {
        KeyOrder::Less
    } else if x.len() > y.len() {
        KeyOrder::Greater
    } else {
        KeyOrder::Equal
    }
}

} // verus!

verus! {

/// A value identified by a text key.
pub trait Keyed {
    /// The key of the value.
    spec fn key(&self) -> Seq<char>;

    /// The key of the value, as text.
    fn key_str(&self) -> (s: &str)
        ensures
            s@ == self.key(),
    ;
}

/// The keys of a sequence strictly increase.
pub open spec fn sorted_by_key<T: Keyed>(s: Seq<T>) -> bool {
    forall|i: int, j: int| 0 <= i < j < s.len() ==> key_lt(#[trigger] s[i].key(), #[trigger] s[j].key())
}

/// Some element of the sequence has key `k`.
pub open spec fn has_key<T: Keyed>(s: Seq<T>, k: Seq<char>) -> bool {
    exists|i: int| 0 <= i < s.len() && #[trigger] s[i].key() == k
}

/// Where `k` stands in a sorted sequence: `(true, i)` when element `i` has key `k`,
/// `(false, i)` when `k` would be inserted at position `i`.
pub open spec fn slot_of<T: Keyed>(s: Seq<T>, k: Seq<char>, found: bool, i: int) -> bool {
    &&& 0 <= i <= s.len()
    &&& found ==> i < s.len() && s[i].key() == k
    &&& !found ==> (forall|j: int| 0 <= j < i ==> key_lt(#[trigger] s[j].key(), k))
    &&& !found ==> (forall|j: int| i <= j < s.len() ==> key_lt(k, #[trigger] s[j].key()))
}

/// Finds the position of a key in a sorted vector.
pub fn locate<T: Keyed>(v: &Vec<T>, k: &str) -> (r: (bool, usize))
    requires
        sorted_by_key(v@),
    ensures
        slot_of(v@, k@, r.0, r.1 as int),
        r.0 == has_key(v@, k@),
{
    let mut i: usize = 0;
    while i < v.len()
        invariant
            i <= v@.len(),
            sorted_by_key(v@),
            forall|j: int| 0 <= j < i ==> key_lt(#[trigger] v@[j].key(), k@),
        decreases v@.len() - i,
    {
        let c = compare_keys(v[i].key_str(), k);
        match c {
            KeyOrder::Less => {},
            KeyOrder::Equal => {
                return (true, i);
            },
            KeyOrder::Greater => {
                proof {
                    assert forall|j: int| i <= j < v@.len() implies key_lt(k@, #[trigger] v@[j].key()) by {
                        if j > i {
                            lemma_key_lt_transitive(k@, v@[i as int].key(), v@[j].key());
                        }
                    }
                    assert forall|j: int| 0 <= j < v@.len() implies #[trigger] v@[j].key() != k@ by {
                        lemma_key_order(k@, k@);
                    }
                }
                return (false, i);
            },
        }
        i = i + 1;
    }
    proof {
        assert forall|j: int| 0 <= j < v@.len() implies #[trigger] v@[j].key() != k@ by {
            lemma_key_order(k@, k@);
        }
    }
    (false, i)
}

/// Inserting at a slot keeps a sequence sorted.
pub proof fn lemma_insert_sorted<T: Keyed>(s: Seq<T>, i: int, t: T)
    requires
        sorted_by_key(s),
        slot_of(s, t.key(), false, i),
    ensures
        sorted_by_key(s.insert(i, t)),
{
    let n = s.insert(i, t);
    assert forall|a: int, b: int| 0 <= a < b < n.len() implies key_lt(#[trigger] n[a].key(), #[trigger] n[b].key()) by {
        if a < i && b > i {
            lemma_key_lt_transitive(n[a].key(), t.key(), n[b].key());
        }
    }
}

/// Removing an element keeps a sequence sorted.
pub proof fn lemma_remove_sorted<T: Keyed>(s: Seq<T>, i: int)
    requires
        sorted_by_key(s),
        0 <= i < s.len(),
    ensures
        sorted_by_key(s.remove(i)),
{
    let n = s.remove(i);
    assert forall|a: int, b: int| 0 <= a < b < n.len() implies key_lt(#[trigger] n[a].key(), #[trigger] n[b].key()) by {
        let a0 = if a < i { a } else { a + 1 };
        let b0 = if b < i { b } else { b + 1 };
        assert(n[a] == s[a0]);
        assert(n[b] == s[b0]);
    }
}

/// In a sorted sequence at most one element has a given key.
pub proof fn lemma_sorted_unique<T: Keyed>(s: Seq<T>, i: int, j: int)
    requires
        sorted_by_key(s),
        0 <= i < s.len(),
        0 <= j < s.len(),
        s[i].key() == s[j].key(),
    ensures
        i == j,
{
    if i < j {
        lemma_key_order(s[i].key(), s[i].key());
    } else if j < i {
        lemma_key_order(s[j].key(), s[j].key());
    }
}

/// Puts `t` in the sorted vector: it replaces the element with its key, or is
/// inserted where its key belongs.
pub fn insert_by_key<T: Keyed>(v: &mut Vec<T>, t: T)
    requires
        sorted_by_key(old(v)@),
    ensures
        sorted_by_key(final(v)@),
        has_key(old(v)@, t.key()) ==> exists|i: int|
            0 <= i < old(v)@.len() && old(v)@[i].key() == t.key() && final(v)@ == old(v)@.update(i, t),
        !has_key(old(v)@, t.key()) ==> exists|i: int|
            0 <= i <= old(v)@.len() && final(v)@ == old(v)@.insert(i, t),
        key_map(final(v)@) == key_map(old(v)@).insert(t.key(), t),
        key_set(final(v)@) == key_set(old(v)@).insert(t.key()),
{
    let (found, i) = locate(v, t.key_str());
    if found {
        let ghost old_v = v@;
        proof {
            lemma_key_map_update(old_v, i as int, t);
            assert(key_set(old_v).insert(t.key()) =~= key_set(old_v));
        }
        v.set(i, t);
    } else {
        proof {
            lemma_key_map_insert(v@, i as int, t);
        }
        v.insert(i, t);
    }
}

/// Takes the element with key `k` out of the sorted vector, when there is one.
pub fn remove_by_key<T: Keyed>(v: &mut Vec<T>, k: &str) -> (r: Option<T>)
    requires
        sorted_by_key(old(v)@),
    ensures
        sorted_by_key(final(v)@),
        r is None <==> !has_key(old(v)@, k@),
        r is None ==> final(v)@ == old(v)@,
        r matches Some(t) ==> exists|i: int|
            0 <= i < old(v)@.len() && old(v)@[i] == t && t.key() == k@ && final(v)@ == old(v)@.remove(i),
        r matches Some(t) ==> t == key_map(old(v)@)[k@],
        key_map(final(v)@) == key_map(old(v)@).remove(k@),
        key_set(final(v)@) == key_set(old(v)@).remove(k@),
{
    let (found, i) = locate(v, k);
    if found {
        proof {
            lemma_key_map_remove(v@, i as int);
            lemma_key_map_at(v@, i as int);
        }
        let t = v.remove(i);
        Some(t)
    } else {
        proof {
            assert(key_map(v@).remove(k@) =~= key_map(v@));
            assert(key_set(v@).remove(k@) =~= key_set(v@));
        }
        None
    }
}

} // verus!

verus! {

/// The keys present in a sequence.
pub open spec fn key_set<T: Keyed>(s: Seq<T>) -> Set<Seq<char>> {
    Set::new(|k: Seq<char>| has_key(s, k))
}

/// A position of an element with key `k`, when there is one.
pub open spec fn position_of_key<T: Keyed>(s: Seq<T>, k: Seq<char>) -> int {
    choose|i: int| 0 <= i < s.len() && #[trigger] s[i].key() == k
}

/// A sequence read as a map from each key to the element that carries it.
pub open spec fn key_map<T: Keyed>(s: Seq<T>) -> Map<Seq<char>, T> {
    Map::new(|k: Seq<char>| has_key(s, k), |k: Seq<char>| s[position_of_key(s, k)])
}

/// In a sorted sequence, the map entry of a key is the element at its position.
pub proof fn lemma_key_map_at<T: Keyed>(s: Seq<T>, p: int)
    requires
        sorted_by_key(s),
        0 <= p < s.len(),
    ensures
        key_map(s).contains_key(s[p].key()),
        key_map(s)[s[p].key()] == s[p],
{
    let k = s[p].key();
    assert(has_key(s, k));
    let i = position_of_key(s, k);
    lemma_sorted_unique(s, p, i);
}

pub proof fn lemma_key_map_update<T: Keyed>(s: Seq<T>, i: int, t: T)
    requires
        sorted_by_key(s),
        0 <= i < s.len(),
        s[i].key() == t.key(),
    ensures
        sorted_by_key(s.update(i, t)),
        key_map(s.update(i, t)) == key_map(s).insert(t.key(), t),
        key_set(s.update(i, t)) == key_set(s),
{
    let n = s.update(i, t);
    assert forall|a: int, b: int| 0 <= a < b < n.len() implies key_lt(#[trigger] n[a].key(), #[trigger] n[b].key()) by {
        assert(n[a].key() == if a == i { t.key() } else { s[a].key() });
        assert(n[b].key() == if b == i { t.key() } else { s[b].key() });
    }
    assert forall|k: Seq<char>| has_key(n, k) == has_key(s, k) by {
        if has_key(n, k) {
            let j = choose|j: int| 0 <= j < n.len() && #[trigger] n[j].key() == k;
            assert(s[j].key() == k);
        }
        if has_key(s, k) {
            let j = choose|j: int| 0 <= j < s.len() && #[trigger] s[j].key() == k;
            assert(n[j].key() == k);
        }
    }
    assert forall|k: Seq<char>| #[trigger] key_map(n).contains_key(k) implies key_map(n)[k] == key_map(s).insert(t.key(), t)[k] by {
        let j = choose|j: int| 0 <= j < n.len() && #[trigger] n[j].key() == k;
        lemma_key_map_at(n, j);
        lemma_key_map_at(s, j);
        if k == t.key() {
            assert(n[i].key() == k);
            lemma_sorted_unique(n, i, j);
        }
    }
    assert(key_map(n) =~= key_map(s).insert(t.key(), t));
    assert(key_set(n) =~= key_set(s));
}

pub proof fn lemma_key_map_insert<T: Keyed>(s: Seq<T>, i: int, t: T)
    requires
        sorted_by_key(s),
        slot_of(s, t.key(), false, i),
    ensures
        sorted_by_key(s.insert(i, t)),
        !has_key(s, t.key()),
        key_map(s.insert(i, t)) == key_map(s).insert(t.key(), t),
        key_set(s.insert(i, t)) == key_set(s).insert(t.key()),
{
    let n = s.insert(i, t);
    lemma_insert_sorted(s, i, t);
    lemma_key_order(t.key(), t.key());
    assert forall|k: Seq<char>| has_key(n, k) == (has_key(s, k) || k == t.key()) by {
        if has_key(n, k) {
            let j = choose|j: int| 0 <= j < n.len() && #[trigger] n[j].key() == k;
            if j < i {
                assert(s[j].key() == k);
            } else if j > i {
                assert(s[j - 1].key() == k);
            }
        }
        if has_key(s, k) {
            let j = choose|j: int| 0 <= j < s.len() && #[trigger] s[j].key() == k;
            if j < i {
                assert(n[j].key() == k);
            } else {
                assert(n[j + 1].key() == k);
            }
        }
        if k == t.key() {
            assert(n[i].key() == k);
        }
    }
    assert(!has_key(s, t.key())) by {
        if has_key(s, t.key()) {
            let j = choose|j: int| 0 <= j < s.len() && #[trigger] s[j].key() == t.key();
        }
    }
    assert forall|k: Seq<char>| #[trigger] key_map(n).contains_key(k) implies key_map(n)[k] == key_map(s).insert(t.key(), t)[k] by {
        let j = choose|j: int| 0 <= j < n.len() && #[trigger] n[j].key() == k;
        lemma_key_map_at(n, j);
        if j < i {
            lemma_key_map_at(s, j);
        } else if j > i {
            lemma_key_map_at(s, j - 1);
        }
    }
    assert(key_map(n) =~= key_map(s).insert(t.key(), t));
    assert(key_set(n) =~= key_set(s).insert(t.key()));
}

pub proof fn lemma_key_map_remove<T: Keyed>(s: Seq<T>, i: int)
    requires
        sorted_by_key(s),
        0 <= i < s.len(),
    ensures
        sorted_by_key(s.remove(i)),
        key_map(s.remove(i)) == key_map(s).remove(s[i].key()),
        key_set(s.remove(i)) == key_set(s).remove(s[i].key()),
{
    let n = s.remove(i);
    let kk = s[i].key();
    lemma_remove_sorted(s, i);
    assert forall|k: Seq<char>| has_key(n, k) == (has_key(s, k) && k != kk) by {
        if has_key(n, k) {
            let j = choose|j: int| 0 <= j < n.len() && #[trigger] n[j].key() == k;
            let j0 = if j < i { j } else { j + 1 };
            assert(s[j0].key() == k);
            if k == kk {
                lemma_sorted_unique(s, i, j0);
            }
        }
        if has_key(s, k) && k != kk {
            let j = choose|j: int| 0 <= j < s.len() && #[trigger] s[j].key() == k;
            if j < i {
                assert(n[j].key() == k);
            } else {
                assert(n[j - 1].key() == k);
            }
        }
    }
    assert forall|k: Seq<char>| #[trigger] key_map(n).contains_key(k) implies key_map(n)[k] == key_map(s).remove(kk)[k] by {
        let j = choose|j: int| 0 <= j < n.len() && #[trigger] n[j].key() == k;
        lemma_key_map_at(n, j);
        if j < i {
            lemma_key_map_at(s, j);
        } else {
            lemma_key_map_at(s, j + 1);
        }
    }
    assert(key_map(n) =~= key_map(s).remove(kk));
    assert(key_set(n) =~= key_set(s).remove(kk));
}


/// The map of a sorted sequence is finite and has one entry per element.
pub proof fn lemma_key_map_len<T: Keyed>(s: Seq<T>)
    requires
        sorted_by_key(s),
    ensures
        key_map(s).dom().finite(),
        key_map(s).len() == s.len(),
    decreases s.len(),
{
    if s.len() == 0 {
        assert(key_map(s).dom() =~= Set::<Seq<char>>::empty());
    } else {
        let t = s.drop_last();
        let last = s.last();
        assert(sorted_by_key(t)) by {
            assert forall|a: int, b: int| 0 <= a < b < t.len() implies key_lt(#[trigger] t[a].key(), #[trigger] t[b].key()) by {
                assert(t[a] == s[a] && t[b] == s[b]);
            }
        }
        lemma_key_map_len(t);
        assert(s =~= t.insert(t.len() as int, last));
        assert forall|j: int| 0 <= j < t.len() implies key_lt(#[trigger] t[j].key(), last.key()) by {
            assert(t[j] == s[j]);
        }
        lemma_key_map_insert(t, t.len() as int, last);
        assert(key_map(s).dom() =~= key_map(t).dom().insert(last.key()));
    }
}

/// The entries of a map whose values satisfy `p`.
pub open spec fn key_map_where<T>(m: Map<Seq<char>, T>, p: spec_fn(T) -> bool) -> Map<Seq<char>, T> {
    Map::new(|k: Seq<char>| m.contains_key(k) && p(m[k]), |k: Seq<char>| m[k])
}

/// Filtering a sorted sequence keeps it sorted and keeps exactly the map
/// entries whose values pass the filter.
pub proof fn lemma_key_filter<T: Keyed>(s: Seq<T>, p: spec_fn(T) -> bool)
    requires
        sorted_by_key(s),
    ensures
        sorted_by_key(s.filter(p)),
        key_map(s.filter(p)) == key_map_where(key_map(s), p),
    decreases s.len(),
{
    reveal_with_fuel(Seq::<_>::filter, 1);
    if s.len() == 0 {
        assert(key_map(s.filter(p)) =~= key_map_where(key_map(s), p));
    } else {
        let t = s.drop_last();
        let last = s.last();
        assert(sorted_by_key(t)) by {
            assert forall|a: int, b: int| 0 <= a < b < t.len() implies key_lt(#[trigger] t[a].key(), #[trigger] t[b].key()) by {
                assert(t[a] == s[a] && t[b] == s[b]);
            }
        }
        lemma_key_filter(t, p);
        assert(s =~= t.insert(t.len() as int, last));
        assert forall|j: int| 0 <= j < t.len() implies key_lt(#[trigger] t[j].key(), last.key()) by {
            assert(t[j] == s[j]);
        }
        lemma_key_map_insert(t, t.len() as int, last);
        let ft = t.filter(p);
        if p(last) {
            assert forall|j: int| 0 <= j < ft.len() implies key_lt(#[trigger] ft[j].key(), last.key()) by {
                assert(ft.contains(ft[j]));
                t.lemma_filter_contains_rev(p, ft[j]);
                let i = choose|i: int| 0 <= i < t.len() && t[i] == ft[j];
                assert(key_lt(t[i].key(), last.key()));
            }
            lemma_key_map_insert(ft, ft.len() as int, last);
            assert(s.filter(p) =~= ft.insert(ft.len() as int, last));
            assert(key_map_where(key_map(s), p) =~= key_map_where(key_map(t), p).insert(last.key(), last));
        } else {
            assert(s.filter(p) == ft);
            assert(key_map_where(key_map(s), p) =~= key_map_where(key_map(t), p));
        }
    }
}

} // verus!

verus! {

/// Searches an unsorted sequence for a key: `(true, i)` with element `i`
/// carrying the key, or `(false, len)` when none does.
pub fn locate_any<T: Keyed>(v: &Vec<T>, k: &str) -> (r: (bool, usize))
    ensures
        r.0 == has_key(v@, k@),
        r.0 ==> r.1 < v@.len() && v@[r.1 as int].key() == k@,
{
    let mut i: usize = 0;
    while i < v.len()
        invariant
            i <= v@.len(),
            forall|j: int| 0 <= j < i ==> #[trigger] v@[j].key() != k@,
        decreases v@.len() - i,
    {
        if compare_keys(v[i].key_str(), k) == KeyOrder::Equal {
            return (true, i);
        }
        i = i + 1;
    }
    (false, i)
}

} // verus!
