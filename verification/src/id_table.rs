//! Vectors kept in strictly increasing order of a numeric identifier, read as
//! maps from identifier to element.

use vstd::prelude::*;

verus! {

/// A value that carries a numeric identifier.
pub trait Identified {
    /// The identifier of the value.
    spec fn ident(&self) -> u64;

    /// The identifier of the value.
    fn ident_value(&self) -> (r: u64)
        ensures
            r == self.ident(),
    ;
}

/// The identifiers of a sequence strictly increase.
pub open spec fn sorted_by_id<T: Identified>(s: Seq<T>) -> bool {
    forall|i: int, j: int| 0 <= i < j < s.len() ==> #[trigger] s[i].ident() < #[trigger] s[j].ident()
}

/// Some element of the sequence has identifier `k`.
pub open spec fn has_id<T: Identified>(s: Seq<T>, k: u64) -> bool {
    exists|i: int| 0 <= i < s.len() && #[trigger] s[i].ident() == k
}

/// Where `k` stands in a sorted sequence: `(true, i)` when element `i` has
/// identifier `k`, `(false, i)` when `k` would be inserted at position `i`.
pub open spec fn id_slot<T: Identified>(s: Seq<T>, k: u64, found: bool, i: int) -> bool {
    &&& 0 <= i <= s.len()
    &&& found ==> i < s.len() && s[i].ident() == k
    &&& !found ==> (forall|j: int| 0 <= j < i ==> #[trigger] s[j].ident() < k)
    &&& !found ==> (forall|j: int| i <= j < s.len() ==> k < #[trigger] s[j].ident())
}

/// A position of an element with identifier `k`, when there is one.
pub open spec fn position_of_id<T: Identified>(s: Seq<T>, k: u64) -> int {
    choose|i: int| 0 <= i < s.len() && #[trigger] s[i].ident() == k
}

/// A sequence read as a map from each identifier to the element that carries it.
pub open spec fn id_map<T: Identified>(s: Seq<T>) -> Map<u64, T> {
    Map::new(|k: u64| has_id(s, k), |k: u64| s[position_of_id(s, k)])
}

/// Finds the position of an identifier in a sorted vector by bisection.
pub fn find_id<T: Identified>(v: &Vec<T>, k: u64) -> (r: (bool, usize))
    requires
        sorted_by_id(v@),
    ensures
        id_slot(v@, k, r.0, r.1 as int),
        r.0 == has_id(v@, k),
{
    let mut lo: usize = 0;
    let mut hi: usize = v.len();
    while lo < hi
        invariant
            lo <= hi <= v@.len(),
            sorted_by_id(v@),
            forall|j: int| 0 <= j < lo ==> #[trigger] v@[j].ident() < k,
            forall|j: int| hi <= j < v@.len() ==> k < #[trigger] v@[j].ident(),
        decreases hi - lo,
    {
        let mid = lo + (hi - lo) / 2;
        let m = v[mid].ident_value();
        if m < k {
            proof {
                assert forall|j: int| 0 <= j < mid + 1 implies #[trigger] v@[j].ident() < k by {
                    if j < mid {
                        assert(v@[j].ident() < v@[mid as int].ident());
                    }
                }
            }
            lo = mid + 1;
        } else if k < m {
            proof {
                assert forall|j: int| mid <= j < v@.len() implies k < #[trigger] v@[j].ident() by {
                    if j > mid {
                        assert(v@[mid as int].ident() < v@[j].ident());
                    }
                }
            }
            hi = mid;
        } else {
            return (true, mid);
        }
    }
    (false, lo)
}

/// In a sorted sequence at most one element has a given identifier.
pub proof fn lemma_sorted_id_unique<T: Identified>(s: Seq<T>, i: int, j: int)
    requires
        sorted_by_id(s),
        0 <= i < s.len(),
        0 <= j < s.len(),
        s[i].ident() == s[j].ident(),
    ensures
        i == j,
{
    if i < j {
        assert(s[i].ident() < s[j].ident());
    } else if j < i {
        assert(s[j].ident() < s[i].ident());
    }
}

/// In a sorted sequence, the map entry of an identifier is the element at its position.
pub proof fn lemma_id_map_at<T: Identified>(s: Seq<T>, p: int)
    requires
        sorted_by_id(s),
        0 <= p < s.len(),
    ensures
        id_map(s).contains_key(s[p].ident()),
        id_map(s)[s[p].ident()] == s[p],
{
    let k = s[p].ident();
    assert(has_id(s, k));
    let i = position_of_id(s, k);
    lemma_sorted_id_unique(s, p, i);
}

/// Replacing an element by one with the same identifier updates that entry.
pub proof fn lemma_id_map_update<T: Identified>(s: Seq<T>, i: int, t: T)
    requires
        sorted_by_id(s),
        0 <= i < s.len(),
        s[i].ident() == t.ident(),
    ensures
        sorted_by_id(s.update(i, t)),
        id_map(s.update(i, t)) == id_map(s).insert(t.ident(), t),
{
    let n = s.update(i, t);
    assert forall|a: int, b: int| 0 <= a < b < n.len() implies #[trigger] n[a].ident() < #[trigger] n[b].ident() by {
        assert(n[a].ident() == if a == i { t.ident() } else { s[a].ident() });
        assert(n[b].ident() == if b == i { t.ident() } else { s[b].ident() });
        assert(s[a].ident() < s[b].ident());
    }
    assert forall|k: u64| has_id(n, k) == has_id(s, k) by {
        if has_id(n, k) {
            let j = choose|j: int| 0 <= j < n.len() && #[trigger] n[j].ident() == k;
            assert(s[j].ident() == k);
        }
        if has_id(s, k) {
            let j = choose|j: int| 0 <= j < s.len() && #[trigger] s[j].ident() == k;
            assert(n[j].ident() == k);
        }
    }
    assert forall|k: u64| #[trigger] id_map(n).contains_key(k) implies id_map(n)[k] == id_map(s).insert(t.ident(), t)[k] by {
        let j = choose|j: int| 0 <= j < n.len() && #[trigger] n[j].ident() == k;
        lemma_id_map_at(n, j);
        lemma_id_map_at(s, j);
        if k == t.ident() {
            assert(n[i].ident() == k);
            lemma_sorted_id_unique(n, i, j);
        }
    }
    assert(id_map(n) =~= id_map(s).insert(t.ident(), t));
}

/// Inserting at the slot of a new identifier adds that entry.
pub proof fn lemma_id_map_insert<T: Identified>(s: Seq<T>, i: int, t: T)
    requires
        sorted_by_id(s),
        id_slot(s, t.ident(), false, i),
    ensures
        sorted_by_id(s.insert(i, t)),
        !has_id(s, t.ident()),
        id_map(s.insert(i, t)) == id_map(s).insert(t.ident(), t),
{
    let n = s.insert(i, t);
    assert forall|a: int, b: int| 0 <= a < b < n.len() implies #[trigger] n[a].ident() < #[trigger] n[b].ident() by {
        if a < i && b < i {
            assert(s[a].ident() < s[b].ident());
        } else if a > i && b > i {
            assert(s[a - 1].ident() < s[b - 1].ident());
        } else if a < i && b > i {
            assert(s[a].ident() < t.ident());
            assert(t.ident() < s[b - 1].ident());
        } else if a == i {
            assert(t.ident() < s[b - 1].ident());
        } else {
            assert(s[a].ident() < t.ident());
        }
    }
    assert forall|k: u64| has_id(n, k) == (has_id(s, k) || k == t.ident()) by {
        if has_id(n, k) {
            let j = choose|j: int| 0 <= j < n.len() && #[trigger] n[j].ident() == k;
            if j < i {
                assert(s[j].ident() == k);
            } else if j > i {
                assert(s[j - 1].ident() == k);
            }
        }
        if has_id(s, k) {
            let j = choose|j: int| 0 <= j < s.len() && #[trigger] s[j].ident() == k;
            if j < i {
                assert(n[j].ident() == k);
            } else {
                assert(n[j + 1].ident() == k);
            }
        }
        if k == t.ident() {
            assert(n[i].ident() == k);
        }
    }
    assert(!has_id(s, t.ident())) by {
        if has_id(s, t.ident()) {
            let j = choose|j: int| 0 <= j < s.len() && #[trigger] s[j].ident() == t.ident();
        }
    }
    assert forall|k: u64| #[trigger] id_map(n).contains_key(k) implies id_map(n)[k] == id_map(s).insert(t.ident(), t)[k] by {
        let j = choose|j: int| 0 <= j < n.len() && #[trigger] n[j].ident() == k;
        lemma_id_map_at(n, j);
        if j < i {
            lemma_id_map_at(s, j);
        } else if j > i {
            lemma_id_map_at(s, j - 1);
        }
    }
    assert(id_map(n) =~= id_map(s).insert(t.ident(), t));
}

/// Removing an element drops its entry.
pub proof fn lemma_id_map_remove<T: Identified>(s: Seq<T>, i: int)
    requires
        sorted_by_id(s),
        0 <= i < s.len(),
    ensures
        sorted_by_id(s.remove(i)),
        id_map(s.remove(i)) == id_map(s).remove(s[i].ident()),
{
    let n = s.remove(i);
    let kk = s[i].ident();
    assert forall|a: int, b: int| 0 <= a < b < n.len() implies #[trigger] n[a].ident() < #[trigger] n[b].ident() by {
        let a0 = if a < i { a } else { a + 1 };
        let b0 = if b < i { b } else { b + 1 };
        assert(n[a] == s[a0]);
        assert(n[b] == s[b0]);
        assert(s[a0].ident() < s[b0].ident());
    }
    assert forall|k: u64| has_id(n, k) == (has_id(s, k) && k != kk) by {
        if has_id(n, k) {
            let j = choose|j: int| 0 <= j < n.len() && #[trigger] n[j].ident() == k;
            let j0 = if j < i { j } else { j + 1 };
            assert(s[j0].ident() == k);
            if k == kk {
                lemma_sorted_id_unique(s, i, j0);
            }
        }
        if has_id(s, k) && k != kk {
            let j = choose|j: int| 0 <= j < s.len() && #[trigger] s[j].ident() == k;
            if j < i {
                assert(n[j].ident() == k);
            } else {
                assert(n[j - 1].ident() == k);
            }
        }
    }
    assert forall|k: u64| #[trigger] id_map(n).contains_key(k) implies id_map(n)[k] == id_map(s).remove(kk)[k] by {
        let j = choose|j: int| 0 <= j < n.len() && #[trigger] n[j].ident() == k;
        lemma_id_map_at(n, j);
        if j < i {
            lemma_id_map_at(s, j);
        } else {
            lemma_id_map_at(s, j + 1);
        }
    }
    assert(id_map(n) =~= id_map(s).remove(kk));
}

/// The map of a sorted sequence has one entry per element.
pub proof fn lemma_id_map_len<T: Identified>(s: Seq<T>)
    requires
        sorted_by_id(s),
    ensures
        id_map(s).dom().finite(),
        id_map(s).len() == s.len(),
    decreases s.len(),
{
    if s.len() == 0 {
        assert(id_map(s).dom() =~= Set::<u64>::empty());
    } else {
        let t = s.drop_last();
        let last = s.last();
        assert(sorted_by_id(t));
        lemma_id_map_len(t);
        assert(s =~= t.insert(t.len() as int, last));
        assert forall|j: int| 0 <= j < t.len() implies #[trigger] t[j].ident() < last.ident() by {
            assert(t[j] == s[j]);
        }
        lemma_id_map_insert(t, t.len() as int, last);
        assert(id_map(s).dom() =~= id_map(t).dom().insert(last.ident()));
    }
}

/// Puts `t` in the sorted vector: it replaces the element with its identifier,
/// or is inserted where its identifier belongs.
pub fn insert_by_id<T: Identified>(v: &mut Vec<T>, t: T)
    requires
        sorted_by_id(old(v)@),
    ensures
        sorted_by_id(final(v)@),
        id_map(final(v)@) == id_map(old(v)@).insert(t.ident(), t),
{
    let (found, i) = find_id(v, t.ident_value());
    if found {
        proof {
            lemma_id_map_update(v@, i as int, t);
        }
        v.set(i, t);
    } else {
        proof {
            lemma_id_map_insert(v@, i as int, t);
        }
        v.insert(i, t);
    }
}

/// Takes the element with identifier `k` out of the sorted vector, when there is one.
pub fn remove_by_id<T: Identified>(v: &mut Vec<T>, k: u64) -> (r: Option<T>)
    requires
        sorted_by_id(old(v)@),
    ensures
        sorted_by_id(final(v)@),
        r is Some <==> id_map(old(v)@).contains_key(k),
        r matches Some(t) ==> t == id_map(old(v)@)[k],
        id_map(final(v)@) == id_map(old(v)@).remove(k),
{
    let (found, i) = find_id(v, k);
    if found {
        proof {
            lemma_id_map_remove(v@, i as int);
            lemma_id_map_at(v@, i as int);
        }
        let t = v.remove(i);
        Some(t)
    } else {
        proof {
            assert(id_map(v@).remove(k) =~= id_map(v@));
        }
        None
    }
}

/// The element with identifier `k` in a sorted vector, when there is one.
pub fn get_by_id<T: Identified>(v: &Vec<T>, k: u64) -> (r: Option<&T>)
    requires
        sorted_by_id(v@),
    ensures
        r is Some <==> id_map(v@).contains_key(k),
        r matches Some(t) ==> *t == id_map(v@)[k],
{
    let (found, i) = find_id(v, k);
    if found {
        proof {
            lemma_id_map_at(v@, i as int);
        }
        Some(&v[i])
    } else {
        None
    }
}

} // verus!

verus! {

/// The elements of `v` that satisfy `keep`, in order.
pub(crate) fn select<'a, T, F: Fn(&T) -> bool>(v: &'a [T], keep: F, Ghost(pred): Ghost<spec_fn(T) -> bool>) -> (r: Vec<
    &'a T,
>)
    requires
        forall|t: &T| #[trigger] keep.requires((t,)),
        forall|t: &T, b: bool| keep.ensures((t,), b) ==> b == pred(*t),
    ensures
        r@.map_values(|x: &T| *x) == v@.filter(pred),
{
    let mut r: Vec<&T> = Vec::new();
    let mut i: usize = 0;
    while i < v.len()
        invariant
            i <= v@.len(),
            forall|t: &T| #[trigger] keep.requires((t,)),
            forall|t: &T, b: bool| keep.ensures((t,), b) ==> b == pred(*t),
            r@.map_values(|x: &T| *x) == v@.subrange(0, i as int).filter(pred),
        decreases v@.len() - i,
    {
        let t = &v[i];
        proof {
            reveal_with_fuel(Seq::<_>::filter, 1);
            assert(v@.subrange(0, i + 1).drop_last() =~= v@.subrange(0, i as int));
        }
        let ghost prev = r@;
        if keep(t) {
            r.push(t);
            proof {
                assert(r@.map_values(|x: &T| *x) =~= prev.map_values(|x: &T| *x).push(*t));
            }
        }
        proof {
            assert(v@.subrange(0, i + 1).last() == *t);
            assert(r@.map_values(|x: &T| *x) =~= v@.subrange(0, i + 1).filter(pred));
        }
        i = i + 1;
    }
    proof {
        assert(v@.subrange(0, v@.len() as int) =~= v@);
    }
    r
}

} // verus!

verus! {

/// Keeping some elements of a sorted sequence keeps it sorted.
pub proof fn lemma_filter_sorted<T: Identified>(s: Seq<T>, p: spec_fn(T) -> bool)
    requires
        sorted_by_id(s),
    ensures
        sorted_by_id(s.filter(p)),
    decreases s.len(),
{
    reveal_with_fuel(Seq::<_>::filter, 1);
    if s.len() > 0 {
        let t = s.drop_last();
        assert(sorted_by_id(t));
        lemma_filter_sorted(t, p);
        let f = t.filter(p);
        if p(s.last()) {
            assert forall|a: int, b: int| 0 <= a < b < f.push(s.last()).len() implies #[trigger] f.push(s.last())[a].ident()
                < #[trigger] f.push(s.last())[b].ident() by {
                if b == f.len() {
                    assert(f.contains(f[a]));
                    t.lemma_filter_contains_rev(p, f[a]);
                    let w = choose|w: int| 0 <= w < t.len() && t[w] == f[a];
                    assert(s[w] == t[w]);
                } else {
                    assert(f[a].ident() < f[b].ident());
                }
            }
        }
    }
}

/// The entries of a map whose values satisfy `p`.
pub open spec fn id_map_where<T>(m: Map<u64, T>, p: spec_fn(T) -> bool) -> Map<u64, T> {
    Map::new(|k: u64| m.contains_key(k) && p(m[k]), |k: u64| m[k])
}

/// Filtering a sorted sequence keeps exactly the map entries whose values
/// pass the filter.
pub proof fn lemma_id_filter<T: Identified>(s: Seq<T>, p: spec_fn(T) -> bool)
    requires
        sorted_by_id(s),
    ensures
        sorted_by_id(s.filter(p)),
        id_map(s.filter(p)) == id_map_where(id_map(s), p),
    decreases s.len(),
{
    reveal_with_fuel(Seq::<_>::filter, 1);
    lemma_filter_sorted(s, p);
    if s.len() == 0 {
        assert(id_map(s.filter(p)) =~= id_map_where(id_map(s), p));
    } else {
        let t = s.drop_last();
        let last = s.last();
        assert(sorted_by_id(t)) by {
            assert forall|a: int, b: int| 0 <= a < b < t.len() implies #[trigger] t[a].ident() < #[trigger] t[b].ident() by {
                assert(t[a] == s[a] && t[b] == s[b]);
            }
        }
        lemma_id_filter(t, p);
        assert(s =~= t.insert(t.len() as int, last));
        assert forall|j: int| 0 <= j < t.len() implies #[trigger] t[j].ident() < last.ident() by {
            assert(t[j] == s[j]);
        }
        lemma_id_map_insert(t, t.len() as int, last);
        let ft = t.filter(p);
        if p(last) {
            assert forall|j: int| 0 <= j < ft.len() implies #[trigger] ft[j].ident() < last.ident() by {
                assert(ft.contains(ft[j]));
                t.lemma_filter_contains_rev(p, ft[j]);
                let i = choose|i: int| 0 <= i < t.len() && t[i] == ft[j];
                assert(t[i].ident() < last.ident());
            }
            lemma_id_map_insert(ft, ft.len() as int, last);
            assert(s.filter(p) =~= ft.insert(ft.len() as int, last));
            assert(id_map_where(id_map(s), p) =~= id_map_where(id_map(t), p).insert(last.ident(), last));
        } else {
            assert(s.filter(p) == ft);
            assert(id_map_where(id_map(s), p) =~= id_map_where(id_map(t), p));
        }
    }
}

/// Two sorted sequences with the same elements are equal.
pub proof fn lemma_sorted_same_elements<T: Identified>(a: Seq<T>, b: Seq<T>)
    requires
        sorted_by_id(a),
        sorted_by_id(b),
        forall|x: T| a.contains(x) <==> b.contains(x),
    ensures
        a == b,
    decreases a.len() + b.len(),
{
    if a.len() == 0 {
        if b.len() > 0 {
            assert(b.contains(b[0]));
        }
        assert(a =~= b);
    } else if b.len() == 0 {
        assert(a.contains(a[0]));
    } else {
        let la = a.last();
        let lb = b.last();
        assert(a.contains(la));
        assert(b.contains(lb));
        let ia = choose|i: int| 0 <= i < b.len() && b[i] == la;
        let ib = choose|i: int| 0 <= i < a.len() && a[i] == lb;
        if ia < b.len() - 1 {
            assert(b[ia].ident() < lb.ident());
        }
        if ib < a.len() - 1 {
            assert(a[ib].ident() < la.ident());
        }
        assert(la.ident() == lb.ident());
        lemma_sorted_id_unique(a, ib, a.len() - 1);
        let a2 = a.drop_last();
        let b2 = b.drop_last();
        assert(sorted_by_id(a2));
        assert(sorted_by_id(b2));
        assert forall|x: T| a2.contains(x) <==> b2.contains(x) by {
            if a2.contains(x) {
                let i = choose|i: int| 0 <= i < a2.len() && a2[i] == x;
                assert(a[i] == x);
                assert(a.contains(x));
                let j = choose|j: int| 0 <= j < b.len() && b[j] == x;
                if j == b.len() - 1 {
                    assert(x.ident() < la.ident());
                }
                assert(b2[j] == x);
            }
            if b2.contains(x) {
                let i = choose|i: int| 0 <= i < b2.len() && b2[i] == x;
                assert(b[i] == x);
                assert(b.contains(x));
                let j = choose|j: int| 0 <= j < a.len() && a[j] == x;
                if j == a.len() - 1 {
                    assert(x.ident() < lb.ident());
                }
                assert(a2[j] == x);
            }
        }
        lemma_sorted_same_elements(a2, b2);
        assert(a =~= a2.push(la));
        assert(b =~= b2.push(lb));
    }
}

} // verus!
