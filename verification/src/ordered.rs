//! Ordered sets of numbers: their elements listed in increasing order.

use vstd::prelude::*;
use std::collections::BTreeSet;
use vstd::std_specs::btree::{spec_btree_keys_iter, increasing_seq};
use vstd::std_specs::iter::IteratorSpec;

verus! {

broadcast use vstd::laws_cmp::group_laws_cmp, vstd::std_specs::btree::group_btree_axioms;

/// The numbers of a sequence strictly increase.
pub open spec fn strictly_increasing(s: Seq<u64>) -> bool {
    forall|i: int, j: int| 0 <= i < j < s.len() ==> s[i] < s[j]
}

/// The elements of an ordered set, in increasing order.
pub fn set_elements(set: &BTreeSet<u64>) -> (v: Vec<u64>)
    ensures
        v@.to_set() == set@,
        strictly_increasing(v@),
        v@.len() == set@.len(),
{
    let mut v: Vec<u64> = Vec::new();
    let ghost elems = spec_btree_keys_iter(set).remaining().unref();
    for x in it: set.iter()
        invariant
            it.seq().unref() == elems,
            v@ == elems.subrange(0, it.index()),
    {
        v.push(*x);
        proof {
            assert(v@ =~= elems.subrange(0, it.index() + 1));
        }
    }
    proof {
        assert(v@ =~= elems);
        let rem = spec_btree_keys_iter(set).remaining();
        assert(vstd::laws_cmp::obeys_cmp::<u64>());
        assert(vstd::laws_cmp::obeys_cmp::<&u64>());
        assert(increasing_seq(rem));
        assert forall|i: int, j: int| 0 <= i < j < v@.len() implies v@[i] < v@[j] by {
            assert(*rem[i] == v@[i]);
            assert(*rem[j] == v@[j]);
            assert(vstd::std_specs::cmp::OrdSpec::cmp_spec(&rem[i], &rem[j]) == core::cmp::Ordering::Less);
        }
    }
    v
}

} // verus!

verus! {

/// The pairs `(k, v)` of a relation stored as a map from each `k` to the set of its `v`s.
pub open spec fn rel_of(m: Map<u64, BTreeSet<u64>>) -> Set<(u64, u64)> {
    Set::new(|p: (u64, u64)| m.contains_key(p.0) && m[p.0]@.contains(p.1))
}

/// No key of the stored relation maps to an empty set.
pub open spec fn no_empty_rows(m: Map<u64, BTreeSet<u64>>) -> bool {
    forall|k: u64| #[trigger] m.contains_key(k) ==> !m[k]@.is_empty()
}

/// The `v`s related to `k`.
pub open spec fn row(r: Set<(u64, u64)>, k: u64) -> Set<u64> {
    Set::new(|v: u64| r.contains((k, v)))
}

/// Relates `k` to `v`.
pub fn rel_add(m: &mut std::collections::BTreeMap<u64, BTreeSet<u64>>, k: u64, v: u64)
    requires
        no_empty_rows(old(m)@),
    ensures
        no_empty_rows(final(m)@),
        rel_of(final(m)@) == rel_of(old(m)@).insert((k, v)),
{
    let ghost old_m = m@;
    let mut set = match m.remove(&k) {
        Some(s) => s,
        None => BTreeSet::new(),
    };
    set.insert(v);
    m.insert(k, set);
    proof {
        assert(rel_of(m@) =~= rel_of(old_m).insert((k, v)));
    }
}

/// Unrelates `k` from `v`; a key whose set becomes empty is dropped.
pub fn rel_remove(m: &mut std::collections::BTreeMap<u64, BTreeSet<u64>>, k: u64, v: u64)
    requires
        no_empty_rows(old(m)@),
    ensures
        no_empty_rows(final(m)@),
        rel_of(final(m)@) == rel_of(old(m)@).remove((k, v)),
{
    let ghost old_m = m@;
    match m.remove(&k) {
        Some(mut set) => {
            set.remove(&v);
            if !set.is_empty() {
                m.insert(k, set);
            }
            proof {
                assert(rel_of(m@) =~= rel_of(old_m).remove((k, v)));
            }
        },
        None => {
            proof {
                assert(rel_of(m@) =~= rel_of(old_m).remove((k, v)));
            }
        },
    }
}

/// Whether `k` is related to `v`.
pub fn rel_contains(m: &std::collections::BTreeMap<u64, BTreeSet<u64>>, k: u64, v: u64) -> (b: bool)
    ensures
        b == rel_of(m@).contains((k, v)),
{
    match m.get(&k) {
        Some(set) => set.contains(&v),
        None => false,
    }
}

/// The `v`s related to `k`, in increasing order.
pub fn rel_row(m: &std::collections::BTreeMap<u64, BTreeSet<u64>>, k: u64) -> (r: Vec<u64>)
    ensures
        r@.to_set() == row(rel_of(m@), k),
        strictly_increasing(r@),
{
    match m.get(&k) {
        Some(set) => {
            let r = set_elements(set);
            proof {
                assert(r@.to_set() =~= row(rel_of(m@), k));
            }
            r
        },
        None => {
            let r: Vec<u64> = Vec::new();
            proof {
                assert(r@.to_set() =~= row(rel_of(m@), k));
            }
            r
        },
    }
}

/// The number of `v`s related to `k`.
pub fn rel_row_len(m: &std::collections::BTreeMap<u64, BTreeSet<u64>>, k: u64) -> (n: usize)
    ensures
        n == row(rel_of(m@), k).len(),
{
    match m.get(&k) {
        Some(set) => {
            proof {
                assert(set@ =~= row(rel_of(m@), k));
            }
            set.len()
        },
        None => {
            proof {
                assert(row(rel_of(m@), k) =~= Set::<u64>::empty());
            }
            0
        },
    }
}

/// Drops every pair with key `k`; returns the `v`s that were related to it, in
/// increasing order.
pub fn rel_take_row(m: &mut std::collections::BTreeMap<u64, BTreeSet<u64>>, k: u64) -> (r: Vec<u64>)
    requires
        no_empty_rows(old(m)@),
    ensures
        no_empty_rows(final(m)@),
        r@.to_set() == row(rel_of(old(m)@), k),
        strictly_increasing(r@),
        rel_of(final(m)@) == rel_of(old(m)@).filter(|p: (u64, u64)| p.0 != k),
{
    let ghost old_m = m@;
    let r = rel_row(m, k);
    m.remove(&k);
    proof {
        assert(rel_of(m@) =~= rel_of(old_m).filter(|p: (u64, u64)| p.0 != k));
    }
    r
}

} // verus!


verus! {

/// The elements of `set` that are not in `drop`.
pub fn set_without(set: &BTreeSet<u64>, drop: &BTreeSet<u64>) -> (r: BTreeSet<u64>)
    ensures
        r@ == set@.filter(|x: u64| !drop@.contains(x)),
{
    let elems = set_elements(set);
    let mut r: BTreeSet<u64> = BTreeSet::new();
    let mut i: usize = 0;
    while i < elems.len()
        invariant
            i <= elems@.len(),
            elems@.to_set() == set@,
            r@ == elems@.subrange(0, i as int).to_set().filter(|x: u64| !drop@.contains(x)),
        decreases elems@.len() - i,
    {
        let x = elems[i];
        let ghost prev = elems@.subrange(0, i as int).to_set();
        proof {
            assert(elems@.subrange(0, i + 1).to_set() =~= prev.insert(x)) by {
                assert forall|y: u64| elems@.subrange(0, i + 1).to_set().contains(y) implies prev.insert(x).contains(y) by {
                    let j = choose|j: int| 0 <= j < i + 1 && #[trigger] elems@.subrange(0, i + 1)[j] == y;
                    if j < i {
                        assert(elems@.subrange(0, i as int)[j] == y);
                    }
                }
                assert forall|y: u64| prev.insert(x).contains(y) implies elems@.subrange(0, i + 1).to_set().contains(y) by {
                    if y == x {
                        assert(elems@.subrange(0, i + 1)[i as int] == y);
                    } else {
                        let j = choose|j: int| 0 <= j < i && #[trigger] elems@.subrange(0, i as int)[j] == y;
                        assert(elems@.subrange(0, i + 1)[j] == y);
                    }
                }
            }
        }
        if !drop.contains(&x) {
            r.insert(x);
        }
        proof {
            assert(r@ =~= elems@.subrange(0, i + 1).to_set().filter(|x: u64| !drop@.contains(x)));
        }
        i = i + 1;
    }
    proof {
        assert(elems@.subrange(0, elems@.len() as int) =~= elems@);
        assert(r@ =~= set@.filter(|x: u64| !drop@.contains(x)));
    }
    r
}

} // verus!

verus! {

/// The first `i + 1` elements are the first `i` and element `i`.
pub proof fn lemma_prefix_step(s: Seq<u64>, i: int)
    requires
        0 <= i < s.len(),
    ensures
        forall|x: u64| #[trigger] s.subrange(0, i + 1).contains(x) == (s.subrange(0, i).contains(x) || x == s[i]),
{
    let a = s.subrange(0, i);
    let b = s.subrange(0, i + 1);
    assert(b =~= a.push(s[i]));
    assert forall|x: u64| #[trigger] b.contains(x) == (a.contains(x) || x == s[i]) by {
        if b.contains(x) {
            let j = choose|j: int| 0 <= j < b.len() && #[trigger] b[j] == x;
            if j < i {
                assert(a[j] == x);
            }
        }
        if a.contains(x) {
            let j = choose|j: int| 0 <= j < a.len() && #[trigger] a[j] == x;
            assert(b[j] == x);
        }
        if x == s[i] {
            assert(b[i] == x);
        }
    }
}

} // verus!
