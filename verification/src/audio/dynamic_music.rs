//! Roles of the layers of the dynamic music mix.

use vstd::prelude::*;

verus! {

/// Kind of music layer, defining its semantic role in the audio mix.
#[derive(Debug, Clone, Copy, PartialEq, Eq, Hash, Structural)]
pub enum MusicLayerKind {
    /// Base ambient layer, always present at some level.
    BaseAmbient,
    /// Calm exploration, low threat.
    Exploration,
    /// Building tension, moderate threat detected.
    Tension,
    /// Immediate danger, high threat.
    Danger,
    /// Active combat engagement.
    Combat,
    /// Storm or severe weather pressure.
    Storm,
    /// Low oxygen or suffocation pressure.
    LowOxygen,
    /// Radiation hazard pressure.
    Radiation,
    /// Toxicity or poison pressure.
    Toxicity,
    /// Corruption or eldritch pressure.
    Corruption,
    /// Spore density or biological hazard.
    Spores,
    /// Structural instability or collapse danger.
    StructuralDanger,
    /// Deep underground or isolation pressure.
    Depth,
    /// Void or space pressure.
    Void,
    /// Player health critical.
    HealthCritical,
    /// Player stress or sanity pressure.
    Stress,
}

/// The default priority of a layer kind; lower values take precedence.
pub open spec fn spec_default_priority(kind: MusicLayerKind) -> i32 {
    match kind {
        MusicLayerKind::Combat => 0,
        MusicLayerKind::HealthCritical => 5,
        MusicLayerKind::Danger => 10,
        MusicLayerKind::StructuralDanger => 15,
        MusicLayerKind::Void => 20,
        MusicLayerKind::Radiation => 25,
        MusicLayerKind::Toxicity => 26,
        MusicLayerKind::Corruption => 27,
        MusicLayerKind::LowOxygen => 28,
        MusicLayerKind::Spores => 29,
        MusicLayerKind::Storm => 30,
        MusicLayerKind::Tension => 40,
        MusicLayerKind::Stress => 45,
        MusicLayerKind::Depth => 50,
        MusicLayerKind::Exploration => 80,
        MusicLayerKind::BaseAmbient => 100,
    }
}

/// Storm, low oxygen, radiation, toxicity, corruption, spores, depth and void.
pub open spec fn spec_is_environmental(kind: MusicLayerKind) -> bool {
    match kind {
        MusicLayerKind::Storm | MusicLayerKind::LowOxygen | MusicLayerKind::Radiation
        | MusicLayerKind::Toxicity | MusicLayerKind::Corruption | MusicLayerKind::Spores
        | MusicLayerKind::Depth | MusicLayerKind::Void => true,
        _ => false,
    }
}

/// Tension, danger, combat and structural danger.
pub open spec fn spec_is_threat(kind: MusicLayerKind) -> bool {
    match kind {
        MusicLayerKind::Tension | MusicLayerKind::Danger | MusicLayerKind::Combat
        | MusicLayerKind::StructuralDanger => true,
        _ => false,
    }
}

/// Critical health and stress.
pub open spec fn spec_is_player_condition(kind: MusicLayerKind) -> bool {
    kind == MusicLayerKind::HealthCritical || kind == MusicLayerKind::Stress
}

impl MusicLayerKind {
    /// All layer kinds in declaration order.
    pub fn all() -> (v: Vec<MusicLayerKind>)
        ensures
            v@ == seq![
                MusicLayerKind::BaseAmbient,
                MusicLayerKind::Exploration,
                MusicLayerKind::Tension,
                MusicLayerKind::Danger,
                MusicLayerKind::Combat,
                MusicLayerKind::Storm,
                MusicLayerKind::LowOxygen,
                MusicLayerKind::Radiation,
                MusicLayerKind::Toxicity,
                MusicLayerKind::Corruption,
                MusicLayerKind::Spores,
                MusicLayerKind::StructuralDanger,
                MusicLayerKind::Depth,
                MusicLayerKind::Void,
                MusicLayerKind::HealthCritical,
                MusicLayerKind::Stress,
            ],
    {
        vec![
            MusicLayerKind::BaseAmbient,
            MusicLayerKind::Exploration,
            MusicLayerKind::Tension,
            MusicLayerKind::Danger,
            MusicLayerKind::Combat,
            MusicLayerKind::Storm,
            MusicLayerKind::LowOxygen,
            MusicLayerKind::Radiation,
            MusicLayerKind::Toxicity,
            MusicLayerKind::Corruption,
            MusicLayerKind::Spores,
            MusicLayerKind::StructuralDanger,
            MusicLayerKind::Depth,
            MusicLayerKind::Void,
            MusicLayerKind::HealthCritical,
            MusicLayerKind::Stress,
        ]
    }

    /// The default priority for this layer kind; lower values take precedence.
    pub fn default_priority(&self) -> (p: i32)
        ensures
            p == spec_default_priority(*self),
    {
        match self {
            MusicLayerKind::Combat => 0,
            MusicLayerKind::HealthCritical => 5,
            MusicLayerKind::Danger => 10,
            MusicLayerKind::StructuralDanger => 15,
            MusicLayerKind::Void => 20,
            MusicLayerKind::Radiation => 25,
            MusicLayerKind::Toxicity => 26,
            MusicLayerKind::Corruption => 27,
            MusicLayerKind::LowOxygen => 28,
            MusicLayerKind::Spores => 29,
            MusicLayerKind::Storm => 30,
            MusicLayerKind::Tension => 40,
            MusicLayerKind::Stress => 45,
            MusicLayerKind::Depth => 50,
            MusicLayerKind::Exploration => 80,
            MusicLayerKind::BaseAmbient => 100,
        }
    }

    /// Whether this is an environmental pressure layer.
    pub fn is_environmental(&self) -> (b: bool)
        ensures
            b == spec_is_environmental(*self),
    {
        matches!(
            self,
            MusicLayerKind::Storm | MusicLayerKind::LowOxygen | MusicLayerKind::Radiation
                | MusicLayerKind::Toxicity | MusicLayerKind::Corruption | MusicLayerKind::Spores
                | MusicLayerKind::Depth | MusicLayerKind::Void
        )
    }

    /// Whether this is a threat or combat layer.
    pub fn is_threat(&self) -> (b: bool)
        ensures
            b == spec_is_threat(*self),
    {
        matches!(
            self,
            MusicLayerKind::Tension | MusicLayerKind::Danger | MusicLayerKind::Combat
                | MusicLayerKind::StructuralDanger
        )
    }

    /// Whether this is a player condition layer.
    pub fn is_player_condition(&self) -> (b: bool)
        ensures
            b == spec_is_player_condition(*self),
    {
        matches!(self, MusicLayerKind::HealthCritical | MusicLayerKind::Stress)
    }
}

/// The three categories never overlap: a layer is environmental, a threat, a
/// player condition, or (base ambient and exploration) none of them.
pub proof fn law_layer_categories_disjoint(kind: MusicLayerKind)
    ensures
        !(spec_is_environmental(kind) && spec_is_threat(kind)),
        !(spec_is_environmental(kind) && spec_is_player_condition(kind)),
        !(spec_is_threat(kind) && spec_is_player_condition(kind)),
        !spec_is_environmental(kind) && !spec_is_threat(kind) && !spec_is_player_condition(kind)
            <==> (kind == MusicLayerKind::BaseAmbient || kind == MusicLayerKind::Exploration),
{
}

/// Distinct layer kinds have distinct default priorities, so the priority
/// order between layers is total.
pub proof fn law_default_priority_injective(a: MusicLayerKind, b: MusicLayerKind)
    ensures
        spec_default_priority(a) == spec_default_priority(b) ==> a == b,
{
}

} // verus!

verus! {

/// Maximum number of concurrent active layers.
pub const MAX_ACTIVE_LAYERS: usize = 8;

/// In a mix, the layer at position `a` of the profile comes before the one at
/// position `b`: lower priority value first, profile order among equals.
pub open spec fn mix_before(p: Seq<i32>, a: int, b: int) -> bool {
    p[a] < p[b] || (p[a] == p[b] && a < b)
}

/// `r` lists the layers of a mix: positions of the profile, strictly in mix
/// order, as many as fit (at most `MAX_ACTIVE_LAYERS`), and every position
/// left out comes after every one taken.
pub open spec fn is_mix_order(p: Seq<i32>, r: Seq<usize>) -> bool {
    &&& r.len() == if p.len() < MAX_ACTIVE_LAYERS { p.len() } else { MAX_ACTIVE_LAYERS as nat }
    &&& forall|i: int| 0 <= i < r.len() ==> #[trigger] r[i] < p.len()
    &&& forall|i: int, j: int| 0 <= i < j < r.len() ==> mix_before(p, #[trigger] r[i] as int, #[trigger] r[j] as int)
    &&& forall|k: int, i: int|
        0 <= k < p.len() && !r.contains(k as usize) && 0 <= i < r.len() ==> #[trigger] mix_before(p, r[i] as int, k)
}

/// Position `q` may still be taken after `last` (any position may, before the first pick).
pub open spec fn pick_candidate(p: Seq<i32>, has_last: bool, last: int, q: int) -> bool {
    !has_last || mix_before(p, last, q)
}

/// Position `k` is among those taken into `r`.
pub open spec fn taken_pos(r: Seq<usize>, k: int) -> bool {
    r.contains(k as usize)
}

/// Among `n` positions, `r` (strictly ordered by `mix_before`, all below `n`)
/// leaves one out when it is shorter than `n`.
proof fn lemma_some_left_out(p: Seq<i32>, r: Seq<usize>, n: int)
    requires
        n == p.len(),
        n <= usize::MAX,
        r.len() < n,
        forall|i: int| 0 <= i < r.len() ==> #[trigger] r[i] < n,
        forall|i: int, j: int| 0 <= i < j < r.len() ==> mix_before(p, #[trigger] r[i] as int, #[trigger] r[j] as int),
    ensures
        exists|k: int| 0 <= k < n && !#[trigger] taken_pos(r, k),
{
    let rs = r.map_values(|x: usize| x as int);
    assert(rs.no_duplicates()) by {
        assert forall|i: int, j: int| 0 <= i < rs.len() && 0 <= j < rs.len() && i != j implies rs[i] != rs[j] by {
            if i < j {
                assert(mix_before(p, r[i] as int, r[j] as int));
            } else {
                assert(mix_before(p, r[j] as int, r[i] as int));
            }
        }
    }
    rs.unique_seq_to_set();
    vstd::set_lib::lemma_int_range(0, n);
    if forall|k: int| 0 <= k < n ==> #[trigger] taken_pos(r, k) {
        assert(vstd::set_lib::set_int_range(0, n).subset_of(rs.to_set())) by {
            assert forall|k: int| vstd::set_lib::set_int_range(0, n).contains(k) implies rs.to_set().contains(k) by {
                assert(taken_pos(r, k));
                let w = choose|w: int| 0 <= w < r.len() && r[w] == k as usize;
                assert((k as usize) as int == k);
                assert(rs[w] == k);
            }
        }
        vstd::set_lib::lemma_len_subset(vstd::set_lib::set_int_range(0, n), rs.to_set());
    }
}

/// The layers that make up a mix, as positions of the profile, given each
/// layer's priority: the layers ordered by priority (profile order among
/// equal priorities), at most `MAX_ACTIVE_LAYERS` of them.
pub fn mix_order(priorities: &[i32]) -> (r: Vec<usize>)
    ensures
        is_mix_order(priorities@, r@),
{
    let ghost p = priorities@;
    let n = priorities.len();
    let mut r: Vec<usize> = Vec::new();
    while r.len() < MAX_ACTIVE_LAYERS && r.len() < n
        invariant
            p == priorities@,
            n == p.len(),
            r@.len() <= n,
            r@.len() <= MAX_ACTIVE_LAYERS,
            forall|i: int| 0 <= i < r@.len() ==> #[trigger] r@[i] < n,
            forall|i: int, j: int| 0 <= i < j < r@.len() ==> mix_before(p, #[trigger] r@[i] as int, #[trigger] r@[j] as int),
            forall|k: int, i: int|
                0 <= k < n && !r@.contains(k as usize) && 0 <= i < r@.len() ==> #[trigger] mix_before(p, r@[i] as int, k),
        decreases MAX_ACTIVE_LAYERS - r@.len(),
    {
        proof {
            lemma_some_left_out(p, r@, n as int);
        }
        let ghost missing = choose|k: int| 0 <= k < n && !#[trigger] taken_pos(r@, k);
        let has_last = r.len() > 0;
        let last: usize = if has_last { r[r.len() - 1] } else { 0 };
        let mut best: usize = n;
        let mut k: usize = 0;
        while k < n
            invariant
                p == priorities@,
                n == p.len(),
                k <= n,
                has_last == (r@.len() > 0),
                has_last ==> last == r@[r@.len() - 1] && last < n,
                best == n || (best < k && pick_candidate(p, has_last, last as int, best as int)),
                best < n ==> forall|q: int|
                    0 <= q < k && #[trigger] pick_candidate(p, has_last, last as int, q) ==> q == best || mix_before(
                        p,
                        best as int,
                        q,
                    ),
                best == n ==> forall|q: int| 0 <= q < k ==> !#[trigger] pick_candidate(p, has_last, last as int, q),
            decreases n - k,
        {
            let after_last = !has_last || priorities[last] < priorities[k] || (priorities[last] == priorities[k] && last < k);
            let ghost old_best = best;
            proof {
                assert(after_last == pick_candidate(p, has_last, last as int, k as int));
            }
            if after_last {
                if best == n || priorities[k] < priorities[best] || (priorities[k] == priorities[best] && k < best) {
                    best = k;
                }
            }
            proof {
                assert forall|q: int| 0 <= q < k + 1 && #[trigger] pick_candidate(p, has_last, last as int, q) && best < n
                    implies q == best || mix_before(p, best as int, q) by {
                    if q < k {
                        if old_best < n {
                            assert(q == old_best || mix_before(p, old_best as int, q));
                        }
                    }
                }
                assert forall|q: int| 0 <= q < k + 1 && best == n implies !#[trigger] pick_candidate(
                    p,
                    has_last,
                    last as int,
                    q,
                ) by {
                }
            }
            k = k + 1;
        }
        proof {
            if has_last {
                assert(r@.contains(last));
                assert(!mix_before(p, last as int, last as int));
            }
            assert(!taken_pos(r@, missing));
            if r@.len() > 0 {
                assert(mix_before(p, r@[r@.len() - 1] as int, missing));
            }
            assert(pick_candidate(p, has_last, last as int, missing));
            assert(best < n);
            // The pick is not taken yet: it comes after the last one taken.
            assert(!r@.contains(best)) by {
                if r@.contains(best) {
                    let w = choose|w: int| 0 <= w < r@.len() && r@[w] == best;
                    if w < r@.len() - 1 {
                        assert(mix_before(p, r@[w] as int, r@[r@.len() - 1] as int));
                    }
                }
            }
        }
        let ghost prev = r@;
        r.push(best);
        proof {
            assert forall|i: int, j: int| 0 <= i < j < r@.len() implies mix_before(p, #[trigger] r@[i] as int, #[trigger] r@[j] as int) by {
                if j == r@.len() - 1 {
                    assert(mix_before(p, prev[i] as int, best as int));
                }
            }
            assert forall|q: int, i: int| 0 <= q < n && !r@.contains(q as usize) && 0 <= i < r@.len() implies #[trigger] mix_before(
                p,
                r@[i] as int,
                q,
            ) by {
                assert(!prev.contains(q as usize)) by {
                    if prev.contains(q as usize) {
                        let w = choose|w: int| 0 <= w < prev.len() && prev[w] == q as usize;
                        assert(r@[w] == q as usize);
                    }
                }
                if i == r@.len() - 1 {
                    assert(r@[r@.len() - 1] == best);
                    assert(r@.contains(best));
                    assert(q != best);
                    if prev.len() > 0 {
                        assert(mix_before(p, prev[prev.len() - 1] as int, q));
                    }
                    assert(pick_candidate(p, has_last, last as int, q));
                } else {
                    assert(r@[i] == prev[i]);
                    assert(mix_before(p, prev[i] as int, q));
                }
            }
        }
    }
    r
}

} // verus!
