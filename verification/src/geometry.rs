//! Decisions of the ray–sphere intersection test and of the scene scan.
//!
//! The renderer solves the sphere quadratic in floating point; which root is
//! accepted, how the surface normal is oriented, and which of many candidate
//! hits wins are exact decisions over the order of scalars. They are taken
//! here, over order codes (see the crate root).

use vstd::prelude::*;

verus! {

/// Which root of the sphere quadratic the intersection test accepts.
#[derive(Clone, Copy, Debug, PartialEq, Eq, Structural)]
pub enum RootChoice {
    /// The nearer root `(-half_b - sqrt(d)) / a` lies in the interval.
    Near,
    /// Only the farther root `(-half_b + sqrt(d)) / a` lies in the interval.
    Far,
    /// No real root lies in the interval: the ray misses the sphere.
    Miss,
}

/// The root the intersection test must accept, given whether the
/// discriminant is nonnegative and the order codes of the interval bounds
/// and of the two roots. The nearer root is tried first; the farther root is
/// consulted only when the nearer one falls outside `[tmin, tmax]`.
pub open spec fn root_choice(
    has_roots: bool,
    tmin: u64,
    tmax: u64,
    near: u64,
    far: u64,
) -> RootChoice {
    if !has_roots {
        RootChoice::Miss
    } else if tmin <= near <= tmax {
        RootChoice::Near
    } else if tmin <= far <= tmax {
        RootChoice::Far
    } else {
        RootChoice::Miss
    }
}

/// Decides which root of the sphere quadratic is the hit parameter.
/// `has_roots` reports a nonnegative discriminant; the other arguments are
/// order codes of `tmin`, `tmax` and of the two roots.
pub fn pick_root(has_roots: bool, tmin: u64, tmax: u64, near: u64, far: u64) -> (c: RootChoice)
    ensures
        c == root_choice(has_roots, tmin, tmax, near, far),
{
    if !has_roots {
        return RootChoice::Miss;
    }
    if tmin <= near && near <= tmax {
        RootChoice::Near
    } else if tmin <= far && far <= tmax {
        RootChoice::Far
    } else {
        RootChoice::Miss
    }
}

/// How a hit record orients the outward surface normal against the incoming
/// ray.
#[derive(Clone, Copy, Debug, PartialEq, Eq, Structural)]
pub struct NormalInfo {
    /// Whether the ray approaches from the outward-normal side.
    pub front_face: bool,
    /// Whether the stored normal is the negated outward normal.
    pub flip: bool,
}

/// Orients the outward normal against the incoming ray. `dot` is the order
/// code of the dot product of the ray direction with the outward normal, and
/// `zero` the order code of zero. The hit is a front face exactly when that
/// dot product is negative, and the stored normal is negated exactly on a
/// back face, so that it always opposes the incoming ray.
pub fn orient_normal(dot: u64, zero: u64) -> (info: NormalInfo)
    ensures
        info.front_face == (dot < zero),
        info.flip == !info.front_face,
{
    let front_face = dot < zero;
    NormalInfo { front_face, flip: !front_face }
}

/// What the scene scan's result must look like: `r` is the index of a
/// candidate whose hit parameter is no greater than any candidate's, and any
/// later candidate's is strictly greater (the scan lets a tie fall to the
/// latest candidate); `r` is nothing exactly when there is no candidate.
pub open spec fn nearest_ok(keys: Seq<Option<u64>>, r: Option<int>) -> bool {
    match r {
        Option::Some(i) => {
            &&& 0 <= i < keys.len()
            &&& keys[i] is Some
            &&& forall|j: int|
                0 <= j < keys.len() && keys[j] is Some ==> keys[i]->0 <= keys[j]->0
            &&& forall|j: int| i < j < keys.len() && keys[j] is Some ==> keys[i]->0 < keys[j]->0
        },
        Option::None => forall|j: int| 0 <= j < keys.len() ==> keys[j] is None,
    }
}

/// Selects the nearest hit among the candidates of a linear scene scan.
/// `keys[i]` is the order code of the `i`-th geometry's hit parameter, or
/// nothing where that geometry reports no hit in range. Returns the index of
/// the winning candidate, scanning forward and replacing the best hit found
/// so far whenever a candidate is at least as near.
pub fn nearest_hit(keys: &Vec<Option<u64>>) -> (r: Option<usize>)
    ensures
        nearest_ok(keys@, match r {
            Option::Some(i) => Option::Some(i as int),
            Option::None => Option::None,
        }),
{
    let mut best: Option<usize> = None;
    let mut best_key: u64 = 0;
    let mut idx: usize = 0;
    while idx < keys.len()
        invariant
            idx <= keys.len(),
            match best {
                Option::Some(i) => {
                    &&& 0 <= i < idx
                    &&& keys@[i as int] is Some
                    &&& best_key == keys@[i as int]->0
                    &&& forall|j: int|
                        0 <= j < idx && keys@[j] is Some ==> best_key <= keys@[j]->0
                    &&& forall|j: int|
                        i < j < idx && keys@[j] is Some ==> best_key < keys@[j]->0
                },
                Option::None => forall|j: int| 0 <= j < idx ==> keys@[j] is None,
            },
        decreases keys.len() - idx,
    {
        match keys[idx] {
            Option::Some(k) => {
                match best {
                    Option::Some(_) => {
                        if k <= best_key {
                            best = Some(idx);
                            best_key = k;
                        }
                    },
                    Option::None => {
                        best = Some(idx);
                        best_key = k;
                    },
                }
            },
            Option::None => {},
        }
        idx = idx + 1;
    }
    best
}

/// The scene scan's contract admits exactly one result: the scan is a
/// function of its candidates.
pub proof fn lemma_nearest_result_unique(keys: Seq<Option<u64>>, r1: Option<int>, r2: Option<int>)
    requires
        nearest_ok(keys, r1),
        nearest_ok(keys, r2),
    ensures
        r1 == r2,
{
    match (r1, r2) {
        (Option::Some(i1), Option::Some(i2)) => {
            if i1 < i2 {
                assert(keys[i1]->0 < keys[i2]->0);
                assert(keys[i2]->0 <= keys[i1]->0);
            } else if i2 < i1 {
                assert(keys[i2]->0 < keys[i1]->0);
                assert(keys[i1]->0 <= keys[i2]->0);
            }
        },
        (Option::Some(i1), Option::None) => {
            assert(keys[i1] is Some);
        },
        (Option::None, Option::Some(i2)) => {
            assert(keys[i2] is Some);
        },
        (Option::None, Option::None) => {},
    }
}

/// One geometry's intersection data: whether its quadratic has real roots,
/// and the order codes of the two roots, the nearer first.
#[derive(Clone, Copy, Debug, PartialEq, Eq, Structural)]
pub struct RootKeys {
    pub has_roots: bool,
    pub near: u64,
    pub far: u64,
}

/// The roots are ordered as their names say.
pub open spec fn roots_ordered(it: RootKeys) -> bool {
    it.near <= it.far
}

/// The hit parameter a geometry reports within `[tmin, tmax]`: the accepted
/// root of its quadratic, or nothing on a miss.
pub open spec fn accepted_key(it: RootKeys, tmin: u64, tmax: u64) -> Option<u64> {
    match root_choice(it.has_roots, tmin, tmax, it.near, it.far) {
        RootChoice::Near => Option::Some(it.near),
        RootChoice::Far => Option::Some(it.far),
        RootChoice::Miss => Option::None,
    }
}

/// The smaller of two order codes.
pub open spec fn key_min(a: u64, b: u64) -> u64 {
    if a <= b {
        a
    } else {
        b
    }
}

/// The upper bound left by the scan that hands each geometry in turn the
/// best hit parameter found so far as its upper bound.
pub open spec fn scan_best(items: Seq<RootKeys>, tmin: u64, best: u64) -> u64
    decreases items.len(),
{
    if items.len() == 0 {
        best
    } else {
        let next = match accepted_key(items[0], tmin, best) {
            Option::Some(k) => k,
            Option::None => best,
        };
        scan_best(items.drop_first(), tmin, next)
    }
}

/// The least hit parameter any geometry reports within the full interval,
/// or `tmax` where none does.
pub open spec fn nearest_key(items: Seq<RootKeys>, tmin: u64, tmax: u64) -> u64
    decreases items.len(),
{
    if items.len() == 0 {
        tmax
    } else {
        let head = match accepted_key(items[0], tmin, tmax) {
            Option::Some(k) => k,
            Option::None => tmax,
        };
        key_min(head, nearest_key(items.drop_first(), tmin, tmax))
    }
}

proof fn lemma_accepted_in_range(it: RootKeys, tmin: u64, tmax: u64)
    ensures
        accepted_key(it, tmin, tmax) is Some ==> tmin <= accepted_key(it, tmin, tmax)->0
            <= tmax,
{
}

proof fn lemma_accepted_restricts(it: RootKeys, tmin: u64, b: u64, tmax: u64)
    requires
        roots_ordered(it),
        b <= tmax,
    ensures
        accepted_key(it, tmin, b) == match accepted_key(it, tmin, tmax) {
            Option::Some(k) => if k <= b {
                Option::Some(k)
            } else {
                Option::<u64>::None
            },
            Option::None => Option::<u64>::None,
        },
{
}

proof fn lemma_nearest_key_le_tmax(items: Seq<RootKeys>, tmin: u64, tmax: u64)
    ensures
        nearest_key(items, tmin, tmax) <= tmax,
    decreases items.len(),
{
    if items.len() == 0 {
    } else {
        lemma_nearest_key_le_tmax(items.drop_first(), tmin, tmax);
        lemma_accepted_in_range(items[0], tmin, tmax);
    }
}

proof fn lemma_scan_gen(items: Seq<RootKeys>, tmin: u64, b: u64, tmax: u64)
    requires
        b <= tmax,
        forall|i: int| 0 <= i < items.len() ==> roots_ordered(#[trigger] items[i]),
    ensures
        scan_best(items, tmin, b) == key_min(b, nearest_key(items, tmin, tmax)),
    decreases items.len(),
{
    if items.len() == 0 {
    } else {
        lemma_accepted_restricts(items[0], tmin, b, tmax);
        lemma_accepted_in_range(items[0], tmin, b);
        let next = match accepted_key(items[0], tmin, b) {
            Option::Some(k) => k,
            Option::None => b,
        };
        assert(next <= tmax);
        assert(forall|i: int|
            0 <= i < items.drop_first().len() ==> roots_ordered(
                #[trigger] items.drop_first()[i],
            )) by {
            assert(forall|i: int|
                0 <= i < items.drop_first().len() ==> items.drop_first()[i] == items[i + 1]);
        }
        lemma_scan_gen(items.drop_first(), tmin, next, tmax);
    }
}

/// The scan that shrinks its upper bound to the best hit found so far ends
/// on the same hit parameter as querying every geometry against the full
/// interval and taking the least accepted root: shrinking loses no hit.
pub proof fn lemma_shrinking_scan_finds_nearest(items: Seq<RootKeys>, tmin: u64, tmax: u64)
    requires
        forall|i: int| 0 <= i < items.len() ==> roots_ordered(#[trigger] items[i]),
    ensures
        scan_best(items, tmin, tmax) == nearest_key(items, tmin, tmax),
{
    lemma_nearest_key_le_tmax(items, tmin, tmax);
    lemma_scan_gen(items, tmin, tmax, tmax);
}

proof fn lemma_nearest_key_properties(
    items: Seq<RootKeys>,
    tmin: u64,
    tmax: u64,
    keys: Seq<Option<u64>>,
)
    requires
        keys.len() == items.len(),
        forall|i: int|
            0 <= i < items.len() ==> #[trigger] keys[i] == accepted_key(items[i], tmin, tmax),
    ensures
        forall|j: int|
            0 <= j < keys.len() && #[trigger] keys[j] is Some ==> nearest_key(items, tmin, tmax)
                <= keys[j]->0,
        (exists|j: int| 0 <= j < keys.len() && #[trigger] keys[j] is Some) ==> exists|j: int|
            0 <= j < keys.len() && #[trigger] keys[j] == Option::Some(
                nearest_key(items, tmin, tmax),
            ),
        (forall|j: int| 0 <= j < keys.len() ==> #[trigger] keys[j] is None) ==> nearest_key(
            items,
            tmin,
            tmax,
        ) == tmax,
    decreases items.len(),
{
    if items.len() == 0 {
    } else {
        let rest = items.drop_first();
        let krest = keys.drop_first();
        assert(forall|i: int|
            0 <= i < rest.len() ==> #[trigger] krest[i] == accepted_key(rest[i], tmin, tmax))
            by {
            assert(forall|i: int| 0 <= i < rest.len() ==> rest[i] == items[i + 1]);
            assert(forall|i: int| 0 <= i < krest.len() ==> krest[i] == keys[i + 1]);
        }
        lemma_nearest_key_properties(rest, tmin, tmax, krest);
        lemma_nearest_key_le_tmax(rest, tmin, tmax);
        lemma_accepted_in_range(items[0], tmin, tmax);
        let n = nearest_key(items, tmin, tmax);
        assert forall|j: int| 0 <= j < keys.len() && #[trigger] keys[j] is Some implies n
            <= keys[j]->0 by {
            if j == 0 {
            } else {
                assert(krest[j - 1] == keys[j]);
            }
        }
        if exists|j: int| 0 <= j < keys.len() && #[trigger] keys[j] is Some {
            if keys[0] is Some && keys[0]->0 <= nearest_key(rest, tmin, tmax) {
                assert(keys[0] == Option::Some(n));
            } else if exists|j: int| 0 <= j < krest.len() && #[trigger] krest[j] is Some {
                let j = choose|j: int|
                    0 <= j < krest.len() && #[trigger] krest[j] == Option::Some(
                        nearest_key(rest, tmin, tmax),
                    );
                assert(keys[j + 1] == krest[j]);
                assert(keys[j + 1] == Option::Some(n));
            } else {
                // Only the head is a candidate, and the tail's nearest key
                // stays at tmax.
                let w = choose|j: int| 0 <= j < keys.len() && #[trigger] keys[j] is Some;
                if w != 0 {
                    assert(krest[w - 1] == keys[w]);
                }
                assert(keys[0] is Some);
                assert(keys[0] == Option::Some(n));
            }
        }
        if forall|j: int| 0 <= j < keys.len() ==> #[trigger] keys[j] is None {
            assert(keys[0] is None);
            assert(forall|j: int| 0 <= j < krest.len() ==> #[trigger] krest[j] is None) by {
                assert(forall|j: int| 0 <= j < krest.len() ==> krest[j] == keys[j + 1]);
            }
        }
    }
}

/// Where the scene scan's candidates are exactly the roots each geometry
/// accepts within the full interval, any winner the scan's contract admits
/// carries exactly the hit parameter the shrinking scan ends on, and the
/// scan comes up empty exactly when the shrinking scan keeps the bound it
/// started with.
pub proof fn lemma_nearest_hit_agrees_with_shrinking_scan(
    items: Seq<RootKeys>,
    tmin: u64,
    tmax: u64,
    keys: Seq<Option<u64>>,
    r: Option<int>,
)
    requires
        keys.len() == items.len(),
        forall|i: int|
            0 <= i < items.len() ==> #[trigger] keys[i] == accepted_key(items[i], tmin, tmax),
        forall|i: int| 0 <= i < items.len() ==> roots_ordered(#[trigger] items[i]),
        nearest_ok(keys, r),
    ensures
        match r {
            Option::Some(i) => keys[i]->0 == scan_best(items, tmin, tmax),
            Option::None => scan_best(items, tmin, tmax) == tmax,
        },
{
    lemma_shrinking_scan_finds_nearest(items, tmin, tmax);
    lemma_nearest_key_properties(items, tmin, tmax, keys);
    let n = nearest_key(items, tmin, tmax);
    match r {
        Option::Some(i) => {
            assert(keys[i] is Some);
            let j = choose|j: int|
                0 <= j < keys.len() && #[trigger] keys[j] == Option::Some(n);
            assert(keys[i]->0 <= keys[j]->0);
        },
        Option::None => {},
    }
}

} // verus!
