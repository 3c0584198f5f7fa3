//! What the forces between bodies with distinct labels come to: every
//! body is pulled by every other body, once.

use crate::force::pairs::{all_pairs, pairs_below, pairs_led_by};
use crate::force::{all_forces, forces_after, gravity_between, with_force, ForceVectorView};
use crate::number::Real;
use crate::simulation::BodyView;
use vstd::prelude::*;

verus! {

/// Whether no two of the bodies share a label.
pub open spec fn distinct_labels<T>(bodies: Seq<BodyView<T>>) -> bool {
    forall|a: int, b: int|
        0 <= a < b < bodies.len() ==> (#[trigger] bodies[a]).label != (#[trigger] bodies[b]).label
}

/// The position of the `t`-th body other than body `k`.
pub open spec fn other_index(k: int, t: int) -> int {
    if t < k {
        t
    } else {
        t + 1
    }
}

/// The pulls on body `k` of the first `count` bodies other than `k`, in
/// the order of the bodies.
pub open spec fn first_forces<T: Real>(
    g: T,
    bodies: Seq<BodyView<T>>,
    k: int,
    count: int,
) -> Seq<ForceVectorView<T>> {
    if count <= 0 {
        Seq::empty()
    } else {
        Seq::new(
            count as nat,
            |t: int| gravity_between(g, bodies[k], bodies[other_index(k, t)]),
        )
    }
}

/// The pulls on body `k` of all the other bodies, in the order of the
/// bodies.
pub open spec fn forces_from_others<T: Real>(
    g: T,
    bodies: Seq<BodyView<T>>,
    k: int,
) -> Seq<ForceVectorView<T>> {
    first_forces(g, bodies, k, bodies.len() - 1)
}

/// The pairs that come before the pair `(i, i + 1 + m)`.
spec fn pairs_done(i: int, m: int, n: int) -> Seq<(int, int)> {
    pairs_below(i, n) + pairs_led_by(i, n).take(m)
}

/// How many forces act on body `k` once the pairs of `pairs_done(i, m, n)`
/// have been taken.
spec fn progress(i: int, m: int, n: int, k: int) -> int {
    if k < i {
        n - 1
    } else if k == i {
        i + m
    } else if k <= i + m {
        i + 1
    } else {
        i
    }
}

/// The forces on each body after the first pairs have been taken, for
/// bodies with distinct labels.
proof fn lemma_progress<T: Real>(g: T, bodies: Seq<BodyView<T>>, i: int, m: int)
    requires
        distinct_labels(bodies),
        0 <= i < bodies.len(),
        0 <= m <= bodies.len() - 1 - i,
    ensures
        forall|k: int|
            0 <= k < bodies.len() ==> {
                let map = forces_after(g, bodies, pairs_done(i, m, bodies.len() as int));
                let count = progress(i, m, bodies.len() as int, k);
                &&& count > 0 ==> map.dom().contains(#[trigger] bodies[k].label)
                    && map[bodies[k].label] == first_forces(g, bodies, k, count)
                &&& count == 0 ==> !map.dom().contains(bodies[k].label)
            },
    decreases i, m,
{
    let n = bodies.len() as int;
    let done = pairs_done(i, m, n);
    if m > 0 {
        lemma_progress(g, bodies, i, m - 1);
        let j = i + m;
        let before = pairs_done(i, m - 1, n);
        assert(pairs_led_by(i, n)[m - 1] == (i, j));
        assert(done =~= before.push((i, j)));
        assert(done.drop_last() =~= before);
        assert(done.last() == (i, j));
        let m0 = forces_after(g, bodies, before);
        let f1 = gravity_between(g, bodies[i], bodies[j]);
        let f2 = gravity_between(g, bodies[j], bodies[i]);
        let m1 = with_force(m0, bodies[i].label, f1);
        let m2 = with_force(m1, bodies[j].label, f2);
        assert(forces_after(g, bodies, done) == m2);
        assert(bodies[i].label != bodies[j].label);
        assert forall|k: int| 0 <= k < n implies {
            let count = progress(i, m, n, k);
            &&& count > 0 ==> m2.dom().contains(#[trigger] bodies[k].label) && m2[bodies[k].label]
                == first_forces(g, bodies, k, count)
            &&& count == 0 ==> !m2.dom().contains(bodies[k].label)
        } by {
            let count0 = progress(i, m - 1, n, k);
            let count = progress(i, m, n, k);
            if k == i {
                assert(other_index(i, count0) == j);
                assert(first_forces(g, bodies, i, count) =~= first_forces(
                    g,
                    bodies,
                    i,
                    count0,
                ).push(f1));
            } else if k == j {
                assert(other_index(j, count0) == i);
                assert(first_forces(g, bodies, j, count) =~= first_forces(
                    g,
                    bodies,
                    j,
                    count0,
                ).push(f2));
            } else {
                if k < i {
                    assert(bodies[k].label != bodies[i].label);
                    assert(bodies[k].label != bodies[j].label);
                } else if k < j {
                    assert(bodies[i].label != bodies[k].label);
                    assert(bodies[k].label != bodies[j].label);
                } else {
                    assert(bodies[i].label != bodies[k].label);
                    assert(bodies[j].label != bodies[k].label);
                }
                assert(count == count0);
            }
        }
    } else if i > 0 {
        lemma_progress(g, bodies, i - 1, n - i);
        assert(pairs_led_by(i - 1, n).take(n - i) =~= pairs_led_by(i - 1, n));
        assert(pairs_led_by(i, n).take(0) =~= Seq::<(int, int)>::empty());
        assert(done =~= pairs_done(i - 1, n - i, n));
        assert forall|k: int| 0 <= k < n implies progress(i, 0, n, k) == progress(
            i - 1,
            n - i,
            n,
            k,
        ) by {}
    } else {
        assert(done =~= Seq::<(int, int)>::empty());
    }
}

/// Where the bodies have distinct labels, the forces under the label of a
/// body are the pulls of all the other bodies on it, one from each, in the
/// order of the bodies. With a single body, or none, there is no force at
/// all.
pub proof fn lemma_forces_with_distinct_labels<T: Real>(g: T, bodies: Seq<BodyView<T>>, k: int)
    requires
        distinct_labels(bodies),
        0 <= k < bodies.len(),
    ensures
        bodies.len() >= 2 ==> all_forces(g, bodies).dom().contains(bodies[k].label) && all_forces(
            g,
            bodies,
        )[bodies[k].label] == forces_from_others(g, bodies, k),
        bodies.len() < 2 ==> !all_forces(g, bodies).dom().contains(bodies[k].label),
        forces_from_others(g, bodies, k).len() == bodies.len() - 1,
{
    let n = bodies.len() as int;
    lemma_progress(g, bodies, n - 1, 0);
    assert(pairs_led_by(n - 1, n) =~= Seq::<(int, int)>::empty());
    assert(pairs_led_by(n - 1, n).take(0) =~= Seq::<(int, int)>::empty());
    assert(pairs_done(n - 1, 0, n) =~= all_pairs(n));
    assert(progress(n - 1, 0, n, k) == n - 1);
}

} // verus!
