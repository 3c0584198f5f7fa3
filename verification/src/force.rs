//! Forces between bodies.

pub mod mutual;
pub mod pairs;

pub use self::mutual::{distinct_labels, forces_from_others, lemma_forces_with_distinct_labels};
pub use self::pairs::{all_pairs, lemma_all_pairs, lemma_all_pairs_in_range};

use crate::force::pairs::index_pairs;
use crate::label_map::LabelMap;
use crate::math::vector::{
    direction_between, distance_between, magnitude_of, scale, scaled_by, Distance, Vector,
};
use crate::number::Real;
use crate::simulation::{Body, BodyView};
use vstd::prelude::*;
use vstd::string::StringExecFns;

verus! {

/// One contribution to the net force on a body, named after its source.
#[derive(Debug)]
pub struct ForceVector<T, const N: usize> {
    pub label: String,
    pub v: Vector<T, N>,
}

/// A force as the contracts see it.
pub struct ForceVectorView<T> {
    pub label: Seq<char>,
    pub v: Seq<T>,
}

impl<T, const N: usize> View for ForceVector<T, N> {
    type V = ForceVectorView<T>;

    open spec fn view(&self) -> ForceVectorView<T> {
        ForceVectorView { label: self.label@, v: self.v@ }
    }
}

impl<T, const N: usize> DeepView for ForceVector<T, N> {
    type V = ForceVectorView<T>;

    open spec fn deep_view(&self) -> ForceVectorView<T> {
        self@
    }
}

impl<T: Real, const N: usize> ForceVector<T, N> {
    /// The strength of the force.
    pub fn magnitude(&self) -> (r: T)
        ensures
            r == magnitude_of(self@.v),
    {
        self.v.magnitude()
    }
}

/// The forces on every body, by the label of the body they act on.
pub type ForceMap<T, const N: usize> = LabelMap<Vec<ForceVector<T, N>>>;

/// A law that says what force one body exerts on another.
pub trait Force<T> {
    /// The force that `from` exerts on `on`.
    fn calculate<const N: usize>(&self, on: &Body<T, N>, from: &Body<T, N>) -> ForceVector<T, N>;
}

/// The Newtonian constant of gravitation, 6.67430e-11 in SI units.
pub open spec fn gravitational_constant<T: Real>() -> T {
    T::decimal_spec(667430, -16i32)
}

/// How strongly `from` pulls `on` under the constant `g`:
/// `g * mass(on) * mass(from) / distance^2`, multiplied from the left.
pub open spec fn pull_strength<T: Real>(g: T, on: BodyView<T>, from: BodyView<T>) -> T {
    let distance = distance_between(on.position, from.position);
    g.mul_spec(on.mass).mul_spec(from.mass).div_spec(distance.powi_spec(2))
}

/// The pull of `from` on `on` under the constant `g`: of magnitude
/// `g * mass(on) * mass(from) / distance^2`, directed from `on` towards
/// `from`, and named after `from`.
pub open spec fn gravity_between<T: Real>(
    g: T,
    on: BodyView<T>,
    from: BodyView<T>,
) -> ForceVectorView<T> {
    ForceVectorView {
        label: "gravity_"@ + from.label,
        v: scaled_by(
            pull_strength(g, on, from),
            direction_between(on.position, from.position),
        ),
    }
}

/// Newton's third law, as far as it is a matter of strength: two bodies
/// pull each other equally strongly, in every scalar type in which the
/// product of the constant and the two masses does not depend on the order
/// of the masses, and in which the two bodies are equally far from each
/// other. Floating-point arithmetic may round the two products differently.
pub proof fn lemma_pull_is_mutual<T: Real>(g: T, a: BodyView<T>, b: BodyView<T>)
    requires
        g.mul_spec(a.mass).mul_spec(b.mass) == g.mul_spec(b.mass).mul_spec(a.mass),
        distance_between(a.position, b.position) == distance_between(b.position, a.position),
    ensures
        pull_strength(g, a, b) == pull_strength(g, b, a),
{
}

/// The map `m` after `force` has been appended to the forces under `label`.
pub open spec fn with_force<T>(
    m: Map<Seq<char>, Seq<ForceVectorView<T>>>,
    label: Seq<char>,
    force: ForceVectorView<T>,
) -> Map<Seq<char>, Seq<ForceVectorView<T>>> {
    let before = if m.dom().contains(label) {
        m[label]
    } else {
        Seq::empty()
    };
    m.insert(label, before.push(force))
}

/// The forces that the given pairs of bodies exert on each other, by the
/// label of the body they act on: for each pair `(i, j)` in turn, the pull
/// of `j` on `i` is appended under the label of `i`, and the pull of `i` on
/// `j` under the label of `j`.
pub open spec fn forces_after<T: Real>(
    g: T,
    bodies: Seq<BodyView<T>>,
    pairs: Seq<(int, int)>,
) -> Map<Seq<char>, Seq<ForceVectorView<T>>>
    decreases pairs.len(),
{
    if pairs.len() == 0 {
        Map::empty()
    } else {
        let (i, j) = pairs.last();
        let m = forces_after(g, bodies, pairs.drop_last());
        let m1 = with_force(m, bodies[i].label, gravity_between(g, bodies[i], bodies[j]));
        with_force(m1, bodies[j].label, gravity_between(g, bodies[j], bodies[i]))
    }
}

/// The forces that all the bodies exert on each other, by the label of the
/// body they act on. Every unordered pair of bodies is taken exactly once,
/// and no body is paired with itself.
pub open spec fn all_forces<T: Real>(g: T, bodies: Seq<BodyView<T>>) -> Map<
    Seq<char>,
    Seq<ForceVectorView<T>>,
> {
    forces_after(g, bodies, all_pairs(bodies.len() as int))
}

/// Appends `force` to the forces that `map` holds under `label`.
fn append_force<T: Real, const N: usize>(
    map: &mut ForceMap<T, N>,
    label: String,
    force: ForceVector<T, N>,
)
    ensures
        final(map).deep_view() == with_force(old(map).deep_view(), label@, force@),
        final(map).wf(),
{
    let ghost before = old(map).deep_view();
    let ghost label_view = label@;
    map.append(label, force);
    proof {
        assert(map@[label_view].deep_view() =~= (if before.dom().contains(label_view) {
            before[label_view]
        } else {
            Seq::empty()
        }).push(force@));
        assert(map.deep_view() =~= with_force(before, label_view, force@));
    }
}

/// Newtonian gravity.
#[derive(Debug)]
pub struct Gravity<T> {
    g: T,
}

impl<T: Real> Gravity<T> {
    /// The constant of gravitation that this law works with.
    pub closed spec fn constant(&self) -> T {
        self.g
    }

    /// Gravity with the constant `g`, or with the standard constant of
    /// gravitation where none is given.
    pub fn new(g: Option<T>) -> (r: Self)
        ensures
            r.constant() == match g {
                Some(g) => g,
                None => gravitational_constant::<T>(),
            },
    {
        match g {
            Some(g) => Gravity { g },
            None => Gravity { g: T::from_decimal(667430, -16) },
        }
    }

    /// The forces that the bodies exert on each other, by the label of the
    /// body they act on. Each unordered pair of bodies is visited once, and
    /// adds one force to each of its two bodies.
    pub fn forces_from_bodies<const N: usize>(&self, bodies: &Vec<&Body<T, N>>) -> (force_map:
        ForceMap<T, N>)
        ensures
            force_map.deep_view() == all_forces(
                self.constant(),
                bodies@.map_values(|b: &Body<T, N>| b@),
            ),
            force_map.wf(),
    {
        let mut force_map = ForceMap::new();
        let pairs = index_pairs(bodies.len());
        let ghost views = bodies@.map_values(|b: &Body<T, N>| b@);
        let ghost all = all_pairs(bodies.len() as int);
        let mut k: usize = 0;
        while k < pairs.len()
            invariant
                0 <= k <= pairs.len(),
                pairs@.map_values(|p: (usize, usize)| (p.0 as int, p.1 as int)) == all,
                all == all_pairs(bodies.len() as int),
                views == bodies@.map_values(|b: &Body<T, N>| b@),
                force_map.deep_view() == forces_after(self.constant(), views, all.take(k as int)),
                force_map.wf(),
            decreases pairs.len() - k,
        {
            let (i, j) = pairs[k];
            proof {
                lemma_all_pairs_in_range(bodies.len() as int, k as int);
                let next = all.take(k + 1);
                assert(next.drop_last() =~= all.take(k as int));
            }
            let b1: &Body<T, N> = bodies[i];
            let b2: &Body<T, N> = bodies[j];
            append_force(&mut force_map, b1.label.clone(), self.calculate(b1, b2));
            append_force(&mut force_map, b2.label.clone(), self.calculate(b2, b1));
            k += 1;
        }
        proof {
            assert(all.take(k as int) =~= all);
        }
        force_map
    }
}

impl<T: Real> Force<T> for Gravity<T> {
    /// The pull of `from` on `on`. Two bodies at the same position are at
    /// distance zero, which makes this a division by zero.
    fn calculate<const N: usize>(&self, on: &Body<T, N>, from: &Body<T, N>) -> (r: ForceVector<
        T,
        N,
    >)
        ensures
            r@ == gravity_between(self.constant(), on@, from@),
    {
        let distance = on.position.distance(&from.position);
        let magnitude = self.g.mul(on.mass).mul(from.mass).div(distance.powi(2));
        let mut on_force_name = String::from_str("gravity_");
        on_force_name.append(from.label.as_str());
        ForceVector {
            label: on_force_name,
            v: scale(magnitude, &on.position.direction(&from.position)),
        }
    }
}

} // verus!
