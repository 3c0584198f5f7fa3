//! Faults in the bodies of a simulation that gravity cannot cope with.

use crate::force::mutual::distinct_labels;
use crate::force::pairs::{all_pairs, index_pairs, lemma_all_pairs, lemma_all_pairs_in_range};
use crate::math::vector::{distance_between, Distance};
use crate::number::{zero, zero_spec, Real};
use crate::simulation::body::{Body, BodyView};
use crate::simulation::Simulation;
use vstd::prelude::*;
use vstd::string::StringExecFns;

verus! {

/// What can be wrong with the bodies of a simulation.
#[derive(Debug, PartialEq, Eq)]
pub enum SimulationError {
    /// The mass of the body with this label is not greater than zero.
    MassNotPositive { label: String },
    /// Two bodies have this label.
    DuplicateLabel { label: String },
    /// The two bodies with these labels are not at a distance greater than
    /// zero from each other.
    CoincidentBodies { first: String, second: String },
}

/// An error as the contracts see it.
pub enum SimulationErrorView {
    MassNotPositive { label: Seq<char> },
    DuplicateLabel { label: Seq<char> },
    CoincidentBodies { first: Seq<char>, second: Seq<char> },
}

impl View for SimulationError {
    type V = SimulationErrorView;

    open spec fn view(&self) -> SimulationErrorView {
        match self {
            SimulationError::MassNotPositive { label } => SimulationErrorView::MassNotPositive {
                label: label@,
            },
            SimulationError::DuplicateLabel { label } => SimulationErrorView::DuplicateLabel {
                label: label@,
            },
            SimulationError::CoincidentBodies {
                first,
                second,
            } => SimulationErrorView::CoincidentBodies { first: first@, second: second@ },
        }
    }
}

/// What an error says in words.
pub open spec fn message_of(error: SimulationErrorView) -> Seq<char> {
    match error {
        SimulationErrorView::MassNotPositive { label } => "the mass of body '"@ + label
            + "' is not greater than zero"@,
        SimulationErrorView::DuplicateLabel { label } => "more than one body is labelled '"@
            + label + "'"@,
        SimulationErrorView::CoincidentBodies { first, second } => "the bodies '"@ + first
            + "' and '"@ + second + "' are not at a distance greater than zero"@,
    }
}

impl SimulationError {
    /// The error in words.
    pub fn message(&self) -> (r: String)
        ensures
            r@ == message_of(self@),
    {
        match self {
            SimulationError::MassNotPositive { label } => {
                let mut r = String::from_str("the mass of body '");
                r.append(label.as_str());
                r.append("' is not greater than zero");
                r
            },
            SimulationError::DuplicateLabel { label } => {
                let mut r = String::from_str("more than one body is labelled '");
                r.append(label.as_str());
                r.append("'");
                r
            },
            SimulationError::CoincidentBodies { first, second } => {
                let mut r = String::from_str("the bodies '");
                r.append(first.as_str());
                r.append("' and '");
                r.append(second.as_str());
                r.append("' are not at a distance greater than zero");
                r
            },
        }
    }
}

/// Whether the mass of the body is greater than zero.
pub open spec fn massive<T: Real>(body: BodyView<T>) -> bool {
    body.mass.gt_spec(zero_spec::<T>())
}

/// Whether the two bodies are at a distance greater than zero from each
/// other.
pub open spec fn apart<T: Real>(a: BodyView<T>, b: BodyView<T>) -> bool {
    distance_between(a.position, b.position).gt_spec(zero_spec::<T>())
}

/// Whether the bodies are free of the faults that make gravity divide by
/// zero or lose a body: every mass is greater than zero, no two bodies
/// share a label, and no two bodies are at the same place.
pub open spec fn sound<T: Real>(bodies: Seq<BodyView<T>>) -> bool {
    &&& forall|i: int| 0 <= i < bodies.len() ==> massive(#[trigger] bodies[i])
    &&& distinct_labels(bodies)
    &&& forall|a: int, b: int|
        0 <= a < b < bodies.len() ==> apart(#[trigger] bodies[a], #[trigger] bodies[b])
}

/// Whether body `i` is the first whose mass is not greater than zero.
pub open spec fn first_without_mass<T: Real>(bodies: Seq<BodyView<T>>, i: int) -> bool {
    &&& 0 <= i < bodies.len()
    &&& !massive(bodies[i])
    &&& forall|j: int| 0 <= j < i ==> massive(#[trigger] bodies[j])
}

/// Whether the `k`-th pair of bodies is the first pair with one label,
/// where the pairs are taken in lexicographic order.
pub open spec fn first_with_one_label<T>(bodies: Seq<BodyView<T>>, k: int) -> bool {
    let pairs = all_pairs(bodies.len() as int);
    &&& 0 <= k < pairs.len()
    &&& bodies[pairs[k].0].label == bodies[pairs[k].1].label
    &&& forall|m: int|
        0 <= m < k ==> bodies[(#[trigger] pairs[m]).0].label != bodies[pairs[m].1].label
}

/// Whether the `k`-th pair of bodies is the first pair that is not apart,
/// where the pairs are taken in lexicographic order.
pub open spec fn first_not_apart<T: Real>(bodies: Seq<BodyView<T>>, k: int) -> bool {
    let pairs = all_pairs(bodies.len() as int);
    &&& 0 <= k < pairs.len()
    &&& !apart(bodies[pairs[k].0], bodies[pairs[k].1])
    &&& forall|m: int| 0 <= m < k ==> apart(bodies[(#[trigger] pairs[m]).0], bodies[pairs[m].1])
}

/// What `validate` makes of the bodies: nothing where they are sound, else
/// the first fault that it meets. It looks for a mass that is not positive
/// first, then for a label that occurs twice, then for two bodies at one
/// place.
pub open spec fn valid_result<T: Real>(
    bodies: Seq<BodyView<T>>,
    result: Result<(), SimulationErrorView>,
) -> bool {
    let pairs = all_pairs(bodies.len() as int);
    match result {
        Ok(()) => sound(bodies),
        Err(SimulationErrorView::MassNotPositive { label }) => exists|i: int|
            #[trigger] first_without_mass(bodies, i) && label == bodies[i].label,
        Err(SimulationErrorView::DuplicateLabel { label }) => {
            &&& forall|i: int| 0 <= i < bodies.len() ==> massive(#[trigger] bodies[i])
            &&& exists|k: int|
                #[trigger] first_with_one_label(bodies, k) && label == bodies[pairs[k].0].label
        },
        Err(SimulationErrorView::CoincidentBodies { first, second }) => {
            &&& forall|i: int| 0 <= i < bodies.len() ==> massive(#[trigger] bodies[i])
            &&& distinct_labels(bodies)
            &&& exists|k: int|
                #[trigger] first_not_apart(bodies, k) && first == bodies[pairs[k].0].label && second
                    == bodies[pairs[k].1].label
        },
    }
}

/// An error is reported only of bodies that are not sound, so that sound
/// bodies are always accepted.
pub proof fn lemma_errors_mean_faults<T: Real>(
    bodies: Seq<BodyView<T>>,
    error: SimulationErrorView,
)
    requires
        valid_result(bodies, Err(error)),
    ensures
        !sound(bodies),
{
    let pairs = all_pairs(bodies.len() as int);
    match error {
        SimulationErrorView::MassNotPositive { label } => {
            let i = choose|i: int|
                #[trigger] first_without_mass(bodies, i) && label == bodies[i].label;
            assert(!massive(bodies[i]));
        },
        SimulationErrorView::DuplicateLabel { label } => {
            let k = choose|k: int|
                #[trigger] first_with_one_label(bodies, k) && label == bodies[pairs[k].0].label;
            lemma_all_pairs_in_range(bodies.len() as int, k);
            assert(bodies[pairs[k].0].label == bodies[pairs[k].1].label);
        },
        SimulationErrorView::CoincidentBodies { first, second } => {
            let k = choose|k: int|
                #[trigger] first_not_apart(bodies, k) && first == bodies[pairs[k].0].label && second
                    == bodies[pairs[k].1].label;
            lemma_all_pairs_in_range(bodies.len() as int, k);
            assert(!apart(bodies[pairs[k].0], bodies[pairs[k].1]));
        },
    }
}

impl<T: Real, const N: usize> Simulation<T, N> {
    /// Looks for the faults that make gravity divide by zero or lose a
    /// body: a mass that is not greater than zero, a label that two bodies
    /// share, or two bodies at one place. The first fault found is reported
    /// and nothing is changed.
    pub fn validate(&self) -> (r: Result<(), SimulationError>)
        ensures
            valid_result(
                self@.bodies,
                match r {
                    Ok(()) => Ok(()),
                    Err(error) => Err(error@),
                },
            ),
            r is Ok <==> sound(self@.bodies),
    {
        let ghost views = self@.bodies;
        let ghost pairs_view = all_pairs(views.len() as int);
        let bodies = self.bodies();
        let n = bodies.len();
        let zero = zero::<T>();
        let mut i: usize = 0;
        while i < n
            invariant
                0 <= i <= n,
                n == bodies.len(),
                bodies@.map_values(|b: Body<T, N>| b@) == views,
                views == self@.bodies,
                zero == zero_spec::<T>(),
                forall|j: int| 0 <= j < i ==> massive(#[trigger] views[j]),
            decreases n - i,
        {
            assert(bodies@[i as int]@ == views[i as int]);
            if !bodies[i].mass.gt(zero) {
                let error = SimulationError::MassNotPositive { label: bodies[i].label.clone() };
                proof {
                    assert(first_without_mass(views, i as int));
                    lemma_errors_mean_faults(views, error@);
                }
                return Err(error);
            }
            i += 1;
        }
        let pairs = index_pairs(n);
        proof {
            assert(views.len() == n);
            assert(pairs@.map_values(|p: (usize, usize)| (p.0 as int, p.1 as int)).len()
                == pairs@.len());
        }
        let mut k: usize = 0;
        while k < pairs.len()
            invariant
                0 <= k <= pairs.len(),
                n == bodies.len(),
                bodies@.map_values(|b: Body<T, N>| b@) == views,
                n == views.len(),
                pairs@.len() == pairs_view.len(),
                views == self@.bodies,
                pairs_view == all_pairs(views.len() as int),
                pairs@.map_values(|p: (usize, usize)| (p.0 as int, p.1 as int)) == pairs_view,
                forall|j: int| 0 <= j < n ==> massive(#[trigger] views[j]),
                forall|m: int|
                    0 <= m < k ==> views[(#[trigger] pairs_view[m]).0].label
                        != views[pairs_view[m].1].label,
            decreases pairs.len() - k,
        {
            let (a, b) = pairs[k];
            proof {
                assert(pairs_view[k as int] == (a as int, b as int));
                lemma_all_pairs_in_range(n as int, k as int);
                assert(bodies@[a as int]@ == views[a as int]);
                assert(bodies@[b as int]@ == views[b as int]);
            }
            if bodies[a].label == bodies[b].label {
                let error = SimulationError::DuplicateLabel { label: bodies[a].label.clone() };
                proof {
                    assert(first_with_one_label(views, k as int));
                    lemma_errors_mean_faults(views, error@);
                }
                return Err(error);
            }
            k += 1;
        }
        proof {
            assert(distinct_labels(views)) by {
                lemma_all_pairs(n as int);
                assert forall|a: int, b: int| 0 <= a < b < views.len() implies (
                #[trigger] views[a]).label != (#[trigger] views[b]).label by {
                    assert(pairs_view.contains((a, b)));
                    let m = choose|m: int| 0 <= m < pairs_view.len() && pairs_view[m] == (a, b);
                    assert(views[pairs_view[m].0].label != views[pairs_view[m].1].label);
                }
            }
        }
        let mut k: usize = 0;
        while k < pairs.len()
            invariant
                0 <= k <= pairs.len(),
                n == bodies.len(),
                bodies@.map_values(|b: Body<T, N>| b@) == views,
                n == views.len(),
                pairs@.len() == pairs_view.len(),
                views == self@.bodies,
                zero == zero_spec::<T>(),
                pairs_view == all_pairs(views.len() as int),
                pairs@.map_values(|p: (usize, usize)| (p.0 as int, p.1 as int)) == pairs_view,
                forall|j: int| 0 <= j < n ==> massive(#[trigger] views[j]),
                distinct_labels(views),
                forall|m: int|
                    0 <= m < k ==> apart(
                        views[(#[trigger] pairs_view[m]).0],
                        views[pairs_view[m].1],
                    ),
            decreases pairs.len() - k,
        {
            let (a, b) = pairs[k];
            proof {
                assert(pairs_view[k as int] == (a as int, b as int));
                lemma_all_pairs_in_range(n as int, k as int);
                assert(bodies@[a as int]@ == views[a as int]);
                assert(bodies@[b as int]@ == views[b as int]);
            }
            let distance = bodies[a].position.distance(&bodies[b].position);
            if !distance.gt(zero) {
                let error = SimulationError::CoincidentBodies {
                    first: bodies[a].label.clone(),
                    second: bodies[b].label.clone(),
                };
                proof {
                    assert(first_not_apart(views, k as int));
                    lemma_errors_mean_faults(views, error@);
                }
                return Err(error);
            }
            k += 1;
        }
        proof {
            lemma_all_pairs(n as int);
            assert forall|a: int, b: int| 0 <= a < b < views.len() implies apart(
                #[trigger] views[a],
                #[trigger] views[b],
            ) by {
                assert(pairs_view.contains((a, b)));
                let m = choose|m: int| 0 <= m < pairs_view.len() && pairs_view[m] == (a, b);
                assert(apart(views[pairs_view[m].0], views[pairs_view[m].1]));
            }
        }
        Ok(())
    }
}

} // verus!
