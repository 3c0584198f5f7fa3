//! One step of the whole system.

use crate::force::mutual::{
    distinct_labels, forces_from_others, lemma_forces_with_distinct_labels,
};
use crate::force::{gravitational_constant, Gravity};
use crate::label_map::lemma_sorted_unique;
use crate::number::Real;
use crate::simulation::body::{after_forces, after_spin, Body, BodyView};
use crate::simulation::body_map::{labels_of, BodyMap};
use vstd::prelude::*;

verus! {

/// Body `k` one step of length `t_step` later: it has moved under the pull
/// of all the other bodies, taken at their positions before the step, and
/// has turned.
pub open spec fn next_body<T: Real>(bodies: Seq<BodyView<T>>, k: int, t_step: T) -> BodyView<T> {
    after_spin(
        after_forces(
            bodies[k].under(forces_from_others(gravitational_constant::<T>(), bodies, k)),
            t_step,
        ),
        t_step,
    )
}

/// All the bodies one step of length `t_step` later. Every body is moved by
/// the forces of the state before the step; none feels a body that has
/// already moved.
pub open spec fn next_bodies<T: Real>(bodies: Seq<BodyView<T>>, t_step: T) -> Seq<BodyView<T>> {
    Seq::new(bodies.len(), |k: int| next_body(bodies, k, t_step))
}

/// A step keeps the labels of the bodies, in their order.
pub proof fn lemma_next_bodies_keep_labels<T: Real>(bodies: Seq<BodyView<T>>, t_step: T)
    ensures
        labels_of(next_bodies(bodies, t_step)) == labels_of(bodies),
{
    assert(labels_of(next_bodies(bodies, t_step)) =~= labels_of(bodies));
}

/// The forces on a body do not outlast a step: the next state does not
/// depend on the forces of the current state, and every body of the next
/// state is under one force from each of the others and no more.
pub proof fn lemma_forces_are_replaced<T: Real>(bodies: Seq<BodyView<T>>, t_step: T)
    ensures
        next_bodies(bodies, t_step) == next_bodies(
            bodies.map_values(|b: BodyView<T>| b.at_rest()),
            t_step,
        ),
        forall|k: int|
            0 <= k < bodies.len() ==> (#[trigger] next_bodies(bodies, t_step)[k]).forces
                == forces_from_others(gravitational_constant::<T>(), bodies, k),
        forall|k: int|
            0 <= k < bodies.len() ==> (#[trigger] next_bodies(bodies, t_step)[k]).forces.len()
                == bodies.len() - 1,
{
    let rested = bodies.map_values(|b: BodyView<T>| b.at_rest());
    let g = gravitational_constant::<T>();
    assert forall|k: int| 0 <= k < bodies.len() implies next_body(bodies, k, t_step) == next_body(
        rested,
        k,
        t_step,
    ) by {
        assert(forces_from_others(g, bodies, k) =~= forces_from_others(g, rested, k));
    }
    assert(next_bodies(bodies, t_step) =~= next_bodies(rested, t_step));
}

/// The state of the system one step of length `t_step` after `body_map`.
pub fn compute_next_step<T: Real, const N: usize>(body_map: &BodyMap<T, N>, t_step: T) -> (r:
    BodyMap<T, N>)
    ensures
        r.bodies() == next_bodies(body_map.bodies(), t_step),
        r.wf(),
{
    let g = Gravity::new(None);
    let mut new_body_map = BodyMap::new();
    let bodies = body_map.values();
    let ghost views = body_map.bodies();
    let ghost labels = body_map.labels();
    let ghost n = views.len();
    let ghost constant = gravitational_constant::<T>();
    proof {
        body_map.lemma_wf();
        assert(distinct_labels(views)) by {
            assert forall|a: int, b: int| 0 <= a < b < views.len() implies (
            #[trigger] views[a]).label != (#[trigger] views[b]).label by {
                assert(labels[a] != labels[b]);
            }
        }
    }
    let mut force_map = g.forces_from_bodies(&bodies);
    proof {
        assert forall|k: int| 0 <= k < n implies {
            &&& n >= 2 ==> force_map.deep_view().dom().contains(#[trigger] views[k].label)
                && force_map.deep_view()[views[k].label] == forces_from_others(constant, views, k)
            &&& n < 2 ==> !force_map.deep_view().dom().contains(views[k].label)
        } by {
            lemma_forces_with_distinct_labels(constant, views, k);
        }
        assert(labels.take(0) =~= Seq::<Seq<char>>::empty());
    }
    let mut i: usize = 0;
    while i < bodies.len()
        invariant
            0 <= i <= bodies.len(),
            n == bodies.len(),
            views == body_map.bodies(),
            labels == labels_of(views),
            bodies@.map_values(|b: &Body<T, N>| b@) == views,
            distinct_labels(views),
            constant == gravitational_constant::<T>(),
            force_map.wf(),
            forall|k: int|
                i <= k < n ==> {
                    &&& n >= 2 ==> force_map.deep_view().dom().contains(#[trigger] views[k].label)
                        && force_map.deep_view()[views[k].label] == forces_from_others(
                        constant,
                        views,
                        k,
                    )
                    &&& n < 2 ==> !force_map.deep_view().dom().contains(views[k].label)
                },
            new_body_map.wf(),
            forall|label: Seq<char>|
                new_body_map@.dom().contains(label) <==> labels.take(i as int).contains(label),
            forall|k: int|
                0 <= k < i ==> new_body_map@[(#[trigger] views[k]).label] == next_body(
                    views,
                    k,
                    t_step,
                ),
        decreases bodies.len() - i,
    {
        let body: &Body<T, N> = bodies[i];
        assert(body@ == views[i as int]);
        let ghost before = force_map.deep_view();
        let forces = match force_map.remove(body.label.as_str()) {
            Some(forces) => forces,
            None => Vec::new(),
        };
        proof {
            lemma_forces_with_distinct_labels(constant, views, i as int);
            assert(forces.deep_view() =~= forces_from_others(constant, views, i as int));
            assert forall|k: int| i + 1 <= k < n implies {
                &&& n >= 2 ==> force_map.deep_view().dom().contains(#[trigger] views[k].label)
                    && force_map.deep_view()[views[k].label] == forces_from_others(
                    constant,
                    views,
                    k,
                )
                &&& n < 2 ==> !force_map.deep_view().dom().contains(views[k].label)
            } by {
                assert(views[i as int].label != views[k].label);
                assert(before.dom().contains(views[k].label) ==> force_map@.dom().contains(
                    views[k].label,
                ));
            }
        }
        let mut new_body = Body {
            label: body.label.clone(),
            mass: body.mass,
            diameter: body.diameter,
            position: body.position,
            velocity: body.velocity,
            spin: body.spin,
            forces,
        };
        proof {
            assert(new_body@.forces =~= forces_from_others(constant, views, i as int));
            assert(new_body@ == views[i as int].under(
                forces_from_others(constant, views, i as int),
            ));
        }
        new_body.apply_forces(t_step);
        new_body.apply_spin(t_step);
        assert(new_body@ == next_body(views, i as int, t_step));
        let ghost map_before = new_body_map@;
        new_body_map.insert(new_body);
        proof {
            let done = labels.take(i as int);
            let next = labels.take(i + 1);
            assert(next =~= done.push(labels[i as int]));
            assert forall|label: Seq<char>|
                new_body_map@.dom().contains(label) <==> next.contains(label) by {
                if done.contains(label) {
                    let p = choose|p: int| 0 <= p < done.len() && done[p] == label;
                    assert(next[p] == label);
                }
                if label == labels[i as int] {
                    assert(next[i as int] == label);
                }
                if next.contains(label) {
                    let p = choose|p: int| 0 <= p < next.len() && next[p] == label;
                    if p < i {
                        assert(done[p] == label);
                    }
                }
            }
            assert forall|k: int| 0 <= k < i + 1 implies new_body_map@[(#[trigger] views[k]).label]
                == next_body(views, k, t_step) by {
                if k < i {
                    assert(views[k].label != views[i as int].label);
                    assert(map_before[views[k].label] == next_body(views, k, t_step));
                }
            }
        }
        i += 1;
    }
    proof {
        new_body_map.lemma_wf();
        assert(labels.take(i as int) =~= labels);
        lemma_sorted_unique(new_body_map.labels(), labels);
        assert(new_body_map.bodies() =~= next_bodies(views, t_step)) by {
            assert forall|k: int| 0 <= k < n implies new_body_map.bodies()[k] == next_body(
                views,
                k,
                t_step,
            ) by {
                assert(new_body_map@[new_body_map.labels()[k]] == new_body_map.bodies()[k]);
                assert(new_body_map.labels()[k] == views[k].label);
            }
        }
    }
    new_body_map
}

} // verus!
