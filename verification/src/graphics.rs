//! What the simulation hands to a renderer.

pub mod model;

use crate::label_map::LabelMap;
use crate::math::vector::{zero_vector, Vector3};
use crate::number::{zero, zero_spec, Real};
use crate::simulation::Body;
use vstd::prelude::*;
use vstd::std_specs::convert::FromSpecImpl;

verus! {

/// What a renderer needs to know of a body to draw it: where it is, how far
/// it has turned, how large it is and how its axis is tilted.
#[derive(Debug)]
pub struct BodyState<T> {
    pub pos: Vector3<T>,
    pub rot: T,
    pub diameter: T,
    pub tilt: T,
}

/// The states of the bodies by their labels.
pub type BodyStateMap<T> = LabelMap<BodyState<T>>;

impl<T: Real> Default for BodyState<T> {
    /// A body of no size at the origin.
    fn default() -> (r: Self)
        ensures
            r.pos@ == zero_vector::<T>(3),
            r.rot == zero_spec::<T>(),
            r.diameter == zero_spec::<T>(),
            r.tilt == zero_spec::<T>(),
    {
        BodyState { pos: Vector3::default(), rot: zero(), diameter: zero(), tilt: zero() }
    }
}

impl<'a, T: Real> FromSpecImpl<&'a Body<T, 3>> for BodyState<T> {
    open spec fn obeys_from_spec() -> bool {
        true
    }

    open spec fn from_spec(body: &'a Body<T, 3>) -> Self {
        BodyState {
            pos: body.position,
            rot: body.spin.angle,
            diameter: body.diameter,
            tilt: body.spin.tilt,
        }
    }
}

impl<'a, T: Real> From<&'a Body<T, 3>> for BodyState<T> {
    /// The state of `body` as a renderer sees it.
    fn from(body: &'a Body<T, 3>) -> (r: Self) {
        BodyState {
            pos: body.position,
            rot: body.spin.angle,
            diameter: body.diameter,
            tilt: body.spin.tilt,
        }
    }
}

} // verus!
