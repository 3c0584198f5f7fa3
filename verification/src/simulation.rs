//! Bodies, the simulation that holds them, and the stepper that advances
//! them through time.

pub mod body;
pub mod body_map;
pub mod run;
pub mod step;
pub mod validate;

pub use self::body::{Body, BodyView, PositionVector, SpinCharacteristics, VelocityVector};
pub use self::body_map::{body_map_from_bodies, BodyMap};
pub use self::run::{OwningRun, Run, RunState, RunStep, RunView, StepView};
pub use self::step::compute_next_step;
pub use self::validate::SimulationError;

use crate::number::{zero, zero_spec, Real};
use crate::simulation::body_map::bodies_by_label;
use crate::simulation::run::starts;
use vstd::prelude::*;

verus! {

/// The initial configuration: the bodies and the time domain.
#[derive(Debug)]
pub struct Simulation<T, const N: usize> {
    bodies: Vec<Body<T, N>>,
    t_start: T,
    t_end: Option<T>,
    t_step: T,
}

/// A simulation as the contracts see it.
pub struct SimulationView<T> {
    pub bodies: Seq<BodyView<T>>,
    pub t_start: T,
    /// The time after which no snapshot is emitted; `None` for a run that
    /// never ends by itself.
    pub t_end: Option<T>,
    pub t_step: T,
}

impl<T, const N: usize> View for Simulation<T, N> {
    type V = SimulationView<T>;

    closed spec fn view(&self) -> SimulationView<T> {
        SimulationView {
            bodies: self.bodies@.map_values(|b: Body<T, N>| b@),
            t_start: self.t_start,
            t_end: self.t_end,
            t_step: self.t_step,
        }
    }
}

impl<T: Real, const N: usize> Simulation<T, N> {
    /// A simulation without bodies. Where no start is given the time starts
    /// at zero, and where no step is given the step is 0.1. Without an end
    /// the simulation is open-ended.
    pub fn new(t_start: Option<T>, t_end: Option<T>, t_step: Option<T>) -> (r: Self)
        ensures
            r@ == (SimulationView {
                bodies: Seq::empty(),
                t_start: match t_start {
                    Some(t) => t,
                    None => zero_spec::<T>(),
                },
                t_end,
                t_step: match t_step {
                    Some(t) => t,
                    None => T::decimal_spec(1, -1i32),
                },
            }),
    {
        let r = Self {
            bodies: Vec::new(),
            t_start: match t_start {
                Some(t) => t,
                None => zero::<T>(),
            },
            t_end,
            t_step: match t_step {
                Some(t) => t,
                None => T::from_decimal(1, -1),
            },
        };
        assert(r@.bodies =~= Seq::empty());
        r
    }

    /// Adds a body to the initial population.
    pub fn add_body(&mut self, body: Body<T, N>)
        ensures
            final(self)@ == (SimulationView {
                bodies: old(self)@.bodies.push(body@),
                ..old(self)@
            }),
    {
        self.bodies.push(body);
        assert(self@.bodies =~= old(self)@.bodies.push(body@));
    }

    /// The first snapshot: a fresh copy of each body under its label.
    pub fn create_body_map(&self) -> (r: BodyMap<T, N>)
        ensures
            r@ == bodies_by_label(self@.bodies),
            r.wf(),
    {
        body_map_from_bodies(&self.bodies)
    }

    /// A stepper at the start of this simulation.
    pub fn new_run(&self) -> (r: Run<'_, T, N>)
        ensures
            starts(r@, self@),
    {
        Run::from(self)
    }

    /// The bodies of the initial population, in the order in which they
    /// were added.
    pub fn bodies(&self) -> (r: &Vec<Body<T, N>>)
        ensures
            r@.map_values(|b: Body<T, N>| b@) == self@.bodies,
    {
        &self.bodies
    }

    /// The time of the first snapshot.
    pub fn t_start(&self) -> (r: T)
        ensures
            r == self@.t_start,
    {
        self.t_start
    }

    /// The time after which no snapshot is emitted, if the run is bounded.
    pub fn t_end(&self) -> (r: Option<T>)
        ensures
            r == self@.t_end,
    {
        self.t_end
    }

    /// The time between two snapshots.
    pub fn t_step(&self) -> (r: T)
        ensures
            r == self@.t_step,
    {
        self.t_step
    }
}

} // verus!
