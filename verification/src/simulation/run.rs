//! The stepper: a pull-based process that emits one snapshot of the
//! system for each step of time.
//!
//! A stepper is in one of three states. It has not started while it has
//! emitted nothing; it is running once it has; and it is exhausted once its
//! time is past the end of the simulation. An advance of a stepper that is
//! not exhausted computes the next state of all the bodies from the current
//! one, hands out the current one with the current time, and keeps the new
//! one for the next advance.

use crate::label_map::{entries_map, sorted};
use crate::number::Real;
use crate::simulation::body::BodyView;
use crate::simulation::body_map::{
    bodies_by_label, labels_of, lemma_order_determined, BodyMap,
};
use crate::simulation::step::{compute_next_step, lemma_next_bodies_keep_labels, next_bodies};
use crate::simulation::{Simulation, SimulationView};
use vstd::prelude::*;
use vstd::std_specs::convert::FromSpecImpl;

verus! {

/// One snapshot: the state of every body at the time `t`.
pub struct RunStep<T, const N: usize> {
    pub t: T,
    pub body_map: BodyMap<T, N>,
}

/// A snapshot as the contracts see it: the time and the bodies in the order
/// of their labels.
pub struct StepView<T> {
    pub t: T,
    pub bodies: Seq<BodyView<T>>,
}

impl<T, const N: usize> View for RunStep<T, N> {
    type V = StepView<T>;

    open spec fn view(&self) -> StepView<T> {
        StepView { t: self.t, bodies: self.body_map.bodies() }
    }
}

/// The state of a stepper: the time and the bodies of the snapshot that it
/// emits next, and the time domain of the simulation that it runs.
pub struct RunView<T> {
    /// Whether a snapshot has been emitted yet.
    pub started: bool,
    pub t_current: T,
    pub t_step: T,
    pub t_end: Option<T>,
    pub bodies: Seq<BodyView<T>>,
}

/// Where a stepper stands.
#[derive(Clone, Copy, Debug, PartialEq, Eq)]
pub enum RunState {
    /// No snapshot has been emitted yet, and the first is still to come.
    NotStarted,
    /// Snapshots have been emitted, and more are to come.
    Running,
    /// No snapshot is to come.
    Exhausted,
}

/// Whether `run` is the state in which a stepper over `simulation` starts:
/// at the start time, with the bodies of the simulation in the order of
/// their labels and no force acting on them.
pub open spec fn starts<T>(run: RunView<T>, simulation: SimulationView<T>) -> bool {
    &&& !run.started
    &&& run.t_current == simulation.t_start
    &&& run.t_step == simulation.t_step
    &&& run.t_end == simulation.t_end
    &&& sorted(labels_of(run.bodies))
    &&& entries_map(labels_of(run.bodies), run.bodies) == bodies_by_label(simulation.bodies)
}

/// Whether the stepper has run past the end of its simulation: it has, once
/// the current time is strictly greater than the end time. An open-ended
/// run is never exhausted.
pub open spec fn exhausted<T: Real>(run: RunView<T>) -> bool {
    match run.t_end {
        Some(t_end) => run.t_current.gt_spec(t_end),
        None => false,
    }
}

/// The state of the stepper after it has emitted a snapshot: time has moved
/// on by one step, and so have all the bodies.
pub open spec fn advanced<T: Real>(run: RunView<T>) -> RunView<T> {
    RunView {
        started: true,
        t_current: run.t_current.add_spec(run.t_step),
        bodies: next_bodies(run.bodies, run.t_step),
        ..run
    }
}

/// Where a stepper in the state `run` stands.
pub open spec fn state_of<T: Real>(run: RunView<T>) -> RunState {
    if exhausted(run) {
        RunState::Exhausted
    } else if run.started {
        RunState::Running
    } else {
        RunState::NotStarted
    }
}

/// The snapshot that a stepper in state `run` emits at its `k`-th advance
/// from now, counted from zero; `None` where it is exhausted by then.
pub open spec fn emitted<T: Real>(run: RunView<T>, k: nat) -> Option<StepView<T>>
    decreases k,
{
    if exhausted(run) {
        None
    } else if k == 0 {
        Some(StepView { t: run.t_current, bodies: run.bodies })
    } else {
        emitted(advanced(run), (k - 1) as nat)
    }
}

/// The state of a stepper in state `run` after `k` advances. An exhausted
/// stepper stays as it is.
pub open spec fn state_after<T: Real>(run: RunView<T>, k: nat) -> RunView<T>
    decreases k,
{
    if k == 0 || exhausted(run) {
        run
    } else {
        state_after(advanced(run), (k - 1) as nat)
    }
}

/// What a stepper in state `run` emits at its next advance.
pub open spec fn emitted_next<T: Real>(run: RunView<T>) -> Option<StepView<T>> {
    emitted(run, 0)
}

/// One more advance takes the state after `k` advances one step on, unless
/// the stepper is exhausted by then.
pub proof fn lemma_state_after_one_more<T: Real>(run: RunView<T>, k: nat)
    ensures
        state_after(run, k + 1) == if exhausted(state_after(run, k)) {
            state_after(run, k)
        } else {
            advanced(state_after(run, k))
        },
    decreases k,
{
    if k == 0 {
        assert(state_after(run, 1) == if exhausted(run) {
            run
        } else {
            state_after(advanced(run), 0)
        });
    } else if !exhausted(run) {
        lemma_state_after_one_more(advanced(run), (k - 1) as nat);
        assert(state_after(run, k + 1) == state_after(advanced(run), k));
    }
}

/// The `k`-th snapshot of a run is what the stepper emits next once it
/// has advanced `k` times.
pub proof fn lemma_emitted_from_state<T: Real>(run: RunView<T>, k: nat)
    ensures
        emitted(run, k) == emitted_next(state_after(run, k)),
    decreases k,
{
    if k > 0 && !exhausted(run) {
        lemma_emitted_from_state(advanced(run), (k - 1) as nat);
    }
}

/// Once a stepper is exhausted, further advances leave its state as it is.
pub proof fn lemma_exhausted_state_stays<T: Real>(run: RunView<T>, i: nat, j: nat)
    requires
        i <= j,
        exhausted(state_after(run, i)),
    ensures
        state_after(run, j) == state_after(run, i),
    decreases j - i,
{
    if i < j {
        lemma_exhausted_state_stays(run, i, (j - 1) as nat);
        lemma_state_after_one_more(run, (j - 1) as nat);
    }
}

/// The state in which a stepper starts is determined by the simulation.
pub proof fn lemma_start_is_determined<T>(
    a: RunView<T>,
    b: RunView<T>,
    simulation: SimulationView<T>,
)
    requires
        starts(a, simulation),
        starts(b, simulation),
    ensures
        a == b,
{
    lemma_order_determined(a.bodies, b.bodies);
}

/// Determinism: two steppers that start on the same simulation emit the
/// same sequence of snapshots, whichever of them owns or borrows it.
pub proof fn lemma_runs_agree<T: Real>(
    a: RunView<T>,
    b: RunView<T>,
    simulation: SimulationView<T>,
    k: nat,
)
    requires
        starts(a, simulation),
        starts(b, simulation),
    ensures
        emitted(a, k) == emitted(b, k),
{
    lemma_start_is_determined(a, b, simulation);
}

/// The end time is inclusive. A run whose end time is its current time
/// emits the snapshot of that time and then nothing more, provided that the
/// scalar type does not hold a time to be greater than itself, and that a
/// step leads to a greater time.
pub proof fn lemma_one_snapshot_at_the_end<T: Real>(run: RunView<T>, k: nat)
    requires
        run.t_end == Some(run.t_current),
        !run.t_current.gt_spec(run.t_current),
        run.t_current.add_spec(run.t_step).gt_spec(run.t_current),
    ensures
        emitted(run, 0) == Some(StepView { t: run.t_current, bodies: run.bodies }),
        k >= 1 ==> emitted(run, k) is None,
{
    if k >= 1 {
        assert(exhausted(advanced(run)));
        assert(emitted(run, k) == emitted(advanced(run), (k - 1) as nat));
    }
}

/// The time `t` after `k` steps of length `t_step` have been added to it,
/// one after the other.
pub open spec fn time_after<T: Real>(t: T, t_step: T, k: nat) -> T
    decreases k,
{
    if k == 0 {
        t
    } else {
        time_after(t.add_spec(t_step), t_step, (k - 1) as nat)
    }
}

/// The bodies after `k` steps of length `t_step`.
pub open spec fn bodies_after<T: Real>(bodies: Seq<BodyView<T>>, t_step: T, k: nat) -> Seq<
    BodyView<T>,
>
    decreases k,
{
    if k == 0 {
        bodies
    } else {
        bodies_after(next_bodies(bodies, t_step), t_step, (k - 1) as nat)
    }
}

/// The `k`-th snapshot of a run holds the bodies as they are after `k`
/// steps, at the time that `k` additions of the step lead to.
pub proof fn lemma_snapshot_in_closed_form<T: Real>(run: RunView<T>, k: nat)
    requires
        emitted(run, k) is Some,
    ensures
        emitted(run, k)->0.t == time_after(run.t_current, run.t_step, k),
        emitted(run, k)->0.bodies == bodies_after(run.bodies, run.t_step, k),
    decreases k,
{
    if k > 0 {
        lemma_snapshot_in_closed_form(advanced(run), (k - 1) as nat);
    }
}

/// An exhausted stepper stays exhausted: it emits nothing, now or later.
pub proof fn lemma_exhausted_emits_nothing<T: Real>(run: RunView<T>, k: nat)
    requires
        exhausted(run),
    ensures
        emitted(run, k) is None,
{
}

/// A run without an end time never ends by itself.
pub proof fn lemma_open_ended_run_goes_on<T: Real>(run: RunView<T>, k: nat)
    requires
        run.t_end is None,
    ensures
        emitted(run, k) is Some,
    decreases k,
{
    if k > 0 {
        lemma_open_ended_run_goes_on(advanced(run), (k - 1) as nat);
    }
}

/// Every snapshot of a run holds the same labels in the same order as the
/// state that the run started from.
pub proof fn lemma_snapshots_keep_labels<T: Real>(run: RunView<T>, k: nat)
    requires
        emitted(run, k) is Some,
    ensures
        labels_of(emitted(run, k)->0.bodies) == labels_of(run.bodies),
    decreases k,
{
    if k > 0 {
        lemma_snapshots_keep_labels(advanced(run), (k - 1) as nat);
        lemma_next_bodies_keep_labels(run.bodies, run.t_step);
    }
}

/// Whether a stepper at the time `t_current` has run past `t_end`.
fn past_end<T: Real>(t_end: Option<T>, t_current: T) -> (r: bool)
    ensures
        r == match t_end {
            Some(t_end) => t_current.gt_spec(t_end),
            None => false,
        },
{
    match t_end {
        Some(t_end) => t_current.gt(t_end),
        None => false,
    }
}

/// Advances a stepper: unless it is exhausted, computes the next state of
/// all the bodies from the current one, hands out the current one and
/// keeps the new one.
fn advance<T: Real, const N: usize>(
    t_end: Option<T>,
    t_step: T,
    started: &mut bool,
    t_current: &mut T,
    body_map: &mut BodyMap<T, N>,
) -> (r: Option<RunStep<T, N>>)
    ensures
        ({
            let before = RunView {
                started: *old(started),
                t_current: *old(t_current),
                t_step,
                t_end,
                bodies: old(body_map).bodies(),
            };
            let after = RunView {
                started: *final(started),
                t_current: *final(t_current),
                t_step,
                t_end,
                bodies: final(body_map).bodies(),
            };
            &&& exhausted(before) ==> r is None && after == before
            &&& !exhausted(before) ==> after == advanced(before) && r is Some && r->0@ == (
            StepView { t: before.t_current, bodies: before.bodies })
        }),
        final(body_map).wf(),
{
    if past_end(t_end, *t_current) {
        proof {
            use_type_invariant(&*body_map);
        }
        return None;
    }
    let mut next_body_map = compute_next_step(body_map, t_step);
    let t = *t_current;
    *started = true;
    *t_current = t_current.add(t_step);
    core::mem::swap(body_map, &mut next_body_map);
    Some(RunStep { t, body_map: next_body_map })
}

/// A stepper that borrows its simulation, so that several runs can be made
/// over one configuration.
pub struct Run<'a, T, const N: usize> {
    simulation: &'a Simulation<T, N>,
    started: bool,
    t_current: T,
    body_map: BodyMap<T, N>,
}

impl<'a, T, const N: usize> View for Run<'a, T, N> {
    type V = RunView<T>;

    closed spec fn view(&self) -> RunView<T> {
        RunView {
            started: self.started,
            t_current: self.t_current,
            t_step: self.simulation@.t_step,
            t_end: self.simulation@.t_end,
            bodies: self.body_map.bodies(),
        }
    }
}

impl<'a, T: Real, const N: usize> FromSpecImpl<&'a Simulation<T, N>> for Run<'a, T, N> {
    open spec fn obeys_from_spec() -> bool {
        false
    }

    open spec fn from_spec(simulation: &'a Simulation<T, N>) -> Self {
        arbitrary()
    }
}

impl<'a, T: Real, const N: usize> From<&'a Simulation<T, N>> for Run<'a, T, N> {
    /// A stepper at the start of `simulation`.
    fn from(simulation: &'a Simulation<T, N>) -> (r: Self)
        ensures
            starts(r@, simulation@),
    {
        let body_map = simulation.create_body_map();
        proof {
            body_map.lemma_wf();
        }
        Self { simulation, started: false, t_current: simulation.t_start(), body_map }
    }
}

impl<'a, T: Real, const N: usize> Run<'a, T, N> {
    /// The next snapshot, or `None` once the run is exhausted. The snapshot
    /// is that of the current time, before the step.
    pub fn next(&mut self) -> (r: Option<RunStep<T, N>>)
        ensures
            exhausted(old(self)@) ==> r is None && final(self)@ == old(self)@,
            !exhausted(old(self)@) ==> final(self)@ == advanced(old(self)@) && r is Some && r->0@
                == (StepView { t: old(self)@.t_current, bodies: old(self)@.bodies }),
    {
        advance(
            self.simulation.t_end(),
            self.simulation.t_step(),
            &mut self.started,
            &mut self.t_current,
            &mut self.body_map,
        )
    }

    /// The next snapshots, `count` of them or as many as are left.
    pub fn take(&mut self, count: usize) -> (steps: Vec<RunStep<T, N>>)
        ensures
            steps@.len() <= count,
            forall|k: int|
                0 <= k < steps@.len() ==> emitted(old(self)@, k as nat) == Some(
                    (#[trigger] steps@[k])@,
                ),
            steps@.len() < count ==> emitted(old(self)@, steps@.len()) is None,
            final(self)@ == state_after(old(self)@, count as nat),
    {
        let ghost start = self@;
        let mut steps: Vec<RunStep<T, N>> = Vec::new();
        let mut i: usize = 0;
        while i < count
            invariant
                i <= count,
                steps@.len() == i,
                start == old(self)@,
                self@ == state_after(start, i as nat),
                forall|k: int|
                    0 <= k < i ==> emitted(start, k as nat) == Some((#[trigger] steps@[k])@),
            decreases count - i,
        {
            proof {
                lemma_emitted_from_state(start, i as nat);
                lemma_state_after_one_more(start, i as nat);
            }
            match self.next() {
                Some(step) => {
                    steps.push(step);
                },
                None => {
                    proof {
                        lemma_exhausted_state_stays(start, i as nat, count as nat);
                    }
                    return steps;
                },
            }
            i += 1;
        }
        steps
    }

    /// Where the stepper stands.
    pub fn state(&self) -> (r: RunState)
        ensures
            r == state_of(self@),
    {
        if past_end(self.simulation.t_end(), self.t_current) {
            RunState::Exhausted
        } else if self.started {
            RunState::Running
        } else {
            RunState::NotStarted
        }
    }
}

/// A stepper that owns its simulation.
pub struct OwningRun<T, const N: usize> {
    simulation: Simulation<T, N>,
    started: bool,
    t_current: T,
    body_map: BodyMap<T, N>,
}

impl<T, const N: usize> View for OwningRun<T, N> {
    type V = RunView<T>;

    closed spec fn view(&self) -> RunView<T> {
        RunView {
            started: self.started,
            t_current: self.t_current,
            t_step: self.simulation@.t_step,
            t_end: self.simulation@.t_end,
            bodies: self.body_map.bodies(),
        }
    }
}

impl<T: Real, const N: usize> FromSpecImpl<Simulation<T, N>> for OwningRun<T, N> {
    open spec fn obeys_from_spec() -> bool {
        false
    }

    open spec fn from_spec(simulation: Simulation<T, N>) -> Self {
        arbitrary()
    }
}

impl<T: Real, const N: usize> From<Simulation<T, N>> for OwningRun<T, N> {
    /// A stepper at the start of `simulation`.
    fn from(simulation: Simulation<T, N>) -> (r: Self)
        ensures
            starts(r@, simulation@),
    {
        let t_current = simulation.t_start();
        let body_map = simulation.create_body_map();
        proof {
            body_map.lemma_wf();
        }
        Self { simulation, started: false, t_current, body_map }
    }
}

impl<T: Real, const N: usize> OwningRun<T, N> {
    /// The next snapshot, or `None` once the run is exhausted. The snapshot
    /// is that of the current time, before the step.
    pub fn next(&mut self) -> (r: Option<RunStep<T, N>>)
        ensures
            exhausted(old(self)@) ==> r is None && final(self)@ == old(self)@,
            !exhausted(old(self)@) ==> final(self)@ == advanced(old(self)@) && r is Some && r->0@
                == (StepView { t: old(self)@.t_current, bodies: old(self)@.bodies }),
    {
        advance(
            self.simulation.t_end(),
            self.simulation.t_step(),
            &mut self.started,
            &mut self.t_current,
            &mut self.body_map,
        )
    }

    /// The next snapshots, `count` of them or as many as are left.
    pub fn take(&mut self, count: usize) -> (steps: Vec<RunStep<T, N>>)
        ensures
            steps@.len() <= count,
            forall|k: int|
                0 <= k < steps@.len() ==> emitted(old(self)@, k as nat) == Some(
                    (#[trigger] steps@[k])@,
                ),
            steps@.len() < count ==> emitted(old(self)@, steps@.len()) is None,
            final(self)@ == state_after(old(self)@, count as nat),
    {
        let ghost start = self@;
        let mut steps: Vec<RunStep<T, N>> = Vec::new();
        let mut i: usize = 0;
        while i < count
            invariant
                i <= count,
                steps@.len() == i,
                start == old(self)@,
                self@ == state_after(start, i as nat),
                forall|k: int|
                    0 <= k < i ==> emitted(start, k as nat) == Some((#[trigger] steps@[k])@),
            decreases count - i,
        {
            proof {
                lemma_emitted_from_state(start, i as nat);
                lemma_state_after_one_more(start, i as nat);
            }
            match self.next() {
                Some(step) => {
                    steps.push(step);
                },
                None => {
                    proof {
                        lemma_exhausted_state_stays(start, i as nat, count as nat);
                    }
                    return steps;
                },
            }
            i += 1;
        }
        steps
    }

    /// Where the stepper stands.
    pub fn state(&self) -> (r: RunState)
        ensures
            r == state_of(self@),
    {
        if past_end(self.simulation.t_end(), self.t_current) {
            RunState::Exhausted
        } else if self.started {
            RunState::Running
        } else {
            RunState::NotStarted
        }
    }
}

} // verus!
