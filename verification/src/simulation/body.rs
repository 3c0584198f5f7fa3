//! Bodies and the step that moves a body under the forces acting on it.

use crate::force::{ForceVector, ForceVectorView};
use crate::math::vector::{
    componentwise_sum, magnitude_of, normalized, scale, scaled_by, sum, vector_total, Distance,
    Vector,
};
use crate::number::{half, half_spec, zero, zero_spec, Real};
use vstd::prelude::*;

verus! {

pub type PositionVector<T, const N: usize> = Vector<T, N>;

pub type VelocityVector<T, const N: usize> = Vector<T, N>;

/// How a body turns about its own axis. Spin is carried along for display
/// and plays no part in gravity.
#[derive(Copy, Debug)]
pub struct SpinCharacteristics<T> {
    pub tilt: T,
    pub velocity: T,
    pub angle: T,
}

impl<T: Copy> Clone for SpinCharacteristics<T> {
    fn clone(&self) -> (r: Self)
        ensures
            r == *self,
    {
        *self
    }
}

impl<T: Real> Default for SpinCharacteristics<T> {
    /// No tilt, no rotation, angle zero.
    fn default() -> (r: Self)
        ensures
            r == (SpinCharacteristics {
                tilt: zero_spec::<T>(),
                velocity: zero_spec::<T>(),
                angle: zero_spec::<T>(),
            }),
    {
        SpinCharacteristics {
            tilt: zero(),
            velocity: zero(),
            angle: zero(),
        }
    }
}

/// A point mass.
#[derive(Debug)]
pub struct Body<T, const N: usize> {
    pub label: String,
    pub mass: T,
    pub diameter: T,
    pub position: PositionVector<T, N>,
    pub velocity: VelocityVector<T, N>,
    pub spin: SpinCharacteristics<T>,
    /// The forces that act on the body during the current step.
    pub forces: Vec<ForceVector<T, N>>,
}

/// A body as the contracts see it.
pub struct BodyView<T> {
    pub label: Seq<char>,
    pub mass: T,
    pub diameter: T,
    pub position: Seq<T>,
    pub velocity: Seq<T>,
    pub spin: SpinCharacteristics<T>,
    pub forces: Seq<ForceVectorView<T>>,
}

impl<T, const N: usize> View for Body<T, N> {
    type V = BodyView<T>;

    open spec fn view(&self) -> BodyView<T> {
        BodyView {
            label: self.label@,
            mass: self.mass,
            diameter: self.diameter,
            position: self.position@,
            velocity: self.velocity@,
            spin: self.spin,
            forces: self.forces@.map_values(|f: ForceVector<T, N>| f@),
        }
    }
}

impl<T, const N: usize> DeepView for Body<T, N> {
    type V = BodyView<T>;

    open spec fn deep_view(&self) -> BodyView<T> {
        self@
    }
}

impl<T> BodyView<T> {
    /// The same body with no force acting on it.
    pub open spec fn at_rest(self) -> BodyView<T> {
        BodyView { forces: Seq::empty(), ..self }
    }

    /// The same body under the given forces.
    pub open spec fn under(self, forces: Seq<ForceVectorView<T>>) -> BodyView<T> {
        BodyView { forces, ..self }
    }
}

/// The sum of the forces, added in order to the zero vector of dimension
/// `n`.
pub open spec fn net_force<T: Real>(forces: Seq<ForceVectorView<T>>, n: nat) -> Seq<T> {
    vector_total(forces.map_values(|f: ForceVectorView<T>| f.v), n)
}

/// The acceleration of a body under the forces that act on it: the
/// magnitude of the net force over the mass, along the direction of the net
/// force.
pub open spec fn acceleration_of<T: Real>(body: BodyView<T>) -> Seq<T> {
    let net = net_force(body.forces, body.position.len());
    scaled_by(magnitude_of(net).div_spec(body.mass), normalized(net))
}

/// How far a body moves in one step of length `t_step`:
/// `velocity * t_step + 0.5 * acceleration * t_step^2`.
pub open spec fn displacement_of<T: Real>(body: BodyView<T>, t_step: T) -> Seq<T> {
    componentwise_sum(
        scaled_by(t_step, body.velocity),
        scaled_by(half_spec::<T>().mul_spec(t_step.powi_spec(2)), acceleration_of(body)),
    )
}

/// The body after its forces have moved it for one step of length `t_step`.
pub open spec fn after_forces<T: Real>(body: BodyView<T>, t_step: T) -> BodyView<T> {
    BodyView {
        position: componentwise_sum(body.position, displacement_of(body, t_step)),
        velocity: componentwise_sum(body.velocity, scaled_by(t_step, acceleration_of(body))),
        ..body
    }
}

/// The body after it has turned for one step of length `t_step`.
pub open spec fn after_spin<T: Real>(body: BodyView<T>, t_step: T) -> BodyView<T> {
    BodyView {
        spin: SpinCharacteristics {
            angle: body.spin.angle.add_spec(t_step.mul_spec(body.spin.velocity)),
            ..body.spin
        },
        ..body
    }
}

impl<T: Real, const N: usize> Body<T, N> {
    /// A body on which no force acts yet.
    pub fn new(
        label: String,
        mass: T,
        diameter: T,
        position: PositionVector<T, N>,
        velocity: VelocityVector<T, N>,
        spin: SpinCharacteristics<T>,
    ) -> (r: Self)
        ensures
            r@ == (BodyView {
                label: label@,
                mass,
                diameter,
                position: position@,
                velocity: velocity@,
                spin,
                forces: Seq::empty(),
            }),
    {
        let r = Self { label, mass, diameter, position, velocity, spin, forces: Vec::new() };
        assert(r@.forces =~= Seq::empty());
        r
    }

    /// The sum of the forces that act on the body.
    pub fn net_force(&self) -> (r: Vector<T, N>)
        ensures
            r@ == net_force(self@.forces, N as nat),
    {
        let ghost vectors = self@.forces.map_values(|f: ForceVectorView<T>| f.v);
        let mut total = Vector::<T, N>::default();
        let mut i: usize = 0;
        while i < self.forces.len()
            invariant
                0 <= i <= self.forces.len(),
                vectors == self@.forces.map_values(|f: ForceVectorView<T>| f.v),
                total@ == vector_total(vectors.take(i as int), N as nat),
            decreases self.forces.len() - i,
        {
            proof {
                let next = vectors.take(i + 1);
                assert(next.drop_last() =~= vectors.take(i as int));
            }
            total = sum(&total, &self.forces[i].v);
            i += 1;
        }
        assert(vectors.take(i as int) =~= vectors);
        total
    }

    /// Moves the body for one step of length `t_step` under the forces that
    /// act on it: the net force gives a constant acceleration, from which
    /// the new position and the new velocity follow.
    pub fn apply_forces(&mut self, t_step: T)
        ensures
            final(self)@ == after_forces(old(self)@, t_step),
    {
        proof {
            self.position.lemma_dimension();
        }
        let net_force = self.net_force();
        let acceleration = net_force.magnitude().div(self.mass);
        let acceleration_vector = scale(acceleration, &net_force.normalize());
        let displacement = sum(
            &scale(t_step, &self.velocity),
            &scale(half::<T>().mul(t_step.powi(2)), &acceleration_vector),
        );
        self.position = sum(&self.position, &displacement);
        self.velocity = sum(&self.velocity, &scale(t_step, &acceleration_vector));
    }

    /// Turns the body for one step of length `t_step`.
    pub fn apply_spin(&mut self, t_step: T)
        ensures
            final(self)@ == after_spin(old(self)@, t_step),
    {
        self.spin.angle = self.spin.angle.add(t_step.mul(self.spin.velocity));
    }
}

} // verus!
