//! A gravitational N-body stepping kernel.
//!
//! Point masses attract each other by Newtonian gravity and are advanced
//! through time in fixed steps. The arithmetic is that of a scalar type
//! chosen by the caller (see [`number::Real`]); the kernel fixes which
//! operations are applied to which operands, and in which order.

pub mod force;
pub mod graphics;
pub mod label_map;
pub mod math;
pub mod number;
pub mod output_adapter;
pub mod simulation;

use crate::simulation::{Body, PositionVector};
use vstd::prelude::*;

verus! {

/// Something that has a mass.
pub trait Massive<T> {
    fn mass(&self) -> T;
}

/// Something that is somewhere.
pub trait Positioned {
    type Output;

    fn position(self) -> Self::Output;
}

impl<T: Copy, const N: usize> Massive<T> for Body<T, N> {
    fn mass(&self) -> (r: T)
        ensures
            r == self.mass,
    {
        self.mass
    }
}

impl<'a, T, const N: usize> Positioned for &'a Body<T, N> {
    type Output = &'a PositionVector<T, N>;

    fn position(self) -> (r: &'a PositionVector<T, N>)
        ensures
            *r == self.position,
    {
        &self.position
    }
}

} // verus!
