//! Numeric building blocks: vectors and matrices over a scalar type, and
//! one- and two-dimensional vectors over any type that has the operators.

pub mod matrix;
pub mod vector;

use core::ops::{Add, Mul, Sub};
use vstd::prelude::*;
use vstd::std_specs::ops::{AddSpec, AddSpecImpl, MulSpec, MulSpecImpl, SubSpec, SubSpecImpl};

verus! {

/// A bare number that stands as a factor of a product with a vector.
#[derive(Copy, Debug, PartialEq)]
pub struct Scalar<T>(pub T);

impl<T: Copy> Clone for Scalar<T> {
    fn clone(&self) -> (r: Self)
        ensures
            r == *self,
    {
        *self
    }
}

/// A vector of one component.
#[derive(Copy, Debug, PartialEq)]
pub struct Vector1<T>(pub T);

impl<T: Copy> Clone for Vector1<T> {
    fn clone(&self) -> (r: Self)
        ensures
            r == *self,
    {
        *self
    }
}

/// A vector of two components.
#[derive(Copy, Debug, PartialEq)]
pub struct Vector2<T>(pub T, pub T);

impl<T: Copy> Clone for Vector2<T> {
    fn clone(&self) -> (r: Self)
        ensures
            r == *self,
    {
        *self
    }
}

impl<T: Add<Output = T> + Copy> AddSpecImpl for Vector1<T> {
    open spec fn obeys_add_spec() -> bool {
        T::obeys_add_spec()
    }

    open spec fn add_req(self, other: Self) -> bool {
        self.0.add_req(other.0)
    }

    open spec fn add_spec(self, other: Self) -> Self {
        Vector1(self.0.add_spec(other.0))
    }
}

impl<T: Add<Output = T> + Copy> Add for Vector1<T> {
    type Output = Self;

    /// The sum of two vectors.
    fn add(self, other: Self) -> Self {
        Self(self.0 + other.0)
    }
}

impl<T: Sub<Output = T> + Copy> SubSpecImpl for Vector1<T> {
    open spec fn obeys_sub_spec() -> bool {
        T::obeys_sub_spec()
    }

    open spec fn sub_req(self, other: Self) -> bool {
        self.0.sub_req(other.0)
    }

    open spec fn sub_spec(self, other: Self) -> Self {
        Vector1(self.0.sub_spec(other.0))
    }
}

impl<T: Sub<Output = T> + Copy> Sub for Vector1<T> {
    type Output = Self;

    /// The difference of two vectors.
    fn sub(self, other: Self) -> Self {
        Self(self.0 - other.0)
    }
}

impl<T: Mul<Output = T> + Copy> MulSpecImpl<Scalar<T>> for Vector1<T> {
    open spec fn obeys_mul_spec() -> bool {
        T::obeys_mul_spec()
    }

    open spec fn mul_req(self, scalar: Scalar<T>) -> bool {
        self.0.mul_req(scalar.0)
    }

    open spec fn mul_spec(self, scalar: Scalar<T>) -> Self {
        Vector1(self.0.mul_spec(scalar.0))
    }
}

impl<T: Mul<Output = T> + Copy> Mul<Scalar<T>> for Vector1<T> {
    type Output = Self;

    /// The vector times a scalar, the vector's component as the left factor.
    fn mul(self, scalar: Scalar<T>) -> Self {
        Self(self.0 * scalar.0)
    }
}

impl<T: Mul<Output = T> + Copy> MulSpecImpl<Vector1<T>> for Scalar<T> {
    open spec fn obeys_mul_spec() -> bool {
        T::obeys_mul_spec()
    }

    open spec fn mul_req(self, vector: Vector1<T>) -> bool {
        self.0.mul_req(vector.0)
    }

    open spec fn mul_spec(self, vector: Vector1<T>) -> Vector1<T> {
        Vector1(self.0.mul_spec(vector.0))
    }
}

impl<T: Mul<Output = T> + Copy> Mul<Vector1<T>> for Scalar<T> {
    type Output = Vector1<T>;

    /// A scalar times a vector, the scalar as the left factor.
    fn mul(self, vector: Vector1<T>) -> Vector1<T> {
        Vector1(self.0 * vector.0)
    }
}

impl<T: Mul<Output = T> + Copy> MulSpecImpl<T> for Vector1<T> {
    open spec fn obeys_mul_spec() -> bool {
        T::obeys_mul_spec()
    }

    open spec fn mul_req(self, scalar: T) -> bool {
        self.0.mul_req(scalar)
    }

    open spec fn mul_spec(self, scalar: T) -> Vector1<T> {
        Vector1(self.0.mul_spec(scalar))
    }
}

impl<T: Mul<Output = T> + Copy> Mul<T> for Vector1<T> {
    type Output = Vector1<T>;

    /// The vector times a bare number, the vector's component as the left
    /// factor.
    fn mul(self, scalar: T) -> Vector1<T> {
        Vector1(self.0 * scalar)
    }
}

impl MulSpecImpl<Vector1<i32>> for i32 {
    open spec fn obeys_mul_spec() -> bool {
        true
    }

    open spec fn mul_req(self, vector: Vector1<i32>) -> bool {
        i32::MIN <= self * vector.0 <= i32::MAX
    }

    open spec fn mul_spec(self, vector: Vector1<i32>) -> Vector1<i32> {
        Vector1((self * vector.0) as i32)
    }
}

impl Mul<Vector1<i32>> for i32 {
    type Output = Vector1<i32>;

    /// An integer times a vector of one integer.
    fn mul(self, vector: Vector1<i32>) -> Vector1<i32> {
        Vector1(self * vector.0)
    }
}

} // verus!
