//! The scalar arithmetic that the simulation is written over.
//!
//! The kernel never looks inside a number: it only combines numbers with the
//! operations below. Each operation is paired with a specification function
//! of the same shape, and every contract in this crate is stated over those
//! functions, so a contract says exactly which operations are applied to
//! which operands, and in which order.

use vstd::prelude::*;

verus! {

/// A number type the simulation can compute with, such as an IEEE-754
/// binary floating-point type.
///
/// An implementation makes each executable method a pure function of its
/// operands: the same operands always give the same result. Nothing else is
/// asked of it. In particular no algebraic law (associativity, exact
/// inverses, ...) is assumed anywhere in this crate, since floating-point
/// arithmetic has none of them. No method may panic; division by zero and
/// the square root of a negative number give whatever the type provides
/// for them (an infinity or a NaN for floating point).
pub trait Real: Copy {
    /// The number written `mantissa`e`exponent` in decimal notation, rounded
    /// the way the type rounds a literal.
    spec fn decimal_spec(mantissa: i64, exponent: i32) -> Self;

    /// The ratio of a circle's circumference to its diameter.
    spec fn pi_spec() -> Self;

    /// `self + rhs`.
    spec fn add_spec(self, rhs: Self) -> Self;

    /// `self - rhs`.
    spec fn sub_spec(self, rhs: Self) -> Self;

    /// `self * rhs`.
    spec fn mul_spec(self, rhs: Self) -> Self;

    /// `self / rhs`.
    spec fn div_spec(self, rhs: Self) -> Self;

    /// `-self`.
    spec fn neg_spec(self) -> Self;

    /// `self` raised to the integer power `n`.
    spec fn powi_spec(self, n: i32) -> Self;

    /// The square root of `self`.
    spec fn sqrt_spec(self) -> Self;

    /// The sine of `self`, an angle in radians.
    spec fn sin_spec(self) -> Self;

    /// The cosine of `self`, an angle in radians.
    spec fn cos_spec(self) -> Self;

    /// Whether `self` is strictly greater than `rhs`.
    spec fn gt_spec(self, rhs: Self) -> bool;

    /// `self` written out in the shortest form that the type reads back as
    /// the same number.
    spec fn text_spec(self) -> String;

    /// `self` written out with exactly `places` digits after the decimal
    /// point.
    spec fn fixed_spec(self, places: usize) -> String;

    fn from_decimal(mantissa: i64, exponent: i32) -> (r: Self)
        ensures
            r == Self::decimal_spec(mantissa, exponent),
    ;

    fn pi() -> (r: Self)
        ensures
            r == Self::pi_spec(),
    ;

    fn add(self, rhs: Self) -> (r: Self)
        ensures
            r == self.add_spec(rhs),
    ;

    fn sub(self, rhs: Self) -> (r: Self)
        ensures
            r == self.sub_spec(rhs),
    ;

    fn mul(self, rhs: Self) -> (r: Self)
        ensures
            r == self.mul_spec(rhs),
    ;

    fn div(self, rhs: Self) -> (r: Self)
        ensures
            r == self.div_spec(rhs),
    ;

    fn neg(self) -> (r: Self)
        ensures
            r == self.neg_spec(),
    ;

    fn powi(self, n: i32) -> (r: Self)
        ensures
            r == self.powi_spec(n),
    ;

    fn sqrt(self) -> (r: Self)
        ensures
            r == self.sqrt_spec(),
    ;

    fn sin(self) -> (r: Self)
        ensures
            r == self.sin_spec(),
    ;

    fn cos(self) -> (r: Self)
        ensures
            r == self.cos_spec(),
    ;

    fn gt(self, rhs: Self) -> (r: bool)
        ensures
            r == self.gt_spec(rhs),
    ;

    fn to_text(self) -> (r: String)
        ensures
            r@ == self.text_spec()@,
    ;

    fn to_fixed(self, places: usize) -> (r: String)
        ensures
            r@ == self.fixed_spec(places)@,
    ;
}

/// Zero, as the type writes it.
pub open spec fn zero_spec<T: Real>() -> T {
    T::decimal_spec(0, 0)
}

/// One half, as the type writes it.
pub open spec fn half_spec<T: Real>() -> T {
    T::decimal_spec(5, -1i32)
}

/// Zero.
pub fn zero<T: Real>() -> (r: T)
    ensures
        r == zero_spec::<T>(),
{
    T::from_decimal(0, 0)
}

/// One half.
pub fn half<T: Real>() -> (r: T)
    ensures
        r == half_spec::<T>(),
{
    T::from_decimal(5, -1)
}

} // verus!
