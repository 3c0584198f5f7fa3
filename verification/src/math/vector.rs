//! Fixed-dimension vectors over a scalar type.
//!
//! A `Vector<T, N>` holds exactly `N` components; the dimension is part of
//! the type, so vectors of different dimension cannot be combined. Its view
//! is the sequence of its components, and every operation is specified by a
//! function on such sequences.

use crate::math::Scalar;
use crate::number::{zero, zero_spec, Real};
use core::ops::{Add, Div, Index, Mul, Sub};
use vstd::prelude::*;
use vstd::std_specs::convert::FromSpecImpl;
use vstd::std_specs::ops::{AddSpecImpl, DivSpecImpl, MulSpecImpl, SubSpecImpl};

verus! {

/// The vector of dimension `n` whose components are all zero.
pub open spec fn zero_vector<T: Real>(n: nat) -> Seq<T> {
    Seq::new(n, |i: int| zero_spec::<T>())
}

/// `a + b`, component by component.
pub open spec fn componentwise_sum<T: Real>(a: Seq<T>, b: Seq<T>) -> Seq<T> {
    Seq::new(a.len(), |i: int| a[i].add_spec(b[i]))
}

/// `a - b`, component by component.
pub open spec fn componentwise_difference<T: Real>(a: Seq<T>, b: Seq<T>) -> Seq<T> {
    Seq::new(a.len(), |i: int| a[i].sub_spec(b[i]))
}

/// `a / b`, component by component.
pub open spec fn componentwise_quotient<T: Real>(a: Seq<T>, b: Seq<T>) -> Seq<T> {
    Seq::new(a.len(), |i: int| a[i].div_spec(b[i]))
}

/// Every component of `a` divided by `k`.
pub open spec fn divided_by<T: Real>(a: Seq<T>, k: T) -> Seq<T> {
    Seq::new(a.len(), |i: int| a[i].div_spec(k))
}

/// `k` times every component of `a`, with `k` as the left factor.
pub open spec fn scaled_by<T: Real>(k: T, a: Seq<T>) -> Seq<T> {
    Seq::new(a.len(), |i: int| k.mul_spec(a[i]))
}

/// The products of the first `n` pairs of components, added up from zero in
/// index order.
pub open spec fn dot_prefix<T: Real>(a: Seq<T>, b: Seq<T>, n: nat) -> T
    decreases n,
{
    if n == 0 {
        zero_spec::<T>()
    } else {
        dot_prefix(a, b, (n - 1) as nat).add_spec(a[n - 1].mul_spec(b[n - 1]))
    }
}

/// The dot product of `a` and `b`.
pub open spec fn dot_product<T: Real>(a: Seq<T>, b: Seq<T>) -> T {
    dot_prefix(a, b, a.len())
}

/// The squares of the first `n` components, added up from zero in index
/// order.
pub open spec fn squares_prefix<T: Real>(a: Seq<T>, n: nat) -> T
    decreases n,
{
    if n == 0 {
        zero_spec::<T>()
    } else {
        squares_prefix(a, (n - 1) as nat).add_spec(a[n - 1].powi_spec(2))
    }
}

/// The Euclidean norm: the square root of the sum of the squared components.
pub open spec fn magnitude_of<T: Real>(a: Seq<T>) -> T {
    squares_prefix(a, a.len()).sqrt_spec()
}

/// `a` with every component divided by the magnitude of `a`.
pub open spec fn normalized<T: Real>(a: Seq<T>) -> Seq<T> {
    divided_by(a, magnitude_of(a))
}

/// The magnitude of `a - b`.
pub open spec fn distance_between<T: Real>(a: Seq<T>, b: Seq<T>) -> T {
    magnitude_of(componentwise_difference(a, b))
}

/// The normalized vector `to - from`: the direction in which `to` lies when
/// seen from `from`.
pub open spec fn direction_between<T: Real>(from: Seq<T>, to: Seq<T>) -> Seq<T> {
    normalized(componentwise_difference(to, from))
}

/// The right-handed cross product of two vectors of dimension three.
pub open spec fn cross_product<T: Real>(a: Seq<T>, b: Seq<T>) -> Seq<T> {
    seq![
        a[1].mul_spec(b[2]).sub_spec(a[2].mul_spec(b[1])),
        a[2].mul_spec(b[0]).sub_spec(a[0].mul_spec(b[2])),
        a[0].mul_spec(b[1]).sub_spec(a[1].mul_spec(b[0])),
    ]
}

/// The unit normal of the plane through three points, right-handed with
/// `v2 - v1` as first and `v3 - v1` as second edge.
pub open spec fn plane_normal<T: Real>(v1: Seq<T>, v2: Seq<T>, v3: Seq<T>) -> Seq<T> {
    normalized(
        cross_product(componentwise_difference(v2, v1), componentwise_difference(v3, v1)),
    )
}

/// The vectors of `items` added up in order, starting from the zero vector
/// of dimension `n`.
pub open spec fn vector_total<T: Real>(items: Seq<Seq<T>>, n: nat) -> Seq<T>
    decreases items.len(),
{
    if items.len() == 0 {
        zero_vector(n)
    } else {
        componentwise_sum(vector_total(items.drop_last(), n), items.last())
    }
}

/// Two sequences whose components have the same squares have the same sum
/// of squares.
proof fn lemma_squares_prefix_agree<T: Real>(a: Seq<T>, b: Seq<T>, n: nat)
    requires
        n <= a.len(),
        n <= b.len(),
        forall|i: int| 0 <= i < n ==> a[i].powi_spec(2) == b[i].powi_spec(2),
    ensures
        squares_prefix(a, n) == squares_prefix(b, n),
    decreases n,
{
    if n > 0 {
        lemma_squares_prefix_agree(a, b, (n - 1) as nat);
    }
}

/// Distance is symmetric: `a` is as far from `b` as `b` is from `a`, in
/// every scalar type in which the square of a difference does not depend
/// on the order of its operands, as it does not in IEEE arithmetic.
pub proof fn lemma_distance_symmetric<T: Real>(a: Seq<T>, b: Seq<T>)
    requires
        a.len() == b.len(),
        forall|i: int|
            0 <= i < a.len() ==> (#[trigger] a[i].sub_spec(b[i])).powi_spec(2) == b[i].sub_spec(
                a[i],
            ).powi_spec(2),
    ensures
        distance_between(a, b) == distance_between(b, a),
{
    lemma_squares_prefix_agree(
        componentwise_difference(a, b),
        componentwise_difference(b, a),
        a.len(),
    );
}

/// A sum of squares that are all zero is zero, where zero added to zero is
/// zero.
proof fn lemma_squares_prefix_zero<T: Real>(a: Seq<T>, n: nat)
    requires
        n <= a.len(),
        forall|i: int| 0 <= i < n ==> a[i].powi_spec(2) == zero_spec::<T>(),
        zero_spec::<T>().add_spec(zero_spec::<T>()) == zero_spec::<T>(),
    ensures
        squares_prefix(a, n) == zero_spec::<T>(),
    decreases n,
{
    if n > 0 {
        lemma_squares_prefix_zero(a, (n - 1) as nat);
    }
}

/// A point is at distance zero from itself, where the scalar type makes
/// the square of each component's difference with itself zero, zero plus
/// zero zero, and the square root of zero zero. IEEE arithmetic does so
/// for finite components.
pub proof fn lemma_distance_to_self<T: Real>(a: Seq<T>)
    requires
        forall|i: int|
            0 <= i < a.len() ==> (#[trigger] a[i].sub_spec(a[i])).powi_spec(2) == zero_spec::<T>(),
        zero_spec::<T>().add_spec(zero_spec::<T>()) == zero_spec::<T>(),
        zero_spec::<T>().sqrt_spec() == zero_spec::<T>(),
    ensures
        distance_between(a, a) == zero_spec::<T>(),
{
    lemma_squares_prefix_zero(componentwise_difference(a, a), a.len());
}

/// A vector of `N` components of type `T`.
#[derive(Copy, Debug, PartialEq)]
pub struct Vector<T, const N: usize>([T; N]);

pub type Vector1<T> = Vector<T, 1>;

pub type Vector2<T> = Vector<T, 2>;

pub type Vector3<T> = Vector<T, 3>;

impl<T, const N: usize> View for Vector<T, N> {
    type V = Seq<T>;

    closed spec fn view(&self) -> Seq<T> {
        self.0@
    }
}

impl<T: Copy, const N: usize> Clone for Vector<T, N> {
    fn clone(&self) -> (r: Self)
        ensures
            r == *self,
    {
        *self
    }
}

impl<T, const N: usize> Vector<T, N> {
    /// A vector always has exactly `N` components.
    pub broadcast proof fn lemma_dimension(self)
        ensures
            #[trigger] self@.len() == N,
    {
    }

    /// Two vectors with the same components are the same vector.
    pub proof fn lemma_equal_by_view(self, other: Self)
        requires
            self@ == other@,
        ensures
            self == other,
    {
        assert(self.0 =~= other.0);
    }
}

impl<T: Real, const N: usize> FromSpecImpl<[T; N]> for Vector<T, N> {
    open spec fn obeys_from_spec() -> bool {
        true
    }

    closed spec fn from_spec(components: [T; N]) -> Self {
        Vector(components)
    }
}

impl<T: Real, const N: usize> From<[T; N]> for Vector<T, N> {
    /// The vector with the given components, in order.
    fn from(components: [T; N]) -> (r: Self)
        ensures
            r@ == components@,
    {
        Vector(components)
    }
}

impl<T: Real, const N: usize> Default for Vector<T, N> {
    /// The zero vector.
    fn default() -> (r: Self)
        ensures
            r@ == zero_vector::<T>(N as nat),
    {
        Vector([zero::<T>();N])
    }
}

impl<T: Real, const N: usize> vstd::std_specs::core::IndexSpecImpl<usize> for Vector<T, N> {
    open spec fn index_req(&self, index: &usize) -> bool {
        *index < N
    }
}

impl<T: Real, const N: usize> Index<usize> for Vector<T, N> {
    type Output = T;

    /// The component at position `i`, counted from zero.
    fn index(&self, i: usize) -> (r: &T)
        ensures
            *r == self@[i as int],
    {
        &self.0[i]
    }
}

impl<T: Real, const N: usize> Vector<T, N> {
    /// Replaces the component at position `i`, counted from zero.
    pub fn set(&mut self, i: usize, value: T)
        requires
            i < N,
        ensures
            final(self)@ == old(self)@.update(i as int, value),
    {
        self.0[i] = value;
    }
}

impl<T: Real> Vector<T, 1> {
    pub fn new(x: T) -> (r: Self)
        ensures
            r@ == seq![x],
    {
        Vector([x])
    }

    pub fn x(&self) -> (r: T)
        ensures
            r == self@[0],
    {
        self.0[0]
    }
}

impl<T: Real> Vector<T, 2> {
    pub fn new(x: T, y: T) -> (r: Self)
        ensures
            r@ == seq![x, y],
    {
        Vector([x, y])
    }

    pub fn x(&self) -> (r: T)
        ensures
            r == self@[0],
    {
        self.0[0]
    }

    pub fn y(&self) -> (r: T)
        ensures
            r == self@[1],
    {
        self.0[1]
    }
}

impl<T: Real> Vector<T, 3> {
    pub fn new(x: T, y: T, z: T) -> (r: Self)
        ensures
            r@ == seq![x, y, z],
    {
        Vector([x, y, z])
    }

    pub fn x(&self) -> (r: T)
        ensures
            r == self@[0],
    {
        self.0[0]
    }

    pub fn y(&self) -> (r: T)
        ensures
            r == self@[1],
    {
        self.0[1]
    }

    pub fn z(&self) -> (r: T)
        ensures
            r == self@[2],
    {
        self.0[2]
    }

    /// The right-handed cross product `self x rhs`.
    pub fn cross(&self, rhs: &Vector<T, 3>) -> (r: Vector<T, 3>)
        ensures
            r@ == cross_product(self@, rhs@),
    {
        let x = self.y().mul(rhs.z()).sub(self.z().mul(rhs.y()));
        let y = self.z().mul(rhs.x()).sub(self.x().mul(rhs.z()));
        let z = self.x().mul(rhs.y()).sub(self.y().mul(rhs.x()));
        Vector::<T, 3>::new(x, y, z)
    }

    /// The normalized vector that is normal to the plane through the three
    /// points. This is a right-handed operation: the first edge is `v2 - v1`
    /// and the second is `v3 - v1`.
    pub fn normal(v1: &Self, v2: &Self, v3: &Self) -> (r: Self)
        ensures
            r@ == plane_normal(v1@, v2@, v3@),
    {
        let u = difference(v2, v1);
        let v = difference(v3, v1);
        let cross = u.cross(&v);
        cross.normalize()
    }
}

/// `a + b`.
pub fn sum<T: Real, const N: usize>(a: &Vector<T, N>, b: &Vector<T, N>) -> (r: Vector<T, N>)
    ensures
        r@ == componentwise_sum(a@, b@),
{
    let mut components = [zero::<T>();N];
    let mut i: usize = 0;
    while i < N
        invariant
            0 <= i <= N,
            forall|k: int| 0 <= k < i ==> components@[k] == a@[k].add_spec(b@[k]),
        decreases N - i,
    {
        components[i] = a.0[i].add(b.0[i]);
        i += 1;
    }
    Vector(components)
}

/// `a - b`.
pub fn difference<T: Real, const N: usize>(a: &Vector<T, N>, b: &Vector<T, N>) -> (r: Vector<
    T,
    N,
>)
    ensures
        r@ == componentwise_difference(a@, b@),
{
    let mut components = [zero::<T>();N];
    let mut i: usize = 0;
    while i < N
        invariant
            0 <= i <= N,
            forall|k: int| 0 <= k < i ==> components@[k] == a@[k].sub_spec(b@[k]),
        decreases N - i,
    {
        components[i] = a.0[i].sub(b.0[i]);
        i += 1;
    }
    Vector(components)
}

/// `a / b`, component by component.
pub fn quotient<T: Real, const N: usize>(a: &Vector<T, N>, b: &Vector<T, N>) -> (r: Vector<T, N>)
    ensures
        r@ == componentwise_quotient(a@, b@),
{
    let mut components = [zero::<T>();N];
    let mut i: usize = 0;
    while i < N
        invariant
            0 <= i <= N,
            forall|k: int| 0 <= k < i ==> components@[k] == a@[k].div_spec(b@[k]),
        decreases N - i,
    {
        components[i] = a.0[i].div(b.0[i]);
        i += 1;
    }
    Vector(components)
}

/// `a / k`.
pub fn divide<T: Real, const N: usize>(a: &Vector<T, N>, k: T) -> (r: Vector<T, N>)
    ensures
        r@ == divided_by(a@, k),
{
    let mut components = [zero::<T>();N];
    let mut i: usize = 0;
    while i < N
        invariant
            0 <= i <= N,
            forall|j: int| 0 <= j < i ==> components@[j] == a@[j].div_spec(k),
        decreases N - i,
    {
        components[i] = a.0[i].div(k);
        i += 1;
    }
    Vector(components)
}

/// `k * a`.
pub fn scale<T: Real, const N: usize>(k: T, a: &Vector<T, N>) -> (r: Vector<T, N>)
    ensures
        r@ == scaled_by(k, a@),
{
    let mut components = [zero::<T>();N];
    let mut i: usize = 0;
    while i < N
        invariant
            0 <= i <= N,
            forall|j: int| 0 <= j < i ==> components@[j] == k.mul_spec(a@[j]),
        decreases N - i,
    {
        components[i] = k.mul(a.0[i]);
        i += 1;
    }
    Vector(components)
}

impl<T: Real, const N: usize> Vector<T, N> {
    /// The dot product of `self` and `rhs`.
    pub fn dot(&self, rhs: &Self) -> (r: T)
        ensures
            r == dot_product(self@, rhs@),
    {
        let mut sum = zero::<T>();
        let mut i: usize = 0;
        while i < N
            invariant
                0 <= i <= N,
                sum == dot_prefix(self@, rhs@, i as nat),
            decreases N - i,
        {
            sum = sum.add(self.0[i].mul(rhs.0[i]));
            i += 1;
        }
        sum
    }

    /// The vectors of `items` added up in order, starting from the zero
    /// vector.
    pub fn sum(items: &Vec<Vector<T, N>>) -> (r: Self)
        ensures
            r@ == vector_total(items@.map_values(|v: Vector<T, N>| v@), N as nat),
    {
        let ghost views = items@.map_values(|v: Vector<T, N>| v@);
        let mut total = Self::default();
        let mut i: usize = 0;
        while i < items.len()
            invariant
                0 <= i <= items.len(),
                views == items@.map_values(|v: Vector<T, N>| v@),
                total@ == vector_total(views.take(i as int), N as nat),
            decreases items.len() - i,
        {
            proof {
                let next = views.take(i + 1);
                assert(next.drop_last() =~= views.take(i as int));
            }
            total = self::sum(&total, &items[i]);
            i += 1;
        }
        assert(views.take(i as int) =~= views);
        total
    }
}

/// Lengths and directions of the points of a space.
pub trait Distance {
    /// What a length is measured in.
    type Scalar;

    /// What a direction is.
    type Output;

    /// How far `other` is from `self`.
    fn distance(&self, other: &Self) -> Self::Scalar;

    /// The unit vector that points from `self` towards `to`.
    fn direction(&self, to: &Self) -> Self::Output;

    /// The vector of magnitude one that points the way `self` does.
    fn normalize(&self) -> Self::Output;

    /// The length of `self`.
    fn magnitude(&self) -> Self::Scalar;
}

impl<T: Real, const N: usize> Distance for Vector<T, N> {
    type Scalar = T;

    type Output = Vector<T, N>;

    fn distance(&self, other: &Self) -> (r: T)
        ensures
            r == distance_between(self@, other@),
    {
        difference(self, other).magnitude()
    }

    fn direction(&self, to: &Self) -> (r: Vector<T, N>)
        ensures
            r@ == direction_between(self@, to@),
    {
        difference(to, self).normalize()
    }

    /// Divides every component by the magnitude. For a vector of magnitude
    /// zero this divides by zero, with whatever the scalar type makes of it.
    fn normalize(&self) -> (r: Vector<T, N>)
        ensures
            r@ == normalized(self@),
    {
        divide(self, self.magnitude())
    }

    fn magnitude(&self) -> (r: T)
        ensures
            r == magnitude_of(self@),
    {
        let mut sum_of_squares = zero::<T>();
        let mut i: usize = 0;
        while i < N
            invariant
                0 <= i <= N,
                sum_of_squares == squares_prefix(self@, i as nat),
            decreases N - i,
        {
            sum_of_squares = sum_of_squares.add(self.0[i].powi(2));
            i += 1;
        }
        sum_of_squares.sqrt()
    }
}

impl<'a, T: Real, const N: usize> SubSpecImpl<&'a Vector<T, N>> for &'a Vector<T, N> {
    open spec fn obeys_sub_spec() -> bool {
        false
    }

    open spec fn sub_req(self, other: &'a Vector<T, N>) -> bool {
        true
    }

    open spec fn sub_spec(self, other: &'a Vector<T, N>) -> Vector<T, N> {
        *self
    }
}

impl<'a, T: Real, const N: usize> Sub<&'a Vector<T, N>> for &'a Vector<T, N> {
    type Output = Vector<T, N>;

    fn sub(self, other: &'a Vector<T, N>) -> (r: Vector<T, N>)
        ensures
            r@ == componentwise_difference(self@, other@),
    {
        difference(self, other)
    }
}

impl<'a, T: Real, const N: usize> DivSpecImpl<&'a Vector<T, N>> for &'a Vector<T, N> {
    open spec fn obeys_div_spec() -> bool {
        false
    }

    open spec fn div_req(self, other: &'a Vector<T, N>) -> bool {
        true
    }

    open spec fn div_spec(self, other: &'a Vector<T, N>) -> Vector<T, N> {
        *self
    }
}

impl<'a, T: Real, const N: usize> Div<&'a Vector<T, N>> for &'a Vector<T, N> {
    type Output = Vector<T, N>;

    fn div(self, other: &'a Vector<T, N>) -> (r: Vector<T, N>)
        ensures
            r@ == componentwise_quotient(self@, other@),
    {
        quotient(self, other)
    }
}

impl<'a, T: Real, const N: usize> DivSpecImpl<T> for &'a Vector<T, N> {
    open spec fn obeys_div_spec() -> bool {
        false
    }

    open spec fn div_req(self, other: T) -> bool {
        true
    }

    open spec fn div_spec(self, other: T) -> Vector<T, N> {
        *self
    }
}

impl<'a, T: Real, const N: usize> Div<T> for &'a Vector<T, N> {
    type Output = Vector<T, N>;

    fn div(self, other: T) -> (r: Vector<T, N>)
        ensures
            r@ == divided_by(self@, other),
    {
        divide(self, other)
    }
}

impl<'a, T: Real, const N: usize> AddSpecImpl<&'a Vector<T, N>> for &'a Vector<T, N> {
    open spec fn obeys_add_spec() -> bool {
        false
    }

    open spec fn add_req(self, other: &'a Vector<T, N>) -> bool {
        true
    }

    open spec fn add_spec(self, other: &'a Vector<T, N>) -> Vector<T, N> {
        *self
    }
}

impl<'a, T: Real, const N: usize> Add<&'a Vector<T, N>> for &'a Vector<T, N> {
    type Output = Vector<T, N>;

    fn add(self, other: &'a Vector<T, N>) -> (r: Vector<T, N>)
        ensures
            r@ == componentwise_sum(self@, other@),
    {
        sum(self, other)
    }
}

impl<'a, T: Real, const N: usize> MulSpecImpl<&'a Vector<T, N>> for Scalar<T> {
    open spec fn obeys_mul_spec() -> bool {
        false
    }

    open spec fn mul_req(self, other: &'a Vector<T, N>) -> bool {
        true
    }

    open spec fn mul_spec(self, other: &'a Vector<T, N>) -> Vector<T, N> {
        *other
    }
}

impl<'a, T: Real, const N: usize> Mul<&'a Vector<T, N>> for Scalar<T> {
    type Output = Vector<T, N>;

    fn mul(self, other: &'a Vector<T, N>) -> (r: Vector<T, N>)
        ensures
            r@ == scaled_by(self.0, other@),
    {
        scale(self.0, other)
    }
}

} // verus!
