//! Four-by-four matrices, stored row by row.

use crate::number::{zero, zero_spec, Real};
use core::ops::{Index, Mul};
use vstd::prelude::*;
use vstd::std_specs::convert::FromSpecImpl;
use vstd::std_specs::ops::MulSpecImpl;

verus! {

/// The entry in row `i` and column `j` of the product of two matrices: the
/// four products of the row of `a` with the column of `b`, added from left
/// to right.
pub open spec fn product_entry<T: Real>(a: Seq<T>, b: Seq<T>, i: int, j: int) -> T {
    a[4 * i].mul_spec(b[j]).add_spec(a[4 * i + 1].mul_spec(b[4 + j])).add_spec(
        a[4 * i + 2].mul_spec(b[8 + j]),
    ).add_spec(a[4 * i + 3].mul_spec(b[12 + j]))
}

/// The product of two matrices, row by row.
pub open spec fn matrix_product<T: Real>(a: Seq<T>, b: Seq<T>) -> Seq<T> {
    Seq::new(16, |k: int| product_entry(a, b, k / 4, k % 4))
}

/// The entries of the identity matrix, row by row.
pub open spec fn identity_entries<T: Real>() -> Seq<T> {
    Seq::new(
        16,
        |k: int|
            if k / 4 == k % 4 {
                T::decimal_spec(1, 0)
            } else {
                zero_spec::<T>()
            },
    )
}

/// A matrix of four rows and four columns. Its view is the sequence of its
/// sixteen entries, row by row.
#[derive(Debug, PartialEq)]
pub struct Matrix4<T>([T; 16]);

impl<T> View for Matrix4<T> {
    type V = Seq<T>;

    closed spec fn view(&self) -> Seq<T> {
        self.0@
    }
}

impl<T: Real> Matrix4<T> {
    /// A matrix always has sixteen entries.
    pub broadcast proof fn lemma_len(self)
        ensures
            #[trigger] self@.len() == 16,
    {
    }

    /// The matrix whose entries are all zero.
    pub fn zero() -> (r: Self)
        ensures
            r@ == Seq::new(16, |k: int| zero_spec::<T>()),
    {
        Self::from_array([zero::<T>();16])
    }

    /// The matrix with ones on the diagonal and zeros elsewhere.
    pub fn identity() -> (r: Self)
        ensures
            r@ == identity_entries::<T>(),
    {
        let o = zero::<T>();
        let i = T::from_decimal(1, 0);
        Self::from_array([i, o, o, o, o, i, o, o, o, o, i, o, o, o, o, i])
    }

    /// The matrix with the given entries, row by row.
    pub fn from_array(array: [T; 16]) -> (r: Self)
        ensures
            r@ == array@,
    {
        Self(array)
    }

    /// The matrix whose entries are all zero.
    pub fn new() -> (r: Self)
        ensures
            r@ == Seq::new(16, |k: int| zero_spec::<T>()),
    {
        Self::default()
    }

    /// The entry in row `row` and column `column`.
    pub fn get(&self, row: usize, column: usize) -> (r: T)
        requires
            row < 4,
            column < 4,
        ensures
            r == self@[4 * row + column],
    {
        self.0[4 * row + column]
    }

    /// Puts `value` in row `row` and column `column`.
    pub fn set(&mut self, row: usize, column: usize, value: T)
        requires
            row < 4,
            column < 4,
        ensures
            final(self)@ == old(self)@.update(4 * row + column, value),
    {
        self.0[4 * row + column] = value;
    }
}

impl<T: Real> FromSpecImpl<[T; 16]> for Matrix4<T> {
    open spec fn obeys_from_spec() -> bool {
        true
    }

    closed spec fn from_spec(components: [T; 16]) -> Self {
        Matrix4(components)
    }
}

impl<T: Real> From<[T; 16]> for Matrix4<T> {
    fn from(components: [T; 16]) -> (r: Self)
        ensures
            r@ == components@,
    {
        Matrix4(components)
    }
}

impl<T: Real> Default for Matrix4<T> {
    fn default() -> (r: Self)
        ensures
            r@ == Seq::new(16, |k: int| zero_spec::<T>()),
    {
        Self::zero()
    }
}

impl<T: Real> vstd::std_specs::core::IndexSpecImpl<usize> for Matrix4<T> {
    open spec fn index_req(&self, index: &usize) -> bool {
        *index < 4
    }
}

impl<T: Real> Index<usize> for Matrix4<T> {
    type Output = [T];

    /// Row `i` of the matrix.
    fn index(&self, i: usize) -> (r: &[T])
        ensures
            r@ == self@.subrange(4 * i, 4 * i + 4),
    {
        vstd::slice::slice_subrange(self.0.as_slice(), i * 4, (i + 1) * 4)
    }
}

impl<T: Real> MulSpecImpl for Matrix4<T> {
    open spec fn obeys_mul_spec() -> bool {
        false
    }

    open spec fn mul_req(self, rhs: Self) -> bool {
        true
    }

    open spec fn mul_spec(self, rhs: Self) -> Self {
        self
    }
}

impl<T: Real> Mul for Matrix4<T> {
    type Output = Self;

    /// The matrix product `self * rhs`.
    fn mul(self, rhs: Self) -> (r: Self)
        ensures
            r@ == matrix_product(self@, rhs@),
    {
        let mut entries = [zero::<T>();16];
        let mut i: usize = 0;
        while i < 4
            invariant
                0 <= i <= 4,
                forall|k: int| 0 <= k < 4 * i ==> entries@[k] == product_entry(
                    self@,
                    rhs@,
                    k / 4,
                    k % 4,
                ),
            decreases 4 - i,
        {
            let mut j: usize = 0;
            while j < 4
                invariant
                    0 <= i < 4,
                    0 <= j <= 4,
                    forall|k: int| 0 <= k < 4 * i + j ==> entries@[k] == product_entry(
                        self@,
                        rhs@,
                        k / 4,
                        k % 4,
                    ),
                decreases 4 - j,
            {
                entries[4 * i + j] = self.0[4 * i].mul(rhs.0[j]).add(
                    self.0[4 * i + 1].mul(rhs.0[4 + j]),
                ).add(self.0[4 * i + 2].mul(rhs.0[8 + j])).add(
                    self.0[4 * i + 3].mul(rhs.0[12 + j]),
                );
                j += 1;
            }
            i += 1;
        }
        Matrix4(entries)
    }
}

} // verus!
