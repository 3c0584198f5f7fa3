use simulator::math::matrix::Matrix4;
use simulator::number::Real;

#[derive(Clone, Copy, Debug, PartialEq)]
struct F(f32);

impl Real for F {
    fn decimal_spec(mantissa: i64, exponent: i32) -> Self {
        Self::from_decimal(mantissa, exponent)
    }

    fn pi_spec() -> Self {
        Self::pi()
    }

    fn add_spec(self, rhs: Self) -> Self {
        self.add(rhs)
    }

    fn sub_spec(self, rhs: Self) -> Self {
        self.sub(rhs)
    }

    fn mul_spec(self, rhs: Self) -> Self {
        self.mul(rhs)
    }

    fn div_spec(self, rhs: Self) -> Self {
        self.div(rhs)
    }

    fn neg_spec(self) -> Self {
        self.neg()
    }

    fn powi_spec(self, n: i32) -> Self {
        self.powi(n)
    }

    fn sqrt_spec(self) -> Self {
        self.sqrt()
    }

    fn sin_spec(self) -> Self {
        self.sin()
    }

    fn cos_spec(self) -> Self {
        self.cos()
    }

    fn gt_spec(self, rhs: Self) -> bool {
        self.gt(rhs)
    }

    fn text_spec(self) -> String {
        self.to_text()
    }

    fn fixed_spec(self, places: usize) -> String {
        self.to_fixed(places)
    }

    fn from_decimal(mantissa: i64, exponent: i32) -> Self {
        F(format!("{}e{}", mantissa, exponent).parse().unwrap())
    }

    fn pi() -> Self {
        F(std::f32::consts::PI)
    }

    fn add(self, rhs: Self) -> Self {
        F(self.0 + rhs.0)
    }

    fn sub(self, rhs: Self) -> Self {
        F(self.0 - rhs.0)
    }

    fn mul(self, rhs: Self) -> Self {
        F(self.0 * rhs.0)
    }

    fn div(self, rhs: Self) -> Self {
        F(self.0 / rhs.0)
    }

    fn neg(self) -> Self {
        F(-self.0)
    }

    fn powi(self, n: i32) -> Self {
        F(self.0.powi(n))
    }

    fn sqrt(self) -> Self {
        F(self.0.sqrt())
    }

    fn sin(self) -> Self {
        F(self.0.sin())
    }

    fn cos(self) -> Self {
        F(self.0.cos())
    }

    fn gt(self, rhs: Self) -> bool {
        self.0 > rhs.0
    }

    fn to_text(self) -> String {
        format!("{}", self.0)
    }

    fn to_fixed(self, places: usize) -> String {
        format!("{:.*}", places, self.0)
    }
}

fn matrix(entries: [f32; 16]) -> Matrix4<F> {
    Matrix4::from(entries.map(F))
}

#[test]
fn creating_from_an_array_works() {
    let _ = Matrix4::from([F(0.0); 16]);
}

#[test]
fn indexing_works() {
    let mat = Matrix4::<F>::identity();
    assert_eq!(mat[1][1], F(1.0));
    assert_eq!(mat[2][1], F(0.0));
}

#[test]
fn mutable_indexing_works() {
    let mut mat = Matrix4::<F>::zero();
    assert_eq!(mat[0][1], F(0.0));
    mat.set(0, 1, F(1.0));
    assert_eq!(mat[0][1], F(1.0));
    assert_eq!(Matrix4::<F>::zero()[0][1], F(0.0));
}

#[test]
fn multiplication_of_two_matrix4s_works() {
    let mat1 = matrix([
        7.0,  14.0, 15.0, 6.0,
        4.0,  8.0,  12.0, 3.0,
        14.0, 21.0, 6.0,  9.0,
        13.0, 7.0,  6.0,  4.0,
    ]);
    let mat2 = matrix([
        5.0,  7.0,  14.0, 2.0,
        8.0,  16.0, 4.0,  9.0,
        13.0, 6.0,  8.0,  4.0,
        6.0,  3.0,  2.0,  4.0,
    ]);
    assert_eq!(mat1 * mat2, matrix([
        378.0, 381.0, 286.0, 224.0,
        258.0, 237.0, 190.0, 140.0,
        370.0, 497.0, 346.0, 277.0,
        223.0, 251.0, 266.0, 129.0
    ]));
}

#[test]
fn a_new_matrix_is_zero() {
    assert_eq!(Matrix4::<F>::new(), matrix([0.0; 16]));
    assert_eq!(Matrix4::<F>::default(), Matrix4::zero());
}

#[test]
fn the_identity_leaves_a_matrix_unchanged() {
    let entries = [
        1.0, 2.0, 3.0, 4.0, 5.0, 6.0, 7.0, 8.0, 9.0, 10.0, 11.0, 12.0, 13.0, 14.0, 15.0, 16.0,
    ];
    assert_eq!(matrix(entries) * Matrix4::identity(), matrix(entries));
    assert_eq!(Matrix4::identity() * matrix(entries), matrix(entries));
}

#[test]
fn entries_are_read_by_row_and_column() {
    let mut mat = matrix([
        1.0, 2.0, 3.0, 4.0, 5.0, 6.0, 7.0, 8.0, 9.0, 10.0, 11.0, 12.0, 13.0, 14.0, 15.0, 16.0,
    ]);
    assert_eq!(mat.get(2, 1), F(10.0));
    assert_eq!(mat[3], [F(13.0), F(14.0), F(15.0), F(16.0)]);
    mat.set(3, 2, F(0.5));
    assert_eq!(mat.get(3, 2), F(0.5));
    assert_eq!(mat.get(3, 1), F(14.0));
}
