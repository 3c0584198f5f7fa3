use simulator::graphics::model::{generate_uv_sphere, Shape, Vertex};
use simulator::graphics::BodyState;
use simulator::math::vector::{Distance, Vector, Vector2, Vector3};
use simulator::number::Real;
use simulator::simulation::{Body, SpinCharacteristics};

#[derive(Clone, Copy, Debug, PartialEq)]
struct F(f32);

impl Real for F {
    fn decimal_spec(mantissa: i64, exponent: i32) -> Self {
        Self::from_decimal(mantissa, exponent)
    }

    fn pi_spec() -> Self {
        Self::pi()
    }

    fn add_spec(self, rhs: Self) -> Self {
        self.add(rhs)
    }

    fn sub_spec(self, rhs: Self) -> Self {
        self.sub(rhs)
    }

    fn mul_spec(self, rhs: Self) -> Self {
        self.mul(rhs)
    }

    fn div_spec(self, rhs: Self) -> Self {
        self.div(rhs)
    }

    fn neg_spec(self) -> Self {
        self.neg()
    }

    fn powi_spec(self, n: i32) -> Self {
        self.powi(n)
    }

    fn sqrt_spec(self) -> Self {
        self.sqrt()
    }

    fn sin_spec(self) -> Self {
        self.sin()
    }

    fn cos_spec(self) -> Self {
        self.cos()
    }

    fn gt_spec(self, rhs: Self) -> bool {
        self.gt(rhs)
    }

    fn text_spec(self) -> String {
        self.to_text()
    }

    fn fixed_spec(self, places: usize) -> String {
        self.to_fixed(places)
    }

    fn from_decimal(mantissa: i64, exponent: i32) -> Self {
        F(format!("{}e{}", mantissa, exponent).parse().unwrap())
    }

    fn pi() -> Self {
        F(std::f32::consts::PI)
    }

    fn add(self, rhs: Self) -> Self {
        F(self.0 + rhs.0)
    }

    fn sub(self, rhs: Self) -> Self {
        F(self.0 - rhs.0)
    }

    fn mul(self, rhs: Self) -> Self {
        F(self.0 * rhs.0)
    }

    fn div(self, rhs: Self) -> Self {
        F(self.0 / rhs.0)
    }

    fn neg(self) -> Self {
        F(-self.0)
    }

    fn powi(self, n: i32) -> Self {
        F(self.0.powi(n))
    }

    fn sqrt(self) -> Self {
        F(self.0.sqrt())
    }

    fn sin(self) -> Self {
        F(self.0.sin())
    }

    fn cos(self) -> Self {
        F(self.0.cos())
    }

    fn gt(self, rhs: Self) -> bool {
        self.0 > rhs.0
    }

    fn to_text(self) -> String {
        format!("{}", self.0)
    }

    fn to_fixed(self, places: usize) -> String {
        format!("{:.*}", places, self.0)
    }
}

fn close(a: f32, b: f32) -> bool {
    (a - b).abs() <= 1e-6
}

#[test]
fn a_sphere_has_two_poles_and_a_ring_for_each_inner_stack() {
    let (vertices, indices): (Vec<Vertex<Vector3<F>, Vector2<F>>>, Vec<u32>) =
        generate_uv_sphere(20, 24);
    assert_eq!(vertices.len(), 2 + 19 * 25);
    assert_eq!(indices.len(), 6 * 24 * 19);
    assert_eq!(vertices[0].pos, Vector::from([F(0.0), F(-1.0), F(0.0)]));
    assert_eq!(vertices[0].normal, Vector::from([F(0.0), F(-1.0), F(0.0)]));
    assert_eq!(vertices[0].tex_coord, Vector::from([F(0.5), F(1.0)]));
    assert_eq!(vertices[1].pos, Vector::from([F(0.0), F(1.0), F(0.0)]));
    assert_eq!(vertices[1].tex_coord, Vector::from([F(0.5), F(0.0)]));
}

#[test]
fn every_index_of_a_sphere_names_a_vertex() {
    for (n_stacks, n_sectors) in [(2, 0), (2, 1), (2, 5), (3, 1), (7, 4), (20, 24)] {
        let (vertices, indices): (Vec<Vertex<Vector3<F>, Vector2<F>>>, Vec<u32>) =
            generate_uv_sphere(n_stacks, n_sectors);
        assert_eq!(vertices.len() as u32, 2 + (n_stacks - 1) * (n_sectors + 1));
        assert_eq!(indices.len() as u32, 6 * n_sectors * (n_stacks - 1));
        assert!(indices.iter().all(|i| (*i as usize) < vertices.len()));
    }
}

#[test]
fn the_vertices_of_a_sphere_lie_on_the_unit_sphere() {
    let (vertices, _): (Vec<Vertex<Vector3<F>, Vector2<F>>>, Vec<u32>) = generate_uv_sphere(8, 6);
    for vertex in &vertices {
        assert!(close(vertex.pos.magnitude().0, 1.0));
        assert!(close(vertex.normal.magnitude().0, 1.0));
        assert!((0.0..=1.0).contains(&vertex.tex_coord[0].0));
        assert!((0.0..=1.0).contains(&vertex.tex_coord[1].0));
    }
}

#[test]
fn a_ring_runs_once_around_the_axis() {
    let (vertices, _): (Vec<Vertex<Vector3<F>, Vector2<F>>>, Vec<u32>) = generate_uv_sphere(2, 4);
    // the one ring lies on the equator
    let ring = &vertices[2..];
    assert_eq!(ring.len(), 5);
    let expected = [[1.0, 0.0], [0.0, 1.0], [-1.0, 0.0], [0.0, -1.0], [1.0, 0.0]];
    for (vertex, xz) in ring.iter().zip(expected) {
        assert!(close(vertex.pos[0].0, xz[0]));
        assert!(close(vertex.pos[1].0, 0.0));
        assert!(close(vertex.pos[2].0, xz[1]));
        assert_eq!(vertex.tex_coord[1], F(0.5));
    }
    let u: Vec<f32> = ring.iter().map(|v| v.tex_coord[0].0).collect();
    assert_eq!(u, vec![1.0, 0.75, 0.5, 0.25, 0.0]);
}

#[test]
fn the_triangles_of_a_small_sphere_are_as_drawn_by_hand() {
    let (_, indices): (Vec<Vertex<Vector3<F>, Vector2<F>>>, Vec<u32>) = generate_uv_sphere(2, 2);
    assert_eq!(indices, vec![2, 0, 3, 2, 1, 3, 3, 0, 4, 3, 1, 4]);
    let (_, indices): (Vec<Vertex<Vector3<F>, Vector2<F>>>, Vec<u32>) = generate_uv_sphere(3, 1);
    assert_eq!(indices, vec![2, 0, 3, 4, 1, 5, 4, 2, 5, 5, 2, 3]);
}

#[test]
fn a_sphere_of_one_stack_is_its_two_poles() {
    let (vertices, indices): (Vec<Vertex<Vector3<F>, Vector2<F>>>, Vec<u32>) =
        generate_uv_sphere(1, 0);
    assert_eq!(vertices.len(), 2);
    assert!(indices.is_empty());
}

#[test]
fn the_default_shape_is_a_sphere() {
    assert_eq!(Shape::default(), Shape::Sphere);
}

#[test]
fn a_renderer_sees_position_angle_diameter_and_tilt() {
    let body: Body<F, 3> = Body::new(
        "a".to_string(),
        F(5.0),
        F(12.0),
        Vector::from([F(1.0), F(2.0), F(3.0)]),
        Vector::from([F(4.0), F(5.0), F(6.0)]),
        SpinCharacteristics { tilt: F(0.4), velocity: F(7.0), angle: F(1.25) },
    );
    let state = BodyState::from(&body);
    assert_eq!(state.pos, Vector::from([F(1.0), F(2.0), F(3.0)]));
    assert_eq!(state.rot, F(1.25));
    assert_eq!(state.diameter, F(12.0));
    assert_eq!(state.tilt, F(0.4));
    let nothing: BodyState<F> = BodyState::default();
    assert_eq!(nothing.pos, Vector::from([F(0.0), F(0.0), F(0.0)]));
    assert_eq!(nothing.diameter, F(0.0));
}
