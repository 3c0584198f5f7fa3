use simulator::math::vector::Vector;
use simulator::number::Real;
use simulator::output_adapter::csv_adapter::{decimal_string, CsvAdapter};
use simulator::simulation::{Body, Run, Simulation, SpinCharacteristics};

#[derive(Clone, Copy, Debug, PartialEq)]
struct F(f32);

impl Real for F {
    fn decimal_spec(mantissa: i64, exponent: i32) -> Self {
        Self::from_decimal(mantissa, exponent)
    }

    fn pi_spec() -> Self {
        Self::pi()
    }

    fn add_spec(self, rhs: Self) -> Self {
        self.add(rhs)
    }

    fn sub_spec(self, rhs: Self) -> Self {
        self.sub(rhs)
    }

    fn mul_spec(self, rhs: Self) -> Self {
        self.mul(rhs)
    }

    fn div_spec(self, rhs: Self) -> Self {
        self.div(rhs)
    }

    fn neg_spec(self) -> Self {
        self.neg()
    }

    fn powi_spec(self, n: i32) -> Self {
        self.powi(n)
    }

    fn sqrt_spec(self) -> Self {
        self.sqrt()
    }

    fn sin_spec(self) -> Self {
        self.sin()
    }

    fn cos_spec(self) -> Self {
        self.cos()
    }

    fn gt_spec(self, rhs: Self) -> bool {
        self.gt(rhs)
    }

    fn text_spec(self) -> String {
        self.to_text()
    }

    fn fixed_spec(self, places: usize) -> String {
        self.to_fixed(places)
    }

    fn from_decimal(mantissa: i64, exponent: i32) -> Self {
        F(format!("{}e{}", mantissa, exponent).parse().unwrap())
    }

    fn pi() -> Self {
        F(std::f32::consts::PI)
    }

    fn add(self, rhs: Self) -> Self {
        F(self.0 + rhs.0)
    }

    fn sub(self, rhs: Self) -> Self {
        F(self.0 - rhs.0)
    }

    fn mul(self, rhs: Self) -> Self {
        F(self.0 * rhs.0)
    }

    fn div(self, rhs: Self) -> Self {
        F(self.0 / rhs.0)
    }

    fn neg(self) -> Self {
        F(-self.0)
    }

    fn powi(self, n: i32) -> Self {
        F(self.0.powi(n))
    }

    fn sqrt(self) -> Self {
        F(self.0.sqrt())
    }

    fn sin(self) -> Self {
        F(self.0.sin())
    }

    fn cos(self) -> Self {
        F(self.0.cos())
    }

    fn gt(self, rhs: Self) -> bool {
        self.0 > rhs.0
    }

    fn to_text(self) -> String {
        format!("{}", self.0)
    }

    fn to_fixed(self, places: usize) -> String {
        format!("{:.*}", places, self.0)
    }
}

fn body<const N: usize>(label: &str, position: [f32; N]) -> Body<F, N> {
    Body::new(
        label.to_string(),
        F(1.0e9),
        F(1.0),
        Vector::from(position.map(F)),
        Vector::default(),
        SpinCharacteristics { tilt: F(0.0), velocity: F(0.0), angle: F(0.0) },
    )
}

fn simulation() -> Simulation<F, 3> {
    let mut simulation = Simulation::new(None, Some(F(0.3)), None);
    simulation.add_body(body("moon", [1.5, -2.0, 0.25]));
    simulation.add_body(body("earth", [0.0, 10.0, 3.0]));
    simulation
}

#[test]
fn numbers_are_written_in_decimal() {
    assert_eq!(decimal_string(0), "0");
    assert_eq!(decimal_string(7), "7");
    assert_eq!(decimal_string(10), "10");
    assert_eq!(decimal_string(12345), "12345");
    assert_eq!(decimal_string(usize::MAX), usize::MAX.to_string());
}

#[test]
fn a_body_has_one_column_for_each_dimension() {
    assert_eq!(CsvAdapter::body_header(&body("a", [0.0])), "a.1");
    assert_eq!(CsvAdapter::body_header(&body("a", [0.0, 0.0])), "a.1,a.2");
    assert_eq!(CsvAdapter::body_header(&body("sun", [0.0, 0.0, 0.0])), "sun.1,sun.2,sun.3");
    assert_eq!(CsvAdapter::body_header(&body("a", [])), "a.1");
    assert_eq!(
        CsvAdapter::body_header(&body("b", [0.0; 11])),
        "b.1,b.2,b.3,b.4,b.5,b.6,b.7,b.8,b.9,b.10,b.11"
    );
}

#[test]
fn the_header_row_names_the_bodies_in_declared_order() {
    let simulation = simulation();
    let adapter = CsvAdapter::new(&simulation);
    assert_eq!(adapter.headers(), "t,moon.1,moon.2,moon.3,earth.1,earth.2,earth.3");
    assert_eq!(adapter.order(), vec!["moon", "earth"]);
}

#[test]
fn the_header_row_of_an_empty_simulation_is_the_time_alone() {
    let simulation: Simulation<F, 3> = Simulation::new(None, None, None);
    assert_eq!(CsvAdapter::new(&simulation).headers(), "t");
}

#[test]
fn the_data_of_a_body_is_its_position() {
    assert_eq!(CsvAdapter::body_data(&body("a", [1.5, -2.0, 0.25])), ",1.5,-2,0.25");
    assert_eq!(CsvAdapter::body_data(&body("a", [])), "");
}

#[test]
fn a_row_holds_the_time_and_the_positions_in_the_given_order() {
    let simulation = simulation();
    let adapter = CsvAdapter::new(&simulation);
    let map = simulation.create_body_map();
    let order = adapter.order();
    assert_eq!(adapter.body_row(F(0.0), &map, &order), "0.0,1.5,-2,0.25,0,10,3");
    assert_eq!(adapter.body_row(F(0.25), &map, &order), "0.2,1.5,-2,0.25,0,10,3");
    assert_eq!(adapter.body_row(F(12.06), &map, &order), "12.1,1.5,-2,0.25,0,10,3");
    let reversed = vec!["earth".to_string(), "moon".to_string()];
    assert_eq!(adapter.body_row(F(1.0), &map, &reversed), "1.0,0,10,3,1.5,-2,0.25");
}

#[test]
fn a_label_without_a_body_is_passed_over() {
    let simulation = simulation();
    let adapter = CsvAdapter::new(&simulation);
    let map = simulation.create_body_map();
    let order = vec!["mars".to_string(), "earth".to_string(), "venus".to_string()];
    assert_eq!(adapter.body_row(F(0.5), &map, &order), "0.5,0,10,3");
    assert_eq!(adapter.body_row(F(0.5), &map, &Vec::new()), "0.5");
}

#[test]
fn a_run_gives_one_row_for_each_snapshot() {
    let simulation = simulation();
    let adapter = CsvAdapter::new(&simulation);
    let order = adapter.order();
    let mut run = Run::from(&simulation);
    let mut rows = Vec::new();
    while let Some(step) = run.next() {
        rows.push(adapter.body_row(step.t, &step.body_map, &order));
    }
    assert_eq!(rows.len(), 4);
    assert_eq!(rows[0], "0.0,1.5,-2,0.25,0,10,3");
    assert!(rows[1].starts_with("0.1,"));
    assert!(rows[3].starts_with("0.3,"));
    assert_eq!(rows[3].split(',').count(), 7);
}
