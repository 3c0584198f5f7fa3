use simulator::force::ForceVector;
use simulator::math::vector::Vector;
use simulator::number::Real;
use simulator::simulation::{
    body_map_from_bodies, compute_next_step, Body, BodyMap, OwningRun, Run, RunState, RunStep,
    Simulation, SimulationError, SpinCharacteristics,
};
use simulator::{Massive, Positioned};

#[derive(Clone, Copy, Debug, PartialEq)]
struct D(f64);

impl Real for D {
    fn decimal_spec(mantissa: i64, exponent: i32) -> Self {
        Self::from_decimal(mantissa, exponent)
    }

    fn pi_spec() -> Self {
        Self::pi()
    }

    fn add_spec(self, rhs: Self) -> Self {
        self.add(rhs)
    }

    fn sub_spec(self, rhs: Self) -> Self {
        self.sub(rhs)
    }

    fn mul_spec(self, rhs: Self) -> Self {
        self.mul(rhs)
    }

    fn div_spec(self, rhs: Self) -> Self {
        self.div(rhs)
    }

    fn neg_spec(self) -> Self {
        self.neg()
    }

    fn powi_spec(self, n: i32) -> Self {
        self.powi(n)
    }

    fn sqrt_spec(self) -> Self {
        self.sqrt()
    }

    fn sin_spec(self) -> Self {
        self.sin()
    }

    fn cos_spec(self) -> Self {
        self.cos()
    }

    fn gt_spec(self, rhs: Self) -> bool {
        self.gt(rhs)
    }

    fn text_spec(self) -> String {
        self.to_text()
    }

    fn fixed_spec(self, places: usize) -> String {
        self.to_fixed(places)
    }

    fn from_decimal(mantissa: i64, exponent: i32) -> Self {
        D(format!("{}e{}", mantissa, exponent).parse().unwrap())
    }

    fn pi() -> Self {
        D(std::f64::consts::PI)
    }

    fn add(self, rhs: Self) -> Self {
        D(self.0 + rhs.0)
    }

    fn sub(self, rhs: Self) -> Self {
        D(self.0 - rhs.0)
    }

    fn mul(self, rhs: Self) -> Self {
        D(self.0 * rhs.0)
    }

    fn div(self, rhs: Self) -> Self {
        D(self.0 / rhs.0)
    }

    fn neg(self) -> Self {
        D(-self.0)
    }

    fn powi(self, n: i32) -> Self {
        D(self.0.powi(n))
    }

    fn sqrt(self) -> Self {
        D(self.0.sqrt())
    }

    fn sin(self) -> Self {
        D(self.0.sin())
    }

    fn cos(self) -> Self {
        D(self.0.cos())
    }

    fn gt(self, rhs: Self) -> bool {
        self.0 > rhs.0
    }

    fn to_text(self) -> String {
        format!("{}", self.0)
    }

    fn to_fixed(self, places: usize) -> String {
        format!("{:.*}", places, self.0)
    }
}

fn spin(tilt: f64, velocity: f64, angle: f64) -> SpinCharacteristics<D> {
    SpinCharacteristics { tilt: D(tilt), velocity: D(velocity), angle: D(angle) }
}

fn body(label: &str, mass: f64, position: [f64; 2], velocity: [f64; 2]) -> Body<D, 2> {
    Body::new(
        label.to_string(),
        D(mass),
        D(1.0),
        Vector::from([D(position[0]), D(position[1])]),
        Vector::from([D(velocity[0]), D(velocity[1])]),
        spin(0.0, 0.0, 0.0),
    )
}

fn force(label: &str, x: f64, y: f64) -> ForceVector<D, 2> {
    ForceVector { label: label.to_string(), v: Vector::from([D(x), D(y)]) }
}

fn close(a: f64, b: f64, tolerance: f64) -> bool {
    (a - b).abs() <= tolerance
}

fn two_body_simulation(t_end: Option<f64>) -> Simulation<D, 2> {
    let mut simulation = Simulation::new(None, t_end.map(D), None);
    simulation.add_body(body("left", 1.0e10, [-1.0, 0.0], [0.0, 0.0]));
    simulation.add_body(body("right", 1.0e10, [1.0, 0.0], [0.0, 0.0]));
    simulation
}

fn snapshot(step: &RunStep<D, 2>) -> Vec<(String, [f64; 2], [f64; 2])> {
    step.body_map
        .values()
        .iter()
        .map(|b| {
            let position = [b.position[0].0, b.position[1].0];
            let velocity = [b.velocity[0].0, b.velocity[1].0];
            (b.label.clone(), position, velocity)
        })
        .collect()
}

#[test]
fn a_new_body_has_no_forces() {
    let b = body("a", 2.0, [1.0, 2.0], [3.0, 4.0]);
    assert_eq!(b.label, "a");
    assert_eq!(b.mass, D(2.0));
    assert_eq!(b.diameter, D(1.0));
    assert_eq!(b.position, Vector::from([D(1.0), D(2.0)]));
    assert_eq!(b.velocity, Vector::from([D(3.0), D(4.0)]));
    assert!(b.forces.is_empty());
}

#[test]
fn the_net_force_is_the_sum_of_the_forces() {
    let mut b = body("a", 2.0, [0.0, 0.0], [0.0, 0.0]);
    assert_eq!(b.net_force(), Vector::from([D(0.0), D(0.0)]));
    b.forces.push(force("one", 1.0, 2.0));
    b.forces.push(force("two", 3.0, -5.0));
    assert_eq!(b.net_force(), Vector::from([D(4.0), D(-3.0)]));
}

#[test]
fn forces_move_a_body_by_constant_acceleration() {
    let mut b = body("a", 2.0, [1.0, 1.0], [1.0, 0.0]);
    b.forces.push(force("push", 6.0, 8.0));
    b.apply_forces(D(2.0));
    // net force (6, 8) of magnitude 10, acceleration 5 along (0.6, 0.8) = (3, 4)
    // displacement = (1, 0) * 2 + 0.5 * 4 * (3, 4) = (8, 8)
    assert!(close(b.position[0].0, 9.0, 1e-12));
    assert!(close(b.position[1].0, 9.0, 1e-12));
    // velocity = (1, 0) + 2 * (3, 4)
    assert!(close(b.velocity[0].0, 7.0, 1e-12));
    assert!(close(b.velocity[1].0, 8.0, 1e-12));
    assert_eq!(b.forces.len(), 1);
}

#[test]
fn a_body_without_net_force_loses_its_position() {
    // The direction of a zero net force is a division by zero.
    let mut b = body("a", 2.0, [1.0, 1.0], [1.0, 0.0]);
    b.apply_forces(D(0.1));
    assert!(b.position[0].0.is_nan());
    assert!(b.velocity[0].0.is_nan());
}

#[test]
fn spin_turns_a_body_by_its_angular_velocity() {
    let mut b = body("a", 2.0, [1.0, 1.0], [1.0, 0.0]);
    b.spin = spin(0.4, 3.0, 1.0);
    b.apply_spin(D(0.5));
    assert_eq!(b.spin.angle, D(2.5));
    assert_eq!(b.spin.velocity, D(3.0));
    assert_eq!(b.spin.tilt, D(0.4));
    assert_eq!(b.position, Vector::from([D(1.0), D(1.0)]));
}

#[test]
fn a_simulation_starts_at_zero_with_a_step_of_a_tenth() {
    let simulation: Simulation<D, 2> = Simulation::new(None, None, None);
    assert_eq!(simulation.t_start(), D(0.0));
    assert_eq!(simulation.t_step(), D(0.1));
    assert_eq!(simulation.t_end(), None);
    assert!(simulation.bodies().is_empty());
}

#[test]
fn a_simulation_keeps_the_time_domain_it_is_given() {
    let simulation: Simulation<D, 2> = Simulation::new(Some(D(1.5)), Some(D(9.0)), Some(D(0.25)));
    assert_eq!(simulation.t_start(), D(1.5));
    assert_eq!(simulation.t_step(), D(0.25));
    assert_eq!(simulation.t_end(), Some(D(9.0)));
}

#[test]
fn bodies_stay_in_the_order_in_which_they_were_added() {
    let mut simulation: Simulation<D, 2> = Simulation::new(None, None, None);
    simulation.add_body(body("zeta", 1.0, [0.0, 0.0], [0.0, 0.0]));
    simulation.add_body(body("alpha", 1.0, [1.0, 0.0], [0.0, 0.0]));
    let labels: Vec<&str> = simulation.bodies().iter().map(|b| b.label.as_str()).collect();
    assert_eq!(labels, vec!["zeta", "alpha"]);
}

#[test]
fn a_body_map_is_walked_in_the_order_of_the_labels() {
    let mut simulation: Simulation<D, 2> = Simulation::new(None, None, None);
    simulation.add_body(body("zeta", 1.0, [0.0, 0.0], [0.0, 0.0]));
    simulation.add_body(body("alpha", 2.0, [1.0, 0.0], [0.0, 0.0]));
    simulation.add_body(body("mid", 3.0, [0.0, 1.0], [0.0, 0.0]));
    simulation.add_body(body("Zeta", 4.0, [1.0, 1.0], [0.0, 0.0]));
    let map = simulation.create_body_map();
    let labels: Vec<&str> = map.values().iter().map(|b| b.label.as_str()).collect();
    assert_eq!(labels, vec!["Zeta", "alpha", "mid", "zeta"]);
    assert_eq!(map.len(), 4);
    assert_eq!(map.get("mid").unwrap().mass, D(3.0));
    assert_eq!(map.body_at(0).mass, D(4.0));
    assert!(map.contains_key("alpha"));
    assert!(!map.contains_key("beta"));
    assert!(map.get("beta").is_none());
}

#[test]
fn of_two_bodies_with_one_label_the_later_one_stays() {
    let mut simulation: Simulation<D, 2> = Simulation::new(None, None, None);
    simulation.add_body(body("a", 1.0, [0.0, 0.0], [0.0, 0.0]));
    simulation.add_body(body("b", 2.0, [1.0, 0.0], [0.0, 0.0]));
    simulation.add_body(body("a", 3.0, [0.0, 1.0], [0.0, 0.0]));
    let map = simulation.create_body_map();
    assert_eq!(map.len(), 2);
    assert_eq!(map.get("a").unwrap().mass, D(3.0));
}

#[test]
fn a_body_map_holds_fresh_copies_without_forces() {
    let mut simulation: Simulation<D, 2> = Simulation::new(None, None, None);
    let mut b = body("a", 1.0, [0.0, 0.0], [0.0, 0.0]);
    b.forces.push(force("old", 1.0, 1.0));
    simulation.add_body(b);
    let map = body_map_from_bodies(simulation.bodies());
    assert!(map.get("a").unwrap().forces.is_empty());
    assert_eq!(simulation.bodies()[0].forces.len(), 1);
}

#[test]
fn inserting_a_body_replaces_the_body_of_that_label() {
    let mut map: BodyMap<D, 2> = BodyMap::new();
    assert!(map.is_empty());
    assert!(map.insert(body("b", 1.0, [0.0, 0.0], [0.0, 0.0])).is_none());
    assert!(map.insert(body("a", 2.0, [0.0, 0.0], [0.0, 0.0])).is_none());
    let previous = map.insert(body("b", 3.0, [0.0, 0.0], [0.0, 0.0]));
    assert_eq!(previous.unwrap().mass, D(1.0));
    assert_eq!(map.len(), 2);
    assert_eq!(map.get("b").unwrap().mass, D(3.0));
    assert_eq!(map.body_at(0).label, "a");
}

#[test]
fn a_step_moves_every_body_by_the_forces_of_the_state_before() {
    let g = 6.67430e-11_f64;
    let simulation = two_body_simulation(None);
    let next = compute_next_step(&simulation.create_body_map(), D(0.1));
    // each pulls the other with g * 1e10 * 1e10 / 2^2
    let strength = g * 1.0e10 * 1.0e10 / 4.0;
    let acceleration = strength / 1.0e10;
    let left = next.get("left").unwrap();
    let right = next.get("right").unwrap();
    assert!(close(left.position[0].0, -1.0 + 0.5 * acceleration * 0.01, 1e-12));
    assert!(close(right.position[0].0, 1.0 - 0.5 * acceleration * 0.01, 1e-12));
    assert!(close(left.velocity[0].0, acceleration * 0.1, 1e-12));
    assert!(close(right.velocity[0].0, -acceleration * 0.1, 1e-12));
    assert_eq!(left.position[1], D(0.0));
    assert_eq!(left.forces.len(), 1);
    assert_eq!(left.forces[0].label, "gravity_right");
    assert_eq!(right.forces[0].label, "gravity_left");
}

#[test]
fn forces_are_computed_afresh_at_every_step() {
    let mut simulation: Simulation<D, 2> = Simulation::new(None, None, None);
    simulation.add_body(body("a", 1.0e10, [0.0, 0.0], [0.0, 0.0]));
    simulation.add_body(body("b", 1.0e10, [3.0, 0.0], [0.0, 0.0]));
    simulation.add_body(body("c", 1.0e10, [0.0, 4.0], [0.0, 0.0]));
    let mut run = Run::from(&simulation);
    let first = run.next().unwrap();
    assert!(first.body_map.values().iter().all(|b| b.forces.is_empty()));
    for _ in 0..3 {
        let step = run.next().unwrap();
        assert!(step.body_map.values().iter().all(|b| b.forces.len() == 2));
    }
}

#[test]
fn the_first_snapshot_is_the_initial_configuration() {
    let simulation = two_body_simulation(Some(1.0));
    let mut run = Run::from(&simulation);
    let first = run.next().unwrap();
    assert_eq!(first.t, D(0.0));
    assert_eq!(
        snapshot(&first),
        vec![
            ("left".to_string(), [-1.0, 0.0], [0.0, 0.0]),
            ("right".to_string(), [1.0, 0.0], [0.0, 0.0]),
        ]
    );
    let second = run.next().unwrap();
    assert_eq!(second.t, D(0.1));
    assert!(second.body_map.get("left").unwrap().position[0].0 > -1.0);
}

#[test]
fn time_advances_by_repeated_addition_of_the_step() {
    let simulation = two_body_simulation(None);
    let mut run = Run::from(&simulation);
    let mut t = 0.0_f64;
    for _ in 0..20 {
        assert_eq!(run.next().unwrap().t, D(t));
        t += 0.1;
    }
}

#[test]
fn a_run_whose_end_is_its_start_emits_exactly_one_snapshot() {
    let mut simulation: Simulation<D, 2> = Simulation::new(Some(D(2.0)), Some(D(2.0)), None);
    simulation.add_body(body("left", 1.0e10, [-1.0, 0.0], [0.0, 0.0]));
    simulation.add_body(body("right", 1.0e10, [1.0, 0.0], [0.0, 0.0]));
    let mut run = Run::from(&simulation);
    assert_eq!(run.next().unwrap().t, D(2.0));
    assert!(run.next().is_none());
    assert!(run.next().is_none());
    let mut owning = OwningRun::from(simulation);
    assert_eq!(owning.next().unwrap().t, D(2.0));
    assert!(owning.next().is_none());
}

#[test]
fn a_run_whose_end_is_before_its_start_emits_nothing() {
    let simulation: Simulation<D, 2> = Simulation::new(Some(D(2.0)), Some(D(1.0)), None);
    let mut run = Run::from(&simulation);
    assert!(run.next().is_none());
}

#[test]
fn the_end_time_is_inclusive() {
    let simulation: Simulation<D, 2> = Simulation::new(Some(D(0.0)), Some(D(1.0)), Some(D(0.5)));
    let mut run = Run::from(&simulation);
    let mut times = Vec::new();
    while let Some(step) = run.next() {
        times.push(step.t.0);
    }
    assert_eq!(times, vec![0.0, 0.5, 1.0]);
}

#[test]
fn a_run_without_end_goes_on() {
    let simulation = two_body_simulation(None);
    let mut run = OwningRun::from(simulation);
    for _ in 0..1000 {
        assert!(run.next().is_some());
    }
}

#[test]
fn two_runs_over_one_simulation_emit_the_same_snapshots() {
    let simulation = two_body_simulation(Some(5.0));
    let mut first = Run::from(&simulation);
    let mut second = Run::from(&simulation);
    let mut owning = OwningRun::from(two_body_simulation(Some(5.0)));
    let mut count = 0;
    loop {
        let (a, b, c) = (first.next(), second.next(), owning.next());
        match (a, b, c) {
            (Some(a), Some(b), Some(c)) => {
                assert_eq!(a.t, b.t);
                assert_eq!(a.t, c.t);
                assert_eq!(snapshot(&a), snapshot(&b));
                assert_eq!(snapshot(&a), snapshot(&c));
                count += 1;
            }
            (None, None, None) => break,
            _ => panic!("the runs differ in length"),
        }
    }
    assert_eq!(count, 51);
}

#[test]
fn two_equal_masses_keep_their_center_of_mass() {
    let mut simulation: Simulation<D, 2> = Simulation::new(None, None, None);
    simulation.add_body(body("left", 1.0e8, [-1.0, 0.0], [0.0, 0.0]));
    simulation.add_body(body("right", 1.0e8, [1.0, 0.0], [0.0, 0.0]));
    let mut run = Run::from(&simulation);
    let mut last = run.next().unwrap();
    for _ in 0..200 {
        last = run.next().unwrap();
        let bodies = snapshot(&last);
        let center = [
            (bodies[0].1[0] + bodies[1].1[0]) / 2.0,
            (bodies[0].1[1] + bodies[1].1[1]) / 2.0,
        ];
        assert!(close(center[0], 0.0, 1e-9));
        assert!(close(center[1], 0.0, 1e-9));
    }
    let left = snapshot(&last)[0].1[0];
    assert!(-1.0 < left && left < 0.0);
}

#[test]
fn a_body_falls_towards_the_earth_as_gravity_says() {
    let radius = 6_378_000.0 + 1_000.0;
    let mut simulation: Simulation<D, 2> = Simulation::new(None, None, Some(D(0.1)));
    simulation.add_body(body("apple", 1.0, [0.0, radius], [0.0, 0.0]));
    simulation.add_body(body("earth", 5.972e24, [0.0, 0.0], [0.0, 0.0]));
    let mut run = Run::from(&simulation);
    run.next().unwrap();
    let step = run.next().unwrap();
    let apple = step.body_map.get("apple").unwrap();
    let displacement = [apple.position[0].0 - 0.0, apple.position[1].0 - radius];
    let magnitude = (displacement[0].powi(2) + displacement[1].powi(2)).sqrt();
    // g = G * M / r^2 = 9.795358117899447; 0.5 * g * t^2 = 0.04897679058949724
    assert!(close(magnitude, 0.04897679058949724, 1e-6));
    assert!(displacement[1] < 0.0);
    assert_eq!(displacement[0], 0.0);
    assert!(close(apple.velocity[1].0, -0.9795358117899448, 1e-9));
}

#[test]
fn three_equal_masses_on_a_triangle_move_towards_its_centre() {
    let height = 3.0_f64.sqrt() / 2.0;
    let corners = [[1.0, 0.0], [-0.5, height], [-0.5, -height]];
    let mut simulation: Simulation<D, 2> = Simulation::new(None, None, Some(D(0.1)));
    for (i, corner) in corners.iter().enumerate() {
        simulation.add_body(body(&format!("body{}", i), 1.0e9, *corner, [0.0, 0.0]));
    }
    let mut run = Run::from(&simulation);
    run.next().unwrap();
    let step = run.next().unwrap();
    for (i, corner) in corners.iter().enumerate() {
        let b = step.body_map.get(&format!("body{}", i)).unwrap();
        let d = [b.position[0].0 - corner[0], b.position[1].0 - corner[1]];
        let length = (d[0] * d[0] + d[1] * d[1]).sqrt();
        assert!(length > 0.0);
        // towards the centroid, which is the origin: against the corner's own direction
        let along = -(d[0] * corner[0] + d[1] * corner[1]) / length;
        let across = (d[0] * corner[1] - d[1] * corner[0]) / length;
        assert!(close(along, 1.0, 1e-9));
        assert!(close(across, 0.0, 1e-9));
    }
}

#[test]
fn a_body_without_mass_gets_no_finite_acceleration() {
    let mut b = body("a", 0.0, [1.0, 1.0], [0.0, 0.0]);
    b.forces.push(force("push", 6.0, 8.0));
    b.apply_forces(D(1.0));
    assert!(!b.position[0].0.is_finite());
    assert!(!b.velocity[1].0.is_finite());
}

#[test]
fn a_body_has_a_mass_and_a_position() {
    let b = body("a", 2.5, [1.0, 2.0], [0.0, 0.0]);
    assert_eq!(b.mass(), D(2.5));
    assert_eq!((&b).position(), &Vector::from([D(1.0), D(2.0)]));
}

#[test]
fn a_simulation_gives_a_run_over_itself() {
    let simulation = two_body_simulation(Some(0.2));
    let mut run = simulation.new_run();
    let mut count = 0;
    while let Some(step) = run.next() {
        assert_eq!(step.body_map.len(), 2);
        count += 1;
    }
    assert_eq!(count, 3);
}

#[test]
fn sound_bodies_are_accepted() {
    assert_eq!(two_body_simulation(None).validate(), Ok(()));
    let empty: Simulation<D, 2> = Simulation::new(None, None, None);
    assert_eq!(empty.validate(), Ok(()));
}

#[test]
fn a_mass_that_is_not_positive_is_rejected() {
    for mass in [0.0, -1.0, f64::NAN] {
        let mut simulation: Simulation<D, 2> = Simulation::new(None, None, None);
        simulation.add_body(body("a", 1.0, [0.0, 0.0], [0.0, 0.0]));
        simulation.add_body(body("b", mass, [1.0, 0.0], [0.0, 0.0]));
        simulation.add_body(body("c", 0.0, [2.0, 0.0], [0.0, 0.0]));
        let error = simulation.validate().unwrap_err();
        assert_eq!(error, SimulationError::MassNotPositive { label: "b".to_string() });
        assert_eq!(error.message(), "the mass of body 'b' is not greater than zero");
    }
}

#[test]
fn a_label_that_occurs_twice_is_rejected() {
    let mut simulation: Simulation<D, 2> = Simulation::new(None, None, None);
    simulation.add_body(body("a", 1.0, [0.0, 0.0], [0.0, 0.0]));
    simulation.add_body(body("b", 1.0, [1.0, 0.0], [0.0, 0.0]));
    simulation.add_body(body("c", 1.0, [2.0, 0.0], [0.0, 0.0]));
    simulation.add_body(body("b", 1.0, [3.0, 0.0], [0.0, 0.0]));
    simulation.add_body(body("a", 1.0, [4.0, 0.0], [0.0, 0.0]));
    let error = simulation.validate().unwrap_err();
    assert_eq!(error, SimulationError::DuplicateLabel { label: "a".to_string() });
    assert_eq!(error.message(), "more than one body is labelled 'a'");
}

#[test]
fn two_bodies_at_one_place_are_rejected() {
    let mut simulation: Simulation<D, 2> = Simulation::new(None, None, None);
    simulation.add_body(body("a", 1.0, [0.0, 0.0], [0.0, 0.0]));
    simulation.add_body(body("b", 1.0, [1.0, 2.0], [0.0, 0.0]));
    simulation.add_body(body("c", 1.0, [1.0, 2.0], [5.0, 0.0]));
    let error = simulation.validate().unwrap_err();
    assert_eq!(
        error,
        SimulationError::CoincidentBodies { first: "b".to_string(), second: "c".to_string() }
    );
    assert_eq!(
        error.message(),
        "the bodies 'b' and 'c' are not at a distance greater than zero"
    );
}

#[test]
fn a_mass_is_looked_at_before_a_label_and_a_label_before_a_place() {
    let mut simulation: Simulation<D, 2> = Simulation::new(None, None, None);
    simulation.add_body(body("a", 1.0, [0.0, 0.0], [0.0, 0.0]));
    simulation.add_body(body("a", 1.0, [0.0, 0.0], [0.0, 0.0]));
    assert_eq!(
        simulation.validate(),
        Err(SimulationError::DuplicateLabel { label: "a".to_string() })
    );
    simulation.add_body(body("z", -3.0, [0.0, 0.0], [0.0, 0.0]));
    assert_eq!(
        simulation.validate(),
        Err(SimulationError::MassNotPositive { label: "z".to_string() })
    );
}

#[test]
fn a_stepper_says_where_it_stands() {
    let simulation = two_body_simulation(Some(0.1));
    let mut run = Run::from(&simulation);
    assert_eq!(run.state(), RunState::NotStarted);
    run.next().unwrap();
    assert_eq!(run.state(), RunState::Running);
    run.next().unwrap();
    assert_eq!(run.state(), RunState::Exhausted);
    assert!(run.next().is_none());
    assert_eq!(run.state(), RunState::Exhausted);

    let mut owning = OwningRun::from(two_body_simulation(None));
    assert_eq!(owning.state(), RunState::NotStarted);
    owning.next().unwrap();
    assert_eq!(owning.state(), RunState::Running);

    let ended: Simulation<D, 2> = Simulation::new(Some(D(2.0)), Some(D(1.0)), None);
    assert_eq!(Run::from(&ended).state(), RunState::Exhausted);
}

#[test]
fn taking_snapshots_gives_as_many_as_asked_for_or_as_are_left() {
    let simulation = two_body_simulation(Some(0.5));
    let mut run = Run::from(&simulation);
    assert!(run.take(0).is_empty());
    assert_eq!(run.state(), RunState::NotStarted);
    let first: Vec<f64> = run.take(2).iter().map(|s| s.t.0).collect();
    assert_eq!(first, vec![0.0, 0.1]);
    let rest = run.take(100);
    assert_eq!(rest.len(), 4);
    assert_eq!(rest[0].t, D(0.1 + 0.1));
    assert_eq!(run.state(), RunState::Exhausted);
    assert!(run.take(5).is_empty());

    let mut stepped = Run::from(&simulation);
    let mut owning = OwningRun::from(two_body_simulation(Some(0.5)));
    let taken = owning.take(6);
    assert!(owning.next().is_none());
    for step in &taken {
        assert_eq!(snapshot(step), snapshot(&stepped.next().unwrap()));
    }
}
