use sim::scalar::Scalar;
use sim::vehicle::{Angular, Engine, Steering, Vehicle};

#[derive(Clone, Copy, Debug, PartialEq)]
struct Double(f64);

impl Scalar for Double {
    fn from_int(n: i32) -> Self {
        Double(f64::from(n))
    }

    fn plus(self, rhs: Self) -> Self {
        Double(self.0 + rhs.0)
    }

    fn minus(self, rhs: Self) -> Self {
        Double(self.0 - rhs.0)
    }

    fn times(self, rhs: Self) -> Self {
        Double(self.0 * rhs.0)
    }

    fn over(self, rhs: Self) -> Self {
        Double(self.0 / rhs.0)
    }

    fn negated(self) -> Self {
        Double(-self.0)
    }

    fn exp(self) -> Self {
        Double(self.0.exp())
    }

    fn sqrt(self) -> Self {
        Double(self.0.sqrt())
    }

    fn sin(self) -> Self {
        Double(self.0.sin())
    }

    fn cos(self) -> Self {
        Double(self.0.cos())
    }

    fn powf(self, exponent: Self) -> Self {
        Double(self.0.powf(exponent.0))
    }

    fn powi(self, exponent: i32) -> Self {
        Double(self.0.powi(exponent))
    }

    fn less_eq(self, rhs: Self) -> bool {
        self.0 <= rhs.0
    }

    fn equals(self, rhs: Self) -> bool {
        self.0 == rhs.0
    }
}

fn v3(v: [Double; 3]) -> [f64; 3] {
    [v[0].0, v[1].0, v[2].0]
}

fn no_steering() -> Steering<Double> {
    Steering::Angular(Angular::Polynomials([Double(0.); 4]))
}

#[test]
fn angular_polynomials() {
    let steering =
        Steering::Angular(Angular::Polynomials([Double(4.), Double(3.), Double(2.), Double(1.)]));

    assert_eq!(
        steering.update(Double(2.)).0,
        4. + 3. * 2. + 2. * 2_f64.powi(2) + 1. * 2_f64.powi(3)
    )
}

#[test]
fn polynomial_at_two_is_twenty_six() {
    let steering =
        Steering::Angular(Angular::Polynomials([Double(4.), Double(3.), Double(2.), Double(1.)]));
    assert_eq!(steering.update(Double(2.)).0, 26.);
}

#[test]
fn polynomial_at_zero_is_the_constant_coefficient() {
    let steering = Steering::Angular(Angular::Polynomials([
        Double(-7.5),
        Double(3.),
        Double(2.),
        Double(1.),
    ]));
    assert_eq!(steering.update(Double(0.)).0, -7.5);
}

#[test]
fn polynomial_sums_in_ascending_degree() {
    let c = [0.1, -0.7, 0.3, 1e-3];
    let x: f64 = 1.7;
    let steering = Steering::Angular(Angular::Polynomials([
        Double(c[0]),
        Double(c[1]),
        Double(c[2]),
        Double(c[3]),
    ]));
    let expected =
        (((0. + x.powi(0) * c[0]) + x.powi(1) * c[1]) + x.powi(2) * c[2]) + x.powi(3) * c[3];
    assert_eq!(steering.update(Double(x)).0, expected);
}

#[test]
fn update_keeps_nothing_between_calls() {
    let steering =
        Steering::Angular(Angular::Polynomials([Double(1.), Double(2.), Double(3.), Double(4.)]));
    let first = steering.update(Double(0.5));
    steering.update(Double(100.));
    assert_eq!(steering.update(Double(0.5)), first);
}

#[test]
fn axial_engine_thrust_is_vacuum_thrust_less_pressure_loss() {
    let engine = Engine::new([Double(0.), Double(0.)], Double(5000.), Double(0.25));
    assert_eq!(v3(engine.thrust(Double(101325.))), [5000. - 0.25 * 101325., 0., 0.]);
}

#[test]
fn axial_engine_thrust_in_vacuum_is_vacuum_thrust() {
    let engine = Engine::new([Double(0.), Double(0.)], Double(5000.), Double(0.25));
    assert_eq!(v3(engine.thrust(Double(0.))), [5000., 0., 0.]);
}

#[test]
fn new_engine_runs_at_full_throttle() {
    // with throttle 1 and no exit area the magnitude is the vacuum thrust
    let engine = Engine::new([Double(0.), Double(0.)], Double(1234.5), Double(0.));
    assert_eq!(v3(engine.thrust(Double(77.)))[0], 1234.5);
}

#[test]
fn inclined_engine_thrust_follows_pitch_and_yaw() {
    let (pitch, yaw): (f64, f64) = (0.3, -0.2);
    let engine = Engine::new([Double(pitch), Double(yaw)], Double(900.), Double(0.5));
    let magnitude = 1. * 900. - 0.5 * 100.;
    assert_eq!(
        v3(engine.thrust(Double(100.))),
        [
            yaw.cos() * pitch.cos() * magnitude,
            yaw.sin() * magnitude,
            yaw.cos() * pitch.sin() * magnitude
        ]
    );
}

#[test]
fn new_vehicle_is_at_rest_at_the_origin() {
    let vehicle = Vehicle::new(Double(10.), Vec::new(), no_steering());
    assert_eq!(v3(vehicle.attitude), [0., 0., 0.]);
    assert_eq!(v3(vehicle.position), [0., 0., 0.]);
    assert_eq!(v3(vehicle.velocity), [0., 0., 0.]);
}

#[test]
fn vehicle_thrust_is_engine_thrust_over_mass() {
    let engine = Engine::new([Double(0.), Double(0.)], Double(5000.), Double(0.25));
    let vehicle = Vehicle::new(Double(40.), vec![engine], no_steering());
    assert_eq!(v3(vehicle.thrust(Double(1000.))), [(5000. - 0.25 * 1000.) / 40., 0., 0.]);
}

#[test]
fn vehicle_thrust_sums_the_engines_in_order() {
    let angles: [(f64, f64); 3] = [(0.1, 0.2), (-0.4, 0.05), (1.2, -0.7)];
    let thrusts = [1e5, 3.3e4, 7.7e3];
    let areas = [0.5, 0.25, 0.125];
    let pressure = 2e4;
    let mass = 1234.5;
    let mut engines = Vec::new();
    let mut force = [0., 0., 0.];
    for i in 0..3 {
        let (pitch, yaw) = angles[i];
        engines.push(Engine::new(
            [Double(pitch), Double(yaw)],
            Double(thrusts[i]),
            Double(areas[i]),
        ));
        let magnitude = 1. * thrusts[i] - areas[i] * pressure;
        force[0] = force[0] + yaw.cos() * pitch.cos() * magnitude;
        force[1] = force[1] + yaw.sin() * magnitude;
        force[2] = force[2] + yaw.cos() * pitch.sin() * magnitude;
    }
    let vehicle = Vehicle::new(Double(mass), engines, no_steering());
    assert_eq!(
        v3(vehicle.thrust(Double(pressure))),
        [force[0] / mass, force[1] / mass, force[2] / mass]
    );
}

#[test]
fn vehicle_without_engines_has_no_thrust() {
    let vehicle = Vehicle::new(Double(2.), Vec::new(), no_steering());
    assert_eq!(v3(vehicle.thrust(Double(5.))), [0., 0., 0.]);
}

#[test]
fn zero_mass_is_not_masked() {
    let engine = Engine::new([Double(0.), Double(0.)], Double(10.), Double(0.));
    let vehicle = Vehicle::new(Double(0.), vec![engine], no_steering());
    let thrust = v3(vehicle.thrust(Double(0.)));
    assert_eq!(thrust[0], f64::INFINITY);
    assert!(thrust[1].is_nan());
    assert!(thrust[2].is_nan());
}

#[test]
fn positive_mass_is_told_from_the_rest() {
    let with_mass = |mass: f64| Vehicle::new(Double(mass), Vec::new(), no_steering());
    assert!(with_mass(1e-300).has_positive_mass());
    assert!(with_mass(5e4).has_positive_mass());
    assert!(with_mass(f64::INFINITY).has_positive_mass());
    assert!(!with_mass(0.).has_positive_mass());
    assert!(!with_mass(-0.).has_positive_mass());
    assert!(!with_mass(-3.).has_positive_mass());
    assert!(!with_mass(f64::NAN).has_positive_mass());
}
