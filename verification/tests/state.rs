use sim::integration::runge_kutta::rk4;
use sim::integration::Integrator;
use sim::scalar::Scalar;
use sim::state::{NumericState, PhysicalState};

#[derive(Clone, Copy, Debug, PartialEq)]
struct Double(f64);

impl Scalar for Double {
    fn from_int(n: i32) -> Self {
        Double(f64::from(n))
    }

    fn plus(self, rhs: Self) -> Self {
        Double(self.0 + rhs.0)
    }

    fn minus(self, rhs: Self) -> Self {
        Double(self.0 - rhs.0)
    }

    fn times(self, rhs: Self) -> Self {
        Double(self.0 * rhs.0)
    }

    fn over(self, rhs: Self) -> Self {
        Double(self.0 / rhs.0)
    }

    fn negated(self) -> Self {
        Double(-self.0)
    }

    fn exp(self) -> Self {
        Double(self.0.exp())
    }

    fn sqrt(self) -> Self {
        Double(self.0.sqrt())
    }

    fn sin(self) -> Self {
        Double(self.0.sin())
    }

    fn cos(self) -> Self {
        Double(self.0.cos())
    }

    fn powf(self, exponent: Self) -> Self {
        Double(self.0.powf(exponent.0))
    }

    fn powi(self, exponent: i32) -> Self {
        Double(self.0.powi(exponent))
    }

    fn less_eq(self, rhs: Self) -> bool {
        self.0 <= rhs.0
    }

    fn equals(self, rhs: Self) -> bool {
        self.0 == rhs.0
    }
}

fn state() -> PhysicalState<Double> {
    PhysicalState {
        time: Double(12.5),
        position: [Double(1.), Double(2.), Double(3.)],
        velocity: [Double(-4.), Double(5.5), Double(6.25)],
        mass: Double(1000.),
        attitude: [Double(0.1), Double(-0.2), Double(0.3)],
    }
}

#[test]
fn flat_vector_is_position_velocity_mass_attitude() {
    let flat = state().to_vector();
    let values: Vec<f64> = flat.iter().map(|x| x.0).collect();
    assert_eq!(values, vec![1., 2., 3., -4., 5.5, 6.25, 1000., 0.1, -0.2, 0.3]);
}

#[test]
fn state_survives_the_round_trip() {
    let s = state();
    assert_eq!(PhysicalState::from_vector(s.time, &s.to_vector()), s);
}

#[test]
fn state_with_extreme_values_survives_the_round_trip() {
    let s = PhysicalState {
        time: -0.0_f64,
        position: [f64::MAX, f64::MIN_POSITIVE, -0.0],
        velocity: [f64::INFINITY, f64::NEG_INFINITY, 5e-324],
        mass: f64::EPSILON,
        attitude: [1e-310, -1e300, 0.1 + 0.2],
    };
    let back = PhysicalState::from_vector(s.time, &s.to_vector());
    assert_eq!(back.time.to_bits(), s.time.to_bits());
    assert_eq!(back.mass.to_bits(), s.mass.to_bits());
    for i in 0..3 {
        assert_eq!(back.position[i].to_bits(), s.position[i].to_bits());
        assert_eq!(back.velocity[i].to_bits(), s.velocity[i].to_bits());
        assert_eq!(back.attitude[i].to_bits(), s.attitude[i].to_bits());
    }
}

#[test]
fn vector_survives_the_round_trip_and_time_is_carried_alongside() {
    let v: NumericState<i64> = [10, 11, 12, 13, 14, 15, 16, 17, 18, 19];
    let s = PhysicalState::from_vector(99, &v);
    assert_eq!(s.time, 99);
    assert_eq!(s.position, [10, 11, 12]);
    assert_eq!(s.velocity, [13, 14, 15]);
    assert_eq!(s.mass, 16);
    assert_eq!(s.attitude, [17, 18, 19]);
    assert_eq!(s.to_vector(), v);
}

// free fall with a mass flow: position' = velocity, velocity' = (0, 0, -g), mass' = -2
fn differentials(s: &PhysicalState<Double>) -> NumericState<Double> {
    [
        s.velocity[0],
        s.velocity[1],
        s.velocity[2],
        Double(0.),
        Double(0.),
        Double(-9.80665),
        Double(-2.),
        Double(0.),
        Double(0.),
        Double(0.),
    ]
}

#[test]
fn step_advances_time_by_the_stepsize() {
    let next = Integrator::RK4.step(differentials, &state(), Double(0.25));
    assert_eq!(next.time.0, 12.5 + 0.25);
}

#[test]
fn step_integrates_free_fall() {
    let h = 0.5;
    let next = Integrator::RK4.step(differentials, &state(), Double(h));
    let close = |a: f64, b: f64| (a - b).abs() <= 1e-12 * b.abs().max(1.);
    assert!(close(next.position[0].0, 1. + -4. * h));
    assert!(close(next.position[1].0, 2. + 5.5 * h));
    assert!(close(next.position[2].0, 3. + 6.25 * h - 0.5 * 9.80665 * h * h));
    assert!(close(next.velocity[0].0, -4.));
    assert!(close(next.velocity[1].0, 5.5));
    assert!(close(next.velocity[2].0, 6.25 - 9.80665 * h));
    assert!(close(next.mass.0, 1000. - 2. * h));
    assert_eq!(next.attitude, state().attitude);
}

#[test]
fn step_is_the_classical_scheme_on_the_flat_vector() {
    let s = state();
    let h = Double(0.125);
    // a right-hand side that depends on time and on every component
    let rhs = |p: &PhysicalState<Double>| {
        let mut d = p.to_vector();
        for (i, x) in d.iter_mut().enumerate() {
            *x = Double(x.0 * 0.5 - p.time.0 * (i as f64) + p.mass.0 * 1e-3);
        }
        d
    };
    let next = Integrator::RK4.step(rhs, &s, h);
    let flat = rk4::<Double>().step(
        |t: Double, y: &NumericState<Double>| rhs(&PhysicalState::from_vector(t, y)),
        s.time,
        &s.to_vector(),
        h,
    );
    assert_eq!(next, PhysicalState::from_vector(Double(s.time.0 + h.0), &flat));
}

#[test]
fn right_hand_side_sees_reassembled_states_at_the_stage_times() {
    let times = std::cell::RefCell::new(Vec::new());
    let s = state();
    Integrator::RK4.step(
        |p: &PhysicalState<Double>| {
            times.borrow_mut().push(p.time.0);
            [Double(0.); 10]
        },
        &s,
        Double(2.),
    );
    assert_eq!(times.into_inner(), vec![12.5, 13.5, 13.5, 14.5]);
}
