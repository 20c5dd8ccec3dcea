use nalgebra::Vector2;
use sim::integration::runge_kutta::{rk4, RungeKutta};
use sim::scalar::Scalar;
use std::cell::RefCell;

#[derive(Clone, Copy, Debug, PartialEq)]
struct Double(f64);

impl Scalar for Double {
    fn from_int(n: i32) -> Self {
        Double(f64::from(n))
    }

    fn plus(self, rhs: Self) -> Self {
        Double(self.0 + rhs.0)
    }

    fn minus(self, rhs: Self) -> Self {
        Double(self.0 - rhs.0)
    }

    fn times(self, rhs: Self) -> Self {
        Double(self.0 * rhs.0)
    }

    fn over(self, rhs: Self) -> Self {
        Double(self.0 / rhs.0)
    }

    fn negated(self) -> Self {
        Double(-self.0)
    }

    fn exp(self) -> Self {
        Double(self.0.exp())
    }

    fn sqrt(self) -> Self {
        Double(self.0.sqrt())
    }

    fn sin(self) -> Self {
        Double(self.0.sin())
    }

    fn cos(self) -> Self {
        Double(self.0.cos())
    }

    fn powf(self, exponent: Self) -> Self {
        Double(self.0.powf(exponent.0))
    }

    fn powi(self, exponent: i32) -> Self {
        Double(self.0.powi(exponent))
    }

    fn less_eq(self, rhs: Self) -> bool {
        self.0 <= rhs.0
    }

    fn equals(self, rhs: Self) -> bool {
        self.0 == rhs.0
    }
}

struct Example {
    time: f64,
    // state = [position, velocity]
    state: Vector2<f64>,
}

impl Example {
    fn new() -> Self {
        Self { time: 0., state: Vector2::new(-0.5, 0.5) }
    }

    fn solution(&self) -> Vector2<f64> {
        // x = 1/3*t^3 + t^2 + t - 0.5e^t
        // y = t^2 + 2t + 1 - 0.5e^t
        Vector2::new(
            1. / 3. * self.time.powi(3) + self.time.powi(2) + self.time - 0.5 * self.time.exp(),
            self.time.powi(2) + 2. * self.time + 1. - 0.5 * self.time.exp(),
        )
    }

    fn step(&mut self, scheme: &RungeKutta<Double, 4>, stepsize: f64) {
        let state = [Double(self.state.x), Double(self.state.y)];
        let next = scheme.step(system, Double(self.time), &state, Double(stepsize));
        self.state = Vector2::new(next[0].0, next[1].0);
        self.time = self.time + stepsize;
    }
}

// x' = y
// y' = y - t^2 + 1
fn system(time: Double, state: &[Double; 2]) -> [Double; 2] {
    [state[1], Double(state[1].0 - time.0.powi(2) + 1.)]
}

#[test]
fn rk4_integrate() {
    let scheme = rk4::<Double>();
    let mut example = Example::new();

    let mut avg_err = 0.;
    while example.time <= 4. {
        example.step(&scheme, 0.5);
        let err = (example.solution() - example.state).abs();
        avg_err += err.norm();

        println!("Time: {:.1}", example.time);
        println!("---------");
        println!(
            "x: Solution={:5.2}, State={:5.2}, Error={:.1e}",
            example.solution()[0],
            example.state[0],
            err[0]
        );
        println!(
            "y: Solution={:5.2}, State={:5.2}, Error={:.1e}\n",
            example.solution()[1],
            example.state[1],
            err[1]
        );
    }
    avg_err /= 9.;

    println!("Avg. Error={avg_err:.2e}");

    assert!(avg_err < 5e-2);
}

#[test]
fn rk4_integrate_smaller_stepsize() {
    let scheme = rk4::<Double>();
    let mut example = Example::new();

    let mut avg_err = 0.;
    while example.time <= 4. {
        example.step(&scheme, 0.1);
        let err = (example.solution() - example.state).abs();
        avg_err += err.norm();
    }
    avg_err /= 41.;

    assert!(avg_err < 5e-5);
}

#[test]
fn rk4_single_step_matches_hand_computation() {
    // y' = y from y(0) = 1 with h = 1: k1 = 1, k2 = 1.5, k3 = 1.75, k4 = 2.75,
    // y1 = 1 + (1 + 2 * 1.5 + 2 * 1.75 + 2.75) / 6
    let scheme = rk4::<Double>();
    let next =
        scheme.step(|_t: Double, y: &[Double; 1]| [y[0]], Double(0.), &[Double(1.)], Double(1.));
    let expected =
        1. + (0. + 1. * (1. / 6.) + 1.5 * (1. / 3.) + 1.75 * (1. / 3.) + 2.75 * (1. / 6.));
    assert_eq!(next[0].0, expected);
}

#[test]
fn stages_are_evaluated_in_order_on_earlier_stages_only() {
    let calls: RefCell<Vec<(f64, f64)>> = RefCell::new(Vec::new());
    let scheme = rk4::<Double>();
    // every slope is a power of two, so each stage's input shows which slopes went into it
    let slopes = [1., 4., 16., 64.];
    let next = scheme.step(
        |t: Double, y: &[Double; 1]| {
            let n = calls.borrow().len();
            calls.borrow_mut().push((t.0, y[0].0));
            [Double(slopes[n])]
        },
        Double(10.),
        &[Double(0.)],
        Double(2.),
    );
    let calls = calls.into_inner();
    assert_eq!(calls.len(), 4);
    assert_eq!(calls[0], (10., 0.));
    assert_eq!(calls[1], (11., 0.5 * (1. * 2.)));
    assert_eq!(calls[2], (11., 0.5 * (4. * 2.)));
    assert_eq!(calls[3], (12., 1. * (16. * 2.)));
    assert_eq!(next[0].0, 2. * (1. / 6.) + 8. * (1. / 3.) + 32. * (1. / 3.) + 128. * (1. / 6.));
}

#[test]
fn entries_on_and_above_the_diagonal_take_no_part() {
    let o = Double(0.);
    let x = Double(1000.);
    let (half, one) = (Double(0.5), Double(1.));
    let lower = RungeKutta::new([[o, o], [one, o]], [half, half], [o, one]);
    let full = RungeKutta::new([[x, x], [one, x]], [half, half], [o, one]);
    let f = |t: Double, y: &[Double; 2]| [Double(y[1].0 + t.0), Double(-y[0].0)];
    let y0 = [Double(1.), Double(2.)];
    let a = lower.step(f, Double(0.25), &y0, Double(0.125));
    let b = full.step(f, Double(0.25), &y0, Double(0.125));
    assert_eq!(a, b);
    // Heun's scheme by hand
    let k1 = [(2. + 0.25) * 0.125, -1. * 0.125];
    let k2 = [((2. + k1[1]) + 0.375) * 0.125, -(1. + k1[0]) * 0.125];
    assert_eq!(a[0].0, 1. + (k1[0] * 0.5 + k2[0] * 0.5));
    assert_eq!(a[1].0, 2. + (k1[1] * 0.5 + k2[1] * 0.5));
}

#[test]
fn classical_tableau_is_explicit() {
    assert!(rk4::<Double>().is_explicit());
}

#[test]
fn tableau_with_an_entry_on_or_above_the_diagonal_is_not_explicit() {
    let o = Double(0.);
    let h = Double(0.5);
    assert!(RungeKutta::new([[o, o], [h, o]], [h, h], [o, h]).is_explicit());
    assert!(RungeKutta::new([[o, Double(-0.)], [h, o]], [h, h], [o, h]).is_explicit());
    assert!(!RungeKutta::new([[o, o], [h, h]], [h, h], [o, h]).is_explicit());
    assert!(!RungeKutta::new([[o, h], [h, o]], [h, h], [o, h]).is_explicit());
    assert!(!RungeKutta::new([[h, o], [h, o]], [h, h], [o, h]).is_explicit());
    assert!(!RungeKutta::new([[Double(f64::NAN)]], [h], [o]).is_explicit());
}

#[test]
fn step_is_repeatable() {
    let scheme = rk4::<Double>();
    let y0 = [Double(0.3), Double(-1.7)];
    let first = scheme.step(system, Double(0.75), &y0, Double(0.01));
    let second = scheme.step(system, Double(0.75), &y0, Double(0.01));
    assert_eq!(first[0].0.to_bits(), second[0].0.to_bits());
    assert_eq!(first[1].0.to_bits(), second[1].0.to_bits());
}

#[test]
fn undefined_derivative_is_not_masked() {
    let scheme = rk4::<Double>();
    let next = scheme.step(
        |_t: Double, y: &[Double; 2]| [Double(f64::NAN), y[0]],
        Double(0.),
        &[Double(1.), Double(2.)],
        Double(0.5),
    );
    assert!(next[0].0.is_nan());
    assert!(next[1].0.is_nan());
    let next = scheme.step(
        |_t: Double, _y: &[Double; 1]| [Double(f64::INFINITY)],
        Double(0.),
        &[Double(1.)],
        Double(0.5),
    );
    assert_eq!(next[0].0, f64::INFINITY);
}

#[test]
fn step_of_size_zero_stays() {
    let scheme = rk4::<Double>();
    let y0 = [Double(0.3), Double(-1.7)];
    assert_eq!(scheme.step(system, Double(2.), &y0, Double(0.)), y0);
}

// the error at t = 2 after `steps` steps of size `2 / steps`
fn error_at_two(steps: u32) -> f64 {
    let scheme = rk4::<Double>();
    let mut example = Example::new();
    for _ in 0..steps {
        example.step(&scheme, 2. / f64::from(steps));
    }
    (example.solution() - example.state).norm()
}

#[test]
fn halving_the_step_divides_the_error_by_about_sixteen() {
    let ratio = error_at_two(8) / error_at_two(16);
    assert!(14. < ratio && ratio < 18., "ratio {ratio}");
    let ratio = error_at_two(16) / error_at_two(32);
    assert!(14. < ratio && ratio < 18., "ratio {ratio}");
}
