use sim::scalar::Scalar;
use sim::vector::{divided, scaled, sum, zeros};

#[derive(Clone, Copy, Debug, PartialEq)]
struct Double(f64);

impl Scalar for Double {
    fn from_int(n: i32) -> Self {
        Double(f64::from(n))
    }

    fn plus(self, rhs: Self) -> Self {
        Double(self.0 + rhs.0)
    }

    fn minus(self, rhs: Self) -> Self {
        Double(self.0 - rhs.0)
    }

    fn times(self, rhs: Self) -> Self {
        Double(self.0 * rhs.0)
    }

    fn over(self, rhs: Self) -> Self {
        Double(self.0 / rhs.0)
    }

    fn negated(self) -> Self {
        Double(-self.0)
    }

    fn exp(self) -> Self {
        Double(self.0.exp())
    }

    fn sqrt(self) -> Self {
        Double(self.0.sqrt())
    }

    fn sin(self) -> Self {
        Double(self.0.sin())
    }

    fn cos(self) -> Self {
        Double(self.0.cos())
    }

    fn powf(self, exponent: Self) -> Self {
        Double(self.0.powf(exponent.0))
    }

    fn powi(self, exponent: i32) -> Self {
        Double(self.0.powi(exponent))
    }

    fn less_eq(self, rhs: Self) -> bool {
        self.0 <= rhs.0
    }

    fn equals(self, rhs: Self) -> bool {
        self.0 == rhs.0
    }
}

fn plain<const N: usize>(v: [Double; N]) -> [f64; N] {
    v.map(|x| x.0)
}

#[test]
fn zeros_are_zero() {
    assert_eq!(plain(zeros::<Double, 4>()), [0., 0., 0., 0.]);
    assert_eq!(plain(zeros::<Double, 0>()), []);
}

#[test]
fn sum_adds_componentwise() {
    let a = [Double(1.), Double(-2.5), Double(1e16)];
    let b = [Double(0.5), Double(2.5), Double(1.)];
    assert_eq!(plain(sum(&a, &b)), [1.5, 0., 1e16 + 1.]);
}

#[test]
fn scaled_multiplies_every_component() {
    let v = [Double(1.), Double(-2.5), Double(0.1)];
    assert_eq!(plain(scaled(&v, Double(3.))), [3., -7.5, 0.1 * 3.]);
}

#[test]
fn divided_divides_every_component() {
    let v = [Double(1.), Double(-2.5), Double(0.)];
    assert_eq!(plain(divided(&v, Double(4.))), [0.25, -0.625, 0.]);
    let by_zero = plain(divided(&v, Double(0.)));
    assert_eq!(by_zero[0], f64::INFINITY);
    assert_eq!(by_zero[1], f64::NEG_INFINITY);
    assert!(by_zero[2].is_nan());
}
