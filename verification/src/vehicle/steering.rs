//! Steering laws: the commanded angle as a function of an independent
//! variable.

use vstd::prelude::*;
use crate::scalar::{Scalar, Term, val, whole};

verus! {

/// A steering law.
#[derive(Clone, Copy, Debug, PartialEq)]
pub enum Steering<T> {
    /// The angle itself is commanded.
    Angular(Angular<T>),
}

/// The ways to command an angle.
#[derive(Clone, Copy, Debug, PartialEq)]
pub enum Angular<T> {
    /// A cubic polynomial, by its coefficients from the constant one upwards
    Polynomials([T; 4]),
}

/// The monomial of degree `k`: `x^k * c`.
pub open spec fn monomial<T: Scalar>(x: T, k: i32, c: T) -> Term<T> {
    val(x).powi(k).times(val(c))
}

/// The polynomial `c[0] + c[1] x + c[2] x^2 + c[3] x^3`, summed from zero in
/// ascending degree.
pub open spec fn polynomial<T: Scalar>(c: [T; 4], x: T) -> Term<T> {
    whole(0).plus(monomial(x, 0, c[0])).plus(monomial(x, 1, c[1])).plus(monomial(x, 2, c[2])).plus(
        monomial(x, 3, c[3]),
    )
}

impl<T: Scalar> Steering<T> {
    /// The commanded angle at `variable`, as a formula.
    pub open spec fn angle(self, variable: T) -> Term<T> {
        match self {
            Steering::Angular(Angular::Polynomials(coeffs)) => polynomial(coeffs, variable),
        }
    }

    /// The commanded angle at `variable`. Nothing is kept from one call to the
    /// next.
    pub fn update(&self, variable: T) -> (angle: T)
        ensures
            self.angle(variable).yields(angle),
    {
        match self {
            Steering::Angular(steering_type) => match steering_type {
                Angular::Polynomials(coeffs) => {
                    let s0 = T::from_int(0);
                    let s1 = s0.plus(variable.powi(0).times(coeffs[0]));
                    let s2 = s1.plus(variable.powi(1).times(coeffs[1]));
                    let s3 = s2.plus(variable.powi(2).times(coeffs[2]));
                    let s4 = s3.plus(variable.powi(3).times(coeffs[3]));
                    proof {
                        reveal_with_fuel(Term::yields, 4);
                        let c = *coeffs;
                        let t1 = whole(0).plus(monomial(variable, 0, c[0]));
                        let t2 = t1.plus(monomial(variable, 1, c[1]));
                        let t3 = t2.plus(monomial(variable, 2, c[2]));
                        assert(t1.yields(s1));
                        assert(t2.yields(s2));
                        assert(t3.yields(s3));
                    }
                    s4
                },
            },
        }
    }
}

} // verus!
