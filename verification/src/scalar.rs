//! The arithmetic the simulation is written against, and the formulas its
//! contracts are stated in.
//!
//! The library never names a concrete number type. Every quantity has a type
//! `T: Scalar`, and all arithmetic goes through the methods of that trait. The
//! methods carry no contract: nothing is assumed of them, neither an algebraic
//! law nor that two calls on the same operands agree. What a function of the
//! library computes is therefore stated as a [`Term`], the formula with every
//! operation in the order in which it is performed, together with
//! [`Term::yields`], which says that a value is one the scalar type's own
//! operations can return for that formula.
//!
//! Where the operations are functions of their operands
//! ([`is_deterministic`]), a formula has at most one value
//! ([`lemma_value_unique`]), and the contracts determine their results.

use vstd::prelude::*;

verus! {

/// The operations a number type offers to the simulation.
///
/// An implementation must return from every method on every input; for a
/// binary floating-point type that is the usual behaviour (a division by zero
/// gives an infinity, an undefined result a NaN).
pub trait Scalar: Copy {
    /// The scalar that stands for the integer `n`.
    fn from_int(n: i32) -> Self;

    /// `self + rhs`
    fn plus(self, rhs: Self) -> Self;

    /// `self - rhs`
    fn minus(self, rhs: Self) -> Self;

    /// `self * rhs`
    fn times(self, rhs: Self) -> Self;

    /// `self / rhs`
    fn over(self, rhs: Self) -> Self;

    /// `-self`
    fn negated(self) -> Self;

    /// `e` raised to `self`
    fn exp(self) -> Self;

    /// The square root of `self`
    fn sqrt(self) -> Self;

    /// The sine of `self`, an angle in radians
    fn sin(self) -> Self;

    /// The cosine of `self`, an angle in radians
    fn cos(self) -> Self;

    /// `self` raised to the scalar power `exponent`
    fn powf(self, exponent: Self) -> Self;

    /// `self` raised to the integer power `exponent`
    fn powi(self, exponent: i32) -> Self;

    /// Whether `self <= rhs`
    fn less_eq(self, rhs: Self) -> bool;

    /// Whether `self == rhs`
    fn equals(self, rhs: Self) -> bool;
}

/// A formula over scalars: the operations of [`Scalar`] applied to given
/// values and integer constants.
///
/// Terms occur in specifications only. Two terms are equal when they apply the
/// same operations to the same operands in the same order, so a term fixes the
/// association of a sum and the side on which a factor stands.
pub enum Term<T> {
    /// A given value
    Val(T),
    /// `Scalar::from_int` of an integer
    Int(i32),
    Sum(Box<Term<T>>, Box<Term<T>>),
    Difference(Box<Term<T>>, Box<Term<T>>),
    Product(Box<Term<T>>, Box<Term<T>>),
    Quotient(Box<Term<T>>, Box<Term<T>>),
    Negation(Box<Term<T>>),
    Exp(Box<Term<T>>),
    Sqrt(Box<Term<T>>),
    Sin(Box<Term<T>>),
    Cos(Box<Term<T>>),
    Power(Box<Term<T>>, Box<Term<T>>),
    IntPower(Box<Term<T>>, i32),
}

impl<T: Scalar> Term<T> {
    /// `r` is a value of this formula: there are values of the operands, from
    /// the innermost outwards, that the operations of `T` can return and that
    /// end in `r`.
    pub open spec fn yields(self, r: T) -> bool
        decreases self,
    {
        match self {
            Term::Val(v) => r == v,
            Term::Int(n) => call_ensures(T::from_int, (n,), r),
            Term::Sum(a, b) => exists|x: T, y: T|
                a.yields(x) && b.yields(y) && #[trigger] call_ensures(T::plus, (x, y), r),
            Term::Difference(a, b) => exists|x: T, y: T|
                a.yields(x) && b.yields(y) && #[trigger] call_ensures(T::minus, (x, y), r),
            Term::Product(a, b) => exists|x: T, y: T|
                a.yields(x) && b.yields(y) && #[trigger] call_ensures(T::times, (x, y), r),
            Term::Quotient(a, b) => exists|x: T, y: T|
                a.yields(x) && b.yields(y) && #[trigger] call_ensures(T::over, (x, y), r),
            Term::Negation(a) => exists|x: T|
                a.yields(x) && #[trigger] call_ensures(T::negated, (x,), r),
            Term::Exp(a) => exists|x: T| a.yields(x) && #[trigger] call_ensures(T::exp, (x,), r),
            Term::Sqrt(a) => exists|x: T| a.yields(x) && #[trigger] call_ensures(T::sqrt, (x,), r),
            Term::Sin(a) => exists|x: T| a.yields(x) && #[trigger] call_ensures(T::sin, (x,), r),
            Term::Cos(a) => exists|x: T| a.yields(x) && #[trigger] call_ensures(T::cos, (x,), r),
            Term::Power(a, b) => exists|x: T, y: T|
                a.yields(x) && b.yields(y) && #[trigger] call_ensures(T::powf, (x, y), r),
            Term::IntPower(a, n) => exists|x: T, k: i32|
                a.yields(x) && k == n && #[trigger] call_ensures(T::powi, (x, k), r),
        }
    }

    pub open spec fn plus(self, rhs: Term<T>) -> Term<T> {
        Term::Sum(Box::new(self), Box::new(rhs))
    }

    pub open spec fn minus(self, rhs: Term<T>) -> Term<T> {
        Term::Difference(Box::new(self), Box::new(rhs))
    }

    pub open spec fn times(self, rhs: Term<T>) -> Term<T> {
        Term::Product(Box::new(self), Box::new(rhs))
    }

    pub open spec fn over(self, rhs: Term<T>) -> Term<T> {
        Term::Quotient(Box::new(self), Box::new(rhs))
    }

    pub open spec fn negated(self) -> Term<T> {
        Term::Negation(Box::new(self))
    }

    pub open spec fn exp(self) -> Term<T> {
        Term::Exp(Box::new(self))
    }

    pub open spec fn sqrt(self) -> Term<T> {
        Term::Sqrt(Box::new(self))
    }

    pub open spec fn sin(self) -> Term<T> {
        Term::Sin(Box::new(self))
    }

    pub open spec fn cos(self) -> Term<T> {
        Term::Cos(Box::new(self))
    }

    pub open spec fn powf(self, exponent: Term<T>) -> Term<T> {
        Term::Power(Box::new(self), Box::new(exponent))
    }

    pub open spec fn powi(self, exponent: i32) -> Term<T> {
        Term::IntPower(Box::new(self), exponent)
    }
}

/// The term that is the given value.
pub open spec fn val<T>(v: T) -> Term<T> {
    Term::Val(v)
}

/// The term that is the integer constant `n`.
pub open spec fn whole<T>(n: i32) -> Term<T> {
    Term::Int(n)
}

/// The comparison `a <= b` can come out as `outcome`.
pub open spec fn compares<T: Scalar>(a: T, b: T, outcome: bool) -> bool {
    call_ensures(T::less_eq, (a, b), outcome)
}

/// The test `a == b` can come out as `outcome`.
pub open spec fn tests_equal<T: Scalar>(a: T, b: T, outcome: bool) -> bool {
    call_ensures(T::equals, (a, b), outcome)
}

/// The operations of `T` are functions of their operands: none can return
/// two different results on the same operands.
pub open spec fn is_deterministic<T: Scalar>() -> bool {
    &&& forall|n: i32, r1: T, r2: T|
        #[trigger] call_ensures(T::from_int, (n,), r1) && #[trigger] call_ensures(
            T::from_int,
            (n,),
            r2,
        ) ==> r1 == r2
    &&& forall|x: T, y: T, r1: T, r2: T|
        #[trigger] call_ensures(T::plus, (x, y), r1) && #[trigger] call_ensures(
            T::plus,
            (x, y),
            r2,
        ) ==> r1 == r2
    &&& forall|x: T, y: T, r1: T, r2: T|
        #[trigger] call_ensures(T::minus, (x, y), r1) && #[trigger] call_ensures(
            T::minus,
            (x, y),
            r2,
        ) ==> r1 == r2
    &&& forall|x: T, y: T, r1: T, r2: T|
        #[trigger] call_ensures(T::times, (x, y), r1) && #[trigger] call_ensures(
            T::times,
            (x, y),
            r2,
        ) ==> r1 == r2
    &&& forall|x: T, y: T, r1: T, r2: T|
        #[trigger] call_ensures(T::over, (x, y), r1) && #[trigger] call_ensures(
            T::over,
            (x, y),
            r2,
        ) ==> r1 == r2
    &&& forall|x: T, r1: T, r2: T|
        #[trigger] call_ensures(T::negated, (x,), r1) && #[trigger] call_ensures(
            T::negated,
            (x,),
            r2,
        ) ==> r1 == r2
    &&& forall|x: T, r1: T, r2: T|
        #[trigger] call_ensures(T::exp, (x,), r1) && #[trigger] call_ensures(T::exp, (x,), r2)
            ==> r1 == r2
    &&& forall|x: T, r1: T, r2: T|
        #[trigger] call_ensures(T::sqrt, (x,), r1) && #[trigger] call_ensures(T::sqrt, (x,), r2)
            ==> r1 == r2
    &&& forall|x: T, r1: T, r2: T|
        #[trigger] call_ensures(T::sin, (x,), r1) && #[trigger] call_ensures(T::sin, (x,), r2)
            ==> r1 == r2
    &&& forall|x: T, r1: T, r2: T|
        #[trigger] call_ensures(T::cos, (x,), r1) && #[trigger] call_ensures(T::cos, (x,), r2)
            ==> r1 == r2
    &&& forall|x: T, y: T, r1: T, r2: T|
        #[trigger] call_ensures(T::powf, (x, y), r1) && #[trigger] call_ensures(
            T::powf,
            (x, y),
            r2,
        ) ==> r1 == r2
    &&& forall|x: T, n: i32, r1: T, r2: T|
        #[trigger] call_ensures(T::powi, (x, n), r1) && #[trigger] call_ensures(
            T::powi,
            (x, n),
            r2,
        ) ==> r1 == r2
    &&& forall|x: T, y: T| !(#[trigger] compares(x, y, true) && #[trigger] compares(x, y, false))
    &&& forall|x: T, y: T|
        !(#[trigger] tests_equal(x, y, true) && #[trigger] tests_equal(x, y, false))
}

/// Where the operations of `T` are functions of their operands, a formula has
/// at most one value.
pub proof fn lemma_value_unique<T: Scalar>(term: Term<T>, r1: T, r2: T)
    requires
        is_deterministic::<T>(),
        term.yields(r1),
        term.yields(r2),
    ensures
        r1 == r2,
    decreases term,
{
    match term {
        Term::Val(_) => {},
        Term::Int(_) => {},
        Term::Sum(a, b) => {
            let (x1, y1) = choose|x: T, y: T|
                a.yields(x) && b.yields(y) && #[trigger] call_ensures(T::plus, (x, y), r1);
            let (x2, y2) = choose|x: T, y: T|
                a.yields(x) && b.yields(y) && #[trigger] call_ensures(T::plus, (x, y), r2);
            lemma_value_unique(*a, x1, x2);
            lemma_value_unique(*b, y1, y2);
        },
        Term::Difference(a, b) => {
            let (x1, y1) = choose|x: T, y: T|
                a.yields(x) && b.yields(y) && #[trigger] call_ensures(T::minus, (x, y), r1);
            let (x2, y2) = choose|x: T, y: T|
                a.yields(x) && b.yields(y) && #[trigger] call_ensures(T::minus, (x, y), r2);
            lemma_value_unique(*a, x1, x2);
            lemma_value_unique(*b, y1, y2);
        },
        Term::Product(a, b) => {
            let (x1, y1) = choose|x: T, y: T|
                a.yields(x) && b.yields(y) && #[trigger] call_ensures(T::times, (x, y), r1);
            let (x2, y2) = choose|x: T, y: T|
                a.yields(x) && b.yields(y) && #[trigger] call_ensures(T::times, (x, y), r2);
            lemma_value_unique(*a, x1, x2);
            lemma_value_unique(*b, y1, y2);
        },
        Term::Quotient(a, b) => {
            let (x1, y1) = choose|x: T, y: T|
                a.yields(x) && b.yields(y) && #[trigger] call_ensures(T::over, (x, y), r1);
            let (x2, y2) = choose|x: T, y: T|
                a.yields(x) && b.yields(y) && #[trigger] call_ensures(T::over, (x, y), r2);
            lemma_value_unique(*a, x1, x2);
            lemma_value_unique(*b, y1, y2);
        },
        Term::Negation(a) => {
            let x1 = choose|x: T| a.yields(x) && #[trigger] call_ensures(T::negated, (x,), r1);
            let x2 = choose|x: T| a.yields(x) && #[trigger] call_ensures(T::negated, (x,), r2);
            lemma_value_unique(*a, x1, x2);
        },
        Term::Exp(a) => {
            let x1 = choose|x: T| a.yields(x) && #[trigger] call_ensures(T::exp, (x,), r1);
            let x2 = choose|x: T| a.yields(x) && #[trigger] call_ensures(T::exp, (x,), r2);
            lemma_value_unique(*a, x1, x2);
        },
        Term::Sqrt(a) => {
            let x1 = choose|x: T| a.yields(x) && #[trigger] call_ensures(T::sqrt, (x,), r1);
            let x2 = choose|x: T| a.yields(x) && #[trigger] call_ensures(T::sqrt, (x,), r2);
            lemma_value_unique(*a, x1, x2);
        },
        Term::Sin(a) => {
            let x1 = choose|x: T| a.yields(x) && #[trigger] call_ensures(T::sin, (x,), r1);
            let x2 = choose|x: T| a.yields(x) && #[trigger] call_ensures(T::sin, (x,), r2);
            lemma_value_unique(*a, x1, x2);
        },
        Term::Cos(a) => {
            let x1 = choose|x: T| a.yields(x) && #[trigger] call_ensures(T::cos, (x,), r1);
            let x2 = choose|x: T| a.yields(x) && #[trigger] call_ensures(T::cos, (x,), r2);
            lemma_value_unique(*a, x1, x2);
        },
        Term::Power(a, b) => {
            let (x1, y1) = choose|x: T, y: T|
                a.yields(x) && b.yields(y) && #[trigger] call_ensures(T::powf, (x, y), r1);
            let (x2, y2) = choose|x: T, y: T|
                a.yields(x) && b.yields(y) && #[trigger] call_ensures(T::powf, (x, y), r2);
            lemma_value_unique(*a, x1, x2);
            lemma_value_unique(*b, y1, y2);
        },
        Term::IntPower(a, n) => {
            let (x1, k1) = choose|x: T, k: i32|
                a.yields(x) && k == n && #[trigger] call_ensures(T::powi, (x, k), r1);
            let (x2, k2) = choose|x: T, k: i32|
                a.yields(x) && k == n && #[trigger] call_ensures(T::powi, (x, k), r2);
            lemma_value_unique(*a, x1, x2);
        },
    }
}

} // verus!
