//! Integration schemes for systems of first-order differential equations, and
//! the step of the simulation through them.

pub mod runge_kutta;

use vstd::prelude::*;
use crate::integration::runge_kutta::{
    derivative_of, is_classical, is_single_valued, lemma_classical_unique, rk4, RungeKutta, Stage,
};
use crate::scalar::{is_deterministic, lemma_value_unique, Scalar, Term, val};
use crate::state::{NumericState, PhysicalState};

verus! {

/// The integration schemes on offer.
#[derive(Clone, Copy, Debug, PartialEq, Eq)]
pub enum Integrator {
    /// The classical Runge-Kutta scheme of order four
    RK4,
}

/// The derivative relation on flat vectors that a right-hand side on physical
/// states gives: `d` is a value that `func` can return for the state at time
/// `t` whose flat vector is `y`.
pub open spec fn state_derivative<T: Copy, F: Fn(&PhysicalState<T>) -> NumericState<T>>(
    func: F,
) -> spec_fn(T, NumericState<T>, NumericState<T>) -> bool {
    |t: T, y: NumericState<T>, d: NumericState<T>|
        call_ensures(func, (&PhysicalState::assembled(t, y),), d)
}

impl Integrator {
    /// `next` is the state one step of size `stepsize` after `state`, for the
    /// scheme `self` and the right-hand side `func`.
    pub open spec fn advances<T: Scalar, F: Fn(&PhysicalState<T>) -> NumericState<T>>(
        self,
        func: F,
        state: PhysicalState<T>,
        stepsize: T,
        next: PhysicalState<T>,
    ) -> bool {
        match self {
            Integrator::RK4 => {
                &&& val(state.time).plus(val(stepsize)).yields(next.time)
                &&& exists|scheme: RungeKutta<T, 4>, stages: Seq<Stage<T, 10>>|
                    is_classical(scheme) && #[trigger] scheme.advances(
                        state_derivative(func),
                        state.time,
                        state.flat(),
                        stepsize,
                        stages,
                        next.flat(),
                    )
            },
        }
    }

    /// A step of the simulation has one result, where the operations of `T`
    /// and the right-hand side are functions of their arguments.
    pub proof fn lemma_step_unique<T: Scalar, F: Fn(&PhysicalState<T>) -> NumericState<T>>(
        self,
        func: F,
        state: PhysicalState<T>,
        stepsize: T,
        next1: PhysicalState<T>,
        next2: PhysicalState<T>,
    )
        requires
            is_deterministic::<T>(),
            is_single_valued(state_derivative(func)),
            self.advances(func, state, stepsize, next1),
            self.advances(func, state, stepsize, next2),
        ensures
            next1 == next2,
    {
        let derivative = state_derivative(func);
        let (scheme1, stages1) = choose|scheme: RungeKutta<T, 4>, stages: Seq<Stage<T, 10>>|
            is_classical(scheme) && #[trigger] scheme.advances(
                derivative,
                state.time,
                state.flat(),
                stepsize,
                stages,
                next1.flat(),
            );
        let (scheme2, stages2) = choose|scheme: RungeKutta<T, 4>, stages: Seq<Stage<T, 10>>|
            is_classical(scheme) && #[trigger] scheme.advances(
                derivative,
                state.time,
                state.flat(),
                stepsize,
                stages,
                next2.flat(),
            );
        lemma_classical_unique(scheme1, scheme2);
        scheme1.lemma_step_unique(
            derivative,
            state.time,
            state.flat(),
            stepsize,
            stages1,
            next1.flat(),
            stages2,
            next2.flat(),
        );
        lemma_value_unique(val(state.time).plus(val(stepsize)), next1.time, next2.time);
        next1.lemma_round_trip();
        next2.lemma_round_trip();
    }

    /// One step of the simulation: flattens `state`, integrates the flat
    /// vector over `stepsize` with `func` as the right-hand side, each
    /// evaluation point reassembled into a physical state, and reassembles the
    /// result at time `state.time + stepsize`.
    ///
    /// `func` returns the time derivative of the flat vector of the state it
    /// is given.
    pub fn step<T: Scalar, F>(&self, func: F, state: &PhysicalState<T>, stepsize: T) -> (next:
        PhysicalState<T>) where F: Fn(&PhysicalState<T>) -> NumericState<T>
        requires
            forall|s: &PhysicalState<T>| call_requires(func, (s,)),
        ensures
            self.advances(func, *state, stepsize, next),
    {
        match self {
            Integrator::RK4 => {
                let scheme = rk4::<T>();
                let y0 = state.to_vector();
                let func = &func;
                let f = |time: T, y: &NumericState<T>| -> (d: NumericState<T>)
                    ensures
                        call_ensures(*func, (&PhysicalState::assembled(time, *y),), d),
                    {
                        let at = PhysicalState::from_vector(time, y);
                        func(&at)
                    };
                let ghost narrow = derivative_of(f);
                let y1 = scheme.step(f, state.time, &y0, stepsize);
                let time = state.time.plus(stepsize);
                let next = PhysicalState::from_vector(time, &y1);
                proof {
                    reveal_with_fuel(Term::yields, 2);
                    PhysicalState::lemma_vector_round_trip(time, y1);
                    let stages = choose|stages: Seq<Stage<T, 10>>|
                        scheme.advances(narrow, state.time, y0, stepsize, stages, y1);
                    scheme.lemma_advances_under_wider_derivative(
                        narrow,
                        state_derivative(*func),
                        state.time,
                        y0,
                        stepsize,
                        stages,
                        y1,
                    );
                    assert(scheme.advances(
                        state_derivative(*func),
                        state.time,
                        state.flat(),
                        stepsize,
                        stages,
                        next.flat(),
                    ));
                }
                next
            },
        }
    }
}

} // verus!
