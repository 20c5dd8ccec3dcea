//! Physical constants of the standard atmosphere, each as the quotient of two
//! integers that writes its decimal value.

use vstd::prelude::*;
use crate::scalar::{Scalar, Term, whole};

verus! {

/// Standard gravity, 9.80665 m/s^2.
pub open spec fn std_gravity_term<T: Scalar>() -> Term<T> {
    whole(980665).over(whole(100000))
}

/// The molecular weight of air, 28.9644 g/mol.
pub open spec fn air_molecular_weight_term<T: Scalar>() -> Term<T> {
    whole(289644).over(whole(10000))
}

/// The universal gas constant, 8314.32 J/(kmol K).
pub open spec fn gas_constant_term<T: Scalar>() -> Term<T> {
    whole(831432).over(whole(100))
}

/// The ratio of specific heats of air, 1.40.
pub open spec fn air_kappa_term<T: Scalar>() -> Term<T> {
    whole(140).over(whole(100))
}

/// The specific gas constant of air in J/(kg K): the universal gas constant
/// over the molecular weight.
pub open spec fn air_gas_constant_term<T: Scalar>() -> Term<T> {
    gas_constant_term().over(air_molecular_weight_term())
}

/// Standard gravity in m/s^2.
pub fn std_gravity<T: Scalar>() -> (g: T)
    ensures
        std_gravity_term().yields(g),
{
    let g = T::from_int(980665).over(T::from_int(100000));
    proof {
        reveal_with_fuel(Term::yields, 2);
    }
    g
}

/// The ratio of specific heats of air.
pub fn air_kappa<T: Scalar>() -> (kappa: T)
    ensures
        air_kappa_term().yields(kappa),
{
    let kappa = T::from_int(140).over(T::from_int(100));
    proof {
        reveal_with_fuel(Term::yields, 2);
    }
    kappa
}

/// The specific gas constant of air in J/(kg K).
pub fn air_gas_constant<T: Scalar>() -> (r: T)
    ensures
        air_gas_constant_term().yields(r),
{
    let gas_constant = T::from_int(831432).over(T::from_int(100));
    let weight = T::from_int(289644).over(T::from_int(10000));
    let r = gas_constant.over(weight);
    proof {
        reveal_with_fuel(Term::yields, 2);
        assert(gas_constant_term::<T>().yields(gas_constant));
        assert(air_molecular_weight_term::<T>().yields(weight));
    }
    r
}

} // verus!
