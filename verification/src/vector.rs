//! Componentwise arithmetic on fixed-length vectors of scalars.

use vstd::prelude::*;
use crate::scalar::Scalar;

verus! {

/// Every component of `r` is a sum `a[m] + b[m]`.
pub open spec fn is_sum<T: Scalar, const N: usize>(a: [T; N], b: [T; N], r: [T; N]) -> bool {
    forall|m: int| 0 <= m < N ==> call_ensures(T::plus, (a[m], b[m]), #[trigger] r[m])
}

/// Every component of `r` is a product `v[m] * s`.
pub open spec fn is_scaled<T: Scalar, const N: usize>(v: [T; N], s: T, r: [T; N]) -> bool {
    forall|m: int| 0 <= m < N ==> call_ensures(T::times, (v[m], s), #[trigger] r[m])
}

/// Every component of `r` is a quotient `v[m] / s`.
pub open spec fn is_divided<T: Scalar, const N: usize>(v: [T; N], s: T, r: [T; N]) -> bool {
    forall|m: int| 0 <= m < N ==> call_ensures(T::over, (v[m], s), #[trigger] r[m])
}

/// Every component of `r` is the scalar of the integer 0.
pub open spec fn is_zero<T: Scalar, const N: usize>(r: [T; N]) -> bool {
    forall|m: int| 0 <= m < N ==> call_ensures(T::from_int, (0i32,), #[trigger] r[m])
}

/// The vector whose components all stand for 0.
pub fn zeros<T: Scalar, const N: usize>() -> (r: [T; N])
    ensures
        is_zero(r),
{
    let zero = T::from_int(0);
    [zero; N]
}

/// The componentwise sum `a + b`.
pub fn sum<T: Scalar, const N: usize>(a: &[T; N], b: &[T; N]) -> (r: [T; N])
    ensures
        is_sum(*a, *b, r),
{
    let mut r: [T; N] = *a;
    let mut m: usize = 0;
    while m < N
        invariant
            m <= N,
            forall|j: int| 0 <= j < m ==> call_ensures(T::plus, (a[j], b[j]), #[trigger] r[j]),
        decreases N - m,
    {
        r[m] = a[m].plus(b[m]);
        m += 1;
    }
    r
}

/// The vector `v` with every component multiplied by `s` on the right.
pub fn scaled<T: Scalar, const N: usize>(v: &[T; N], s: T) -> (r: [T; N])
    ensures
        is_scaled(*v, s, r),
{
    let mut r: [T; N] = *v;
    let mut m: usize = 0;
    while m < N
        invariant
            m <= N,
            forall|j: int| 0 <= j < m ==> call_ensures(T::times, (v[j], s), #[trigger] r[j]),
        decreases N - m,
    {
        r[m] = v[m].times(s);
        m += 1;
    }
    r
}

/// The vector `v` with every component divided by `s`.
pub fn divided<T: Scalar, const N: usize>(v: &[T; N], s: T) -> (r: [T; N])
    ensures
        is_divided(*v, s, r),
{
    let mut r: [T; N] = *v;
    let mut m: usize = 0;
    while m < N
        invariant
            m <= N,
            forall|j: int| 0 <= j < m ==> call_ensures(T::over, (v[j], s), #[trigger] r[j]),
        decreases N - m,
    {
        r[m] = v[m].over(s);
        m += 1;
    }
    r
}

} // verus!
