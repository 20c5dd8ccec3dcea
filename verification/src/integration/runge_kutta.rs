//! Explicit Runge-Kutta schemes of any stage count, given by their Butcher
//! tableau.

use vstd::prelude::*;
use crate::scalar::{
    is_deterministic, lemma_value_unique, tests_equal, Scalar, Term, val, whole,
};
use crate::vector::{is_scaled, scaled, sum, zeros};

verus! {

/// What one stage of a step evaluated: the point at which the derivative was
/// taken, the derivative found there, and the increment made of it.
///
/// Stages occur in specifications only.
pub struct Stage<T, const R: usize> {
    pub time: T,
    pub input: [T; R],
    pub slope: [T; R],
    pub increment: [T; R],
}

/// The increments of a run of stages, in stage order.
pub open spec fn increments<T, const R: usize>(stages: Seq<Stage<T, R>>) -> Seq<[T; R]> {
    Seq::new(stages.len(), |j: int| stages[j].increment)
}

/// Component `m` of `0 + ks[0] * coeffs[0] + ... + ks[n - 1] * coeffs[n - 1]`,
/// summed from the left.
pub open spec fn weighted_sum<T: Scalar, const R: usize>(
    coeffs: Seq<T>,
    ks: Seq<[T; R]>,
    m: int,
    n: nat,
) -> Term<T>
    decreases n,
{
    if n == 0 {
        whole(0)
    } else {
        weighted_sum(coeffs, ks, m, (n - 1) as nat).plus(
            val(ks[n - 1][m]).times(val(coeffs[n - 1])),
        )
    }
}

/// A weighted sum of the first `n` increments does not depend on later ones.
pub proof fn lemma_weighted_sum_prefix<T: Scalar, const R: usize>(
    coeffs: Seq<T>,
    ks1: Seq<[T; R]>,
    ks2: Seq<[T; R]>,
    m: int,
    n: nat,
)
    requires
        forall|j: int| 0 <= j < n ==> ks1[j] == ks2[j],
    ensures
        weighted_sum(coeffs, ks1, m, n) == weighted_sum(coeffs, ks2, m, n),
    decreases n,
{
    if n > 0 {
        lemma_weighted_sum_prefix(coeffs, ks1, ks2, m, (n - 1) as nat);
    }
}

/// The derivative relation of an executable right-hand side: `d` is a value
/// that `f` can return at time `t` and state `y`.
pub open spec fn derivative_of<T, F: Fn(T, &[T; R]) -> [T; R], const R: usize>(f: F) -> spec_fn(
    T,
    [T; R],
    [T; R],
) -> bool {
    |t: T, y: [T; R], d: [T; R]| call_ensures(f, (t, &y), d)
}

/// The derivative relation gives at most one derivative at each point.
pub open spec fn is_single_valued<T, const R: usize>(
    derivative: spec_fn(T, [T; R], [T; R]) -> bool,
) -> bool {
    forall|t: T, y: [T; R], d1: [T; R], d2: [T; R]|
        #[trigger] derivative(t, y, d1) && #[trigger] derivative(t, y, d2) ==> d1 == d2
}

/// The weighted sum of the first `n` of the increments `ks`, summed from zero.
fn weighted<T: Scalar, const R: usize, const D: usize>(
    coeffs: &[T; D],
    ks: &[[T; R]; D],
    n: usize,
) -> (s: [T; R])
    requires
        n <= D,
    ensures
        forall|m: int|
            0 <= m < R ==> weighted_sum(coeffs@, ks@, m, n as nat).yields(#[trigger] s[m]),
{
    let mut s: [T; R] = zeros();
    let mut j: usize = 0;
    while j < n
        invariant
            j <= n <= D,
            forall|m: int|
                0 <= m < R ==> weighted_sum(coeffs@, ks@, m, j as nat).yields(#[trigger] s[m]),
        decreases n - j,
    {
        let term = scaled(&ks[j], coeffs[j]);
        let next = sum(&s, &term);
        proof {
            assert forall|m: int| 0 <= m < R implies weighted_sum(
                coeffs@,
                ks@,
                m,
                (j + 1) as nat,
            ).yields(#[trigger] next[m]) by {
                reveal_with_fuel(Term::yields, 3);
                assert(weighted_sum(coeffs@, ks@, m, j as nat).yields(s[m]));
                assert(call_ensures(T::times, (ks[j as int][m], coeffs[j as int]), term[m]));
                assert(call_ensures(T::plus, (s[m], term[m]), next[m]));
            }
        }
        s = next;
        j += 1;
    }
    s
}

/// An explicit Runge-Kutta scheme of `D` stages: the coupling matrix `a`, the
/// weights `b` and the nodes `c` of its Butcher tableau.
///
/// Only the part of `a` below the diagonal takes part in a step, so every
/// tableau is stepped as an explicit scheme; [`RungeKutta::is_explicit`] tells
/// whether the rest of `a` is zero, as it is written for such a scheme.
#[derive(Clone, Copy, Debug, PartialEq)]
pub struct RungeKutta<T, const D: usize> {
    a: [[T; D]; D],
    b: [T; D],
    c: [T; D],
}

impl<T: Scalar, const D: usize> RungeKutta<T, D> {
    /// The coupling matrix, by rows.
    pub closed spec fn coupling(self) -> [[T; D]; D] {
        self.a
    }

    /// The weights of the stages in the result.
    pub closed spec fn weights(self) -> [T; D] {
        self.b
    }

    /// The nodes: the fractions of the step at which the stages are taken.
    pub closed spec fn nodes(self) -> [T; D] {
        self.c
    }

    /// The scheme with coupling matrix `a`, weights `b` and nodes `c`.
    pub fn new(a: [[T; D]; D], b: [T; D], c: [T; D]) -> (scheme: Self)
        ensures
            scheme.coupling() == a,
            scheme.weights() == b,
            scheme.nodes() == c,
    {
        Self { a, b, c }
    }

    /// Every entry of the coupling matrix on or above the diagonal tests
    /// equal to `zero`.
    pub open spec fn is_strictly_lower(self, zero: T) -> bool {
        forall|i: int, j: int|
            0 <= i <= j < D ==> tests_equal(#[trigger] self.coupling()[i][j], zero, true)
    }

    /// Some entry of the coupling matrix on or above the diagonal tests
    /// unequal to `zero`.
    pub open spec fn has_upper_entry(self, zero: T) -> bool {
        exists|i: int, j: int|
            0 <= i <= j < D && tests_equal(#[trigger] self.coupling()[i][j], zero, false)
    }

    /// `explicit` tells whether the coupling matrix is zero on and above its
    /// diagonal, `zero` being the zero it was held against.
    pub open spec fn tests_explicit(self, zero: T, explicit: bool) -> bool {
        &&& whole(0).yields(zero)
        &&& if explicit {
            self.is_strictly_lower(zero)
        } else {
            self.has_upper_entry(zero)
        }
    }

    /// Whether the tableau is explicit has one answer, where the operations
    /// of `T` are functions of their operands.
    pub proof fn lemma_explicit_unique(self, zero1: T, explicit1: bool, zero2: T, explicit2: bool)
        requires
            is_deterministic::<T>(),
            self.tests_explicit(zero1, explicit1),
            self.tests_explicit(zero2, explicit2),
        ensures
            explicit1 == explicit2,
    {
        lemma_value_unique(whole(0), zero1, zero2);
        if explicit1 != explicit2 {
            assert(self.is_strictly_lower(zero1) && self.has_upper_entry(zero1));
            let (i, j) = choose|i: int, j: int|
                0 <= i <= j < D && tests_equal(#[trigger] self.coupling()[i][j], zero1, false);
            assert(tests_equal(self.coupling()[i][j], zero1, true));
        }
    }

    /// Whether the tableau is that of an explicit scheme as it stands: the
    /// coupling matrix is zero on and above its diagonal.
    pub fn is_explicit(&self) -> (explicit: bool)
        ensures
            exists|zero: T| self.tests_explicit(zero, explicit),
    {
        let zero = T::from_int(0);
        proof {
            reveal_with_fuel(Term::yields, 1);
            assert(whole::<T>(0).yields(zero));
        }
        let mut i: usize = 0;
        while i < D
            invariant
                i <= D,
                whole(0).yields(zero),
                forall|p: int, q: int|
                    0 <= p < i && p <= q < D ==> tests_equal(#[trigger] self.a[p][q], zero, true),
            decreases D - i,
        {
            let mut j: usize = i;
            while j < D
                invariant
                    i < D,
                    i <= j <= D,
                    whole(0).yields(zero),
                    forall|p: int, q: int|
                        0 <= p < i && p <= q < D ==> tests_equal(
                            #[trigger] self.a[p][q],
                            zero,
                            true,
                        ),
                    forall|q: int|
                        i <= q < j ==> tests_equal(#[trigger] self.a[i as int][q], zero, true),
                decreases D - j,
            {
                if !self.a[i][j].equals(zero) {
                    proof {
                        assert(tests_equal(self.coupling()[i as int][j as int], zero, false));
                        assert(self.tests_explicit(zero, false));
                    }
                    return false;
                }
                j += 1;
            }
            i += 1;
        }
        proof {
            assert(self.tests_explicit(zero, true));
        }
        true
    }

    /// The time of stage `i`: `t0 + c[i] * h`.
    pub open spec fn stage_time(self, t0: T, h: T, i: int) -> Term<T> {
        val(t0).plus(val(self.nodes()[i]).times(val(h)))
    }

    /// Component `m` of the state handed to stage `i`:
    /// `y0 + (0 + ks[0] * a[i][0] + ... + ks[i - 1] * a[i][i - 1])`.
    pub open spec fn stage_input<const R: usize>(
        self,
        y0: [T; R],
        ks: Seq<[T; R]>,
        i: int,
        m: int,
    ) -> Term<T> {
        val(y0[m]).plus(weighted_sum(self.coupling()[i]@, ks, m, i as nat))
    }

    /// Component `m` of the state after the step:
    /// `y0 + (0 + ks[0] * b[0] + ... + ks[D - 1] * b[D - 1])`.
    pub open spec fn combination<const R: usize>(self, y0: [T; R], ks: Seq<[T; R]>, m: int) -> Term<
        T,
    > {
        val(y0[m]).plus(weighted_sum(self.weights()@, ks, m, D as nat))
    }

    /// Stage `i` of `stages` is what the scheme evaluates there, given the
    /// stages before it: its time and input are values of `stage_time` and
    /// `stage_input`, its slope is a derivative at that point, and its
    /// increment is the slope times `h`.
    pub open spec fn stage_holds<const R: usize>(
        self,
        derivative: spec_fn(T, [T; R], [T; R]) -> bool,
        t0: T,
        y0: [T; R],
        h: T,
        stages: Seq<Stage<T, R>>,
        i: int,
    ) -> bool {
        let stage = stages[i];
        &&& self.stage_time(t0, h, i).yields(stage.time)
        &&& forall|m: int|
            0 <= m < R ==> self.stage_input(y0, increments(stages), i, m).yields(
                #[trigger] stage.input[m],
            )
        &&& derivative(stage.time, stage.input, stage.slope)
        &&& is_scaled(stage.slope, h, stage.increment)
    }

    /// `y1` is the state that one step of size `h` from `(t0, y0)` reaches
    /// through the `D` stages `stages`.
    pub open spec fn advances<const R: usize>(
        self,
        derivative: spec_fn(T, [T; R], [T; R]) -> bool,
        t0: T,
        y0: [T; R],
        h: T,
        stages: Seq<Stage<T, R>>,
        y1: [T; R],
    ) -> bool {
        &&& stages.len() == D
        &&& forall|i: int| 0 <= i < D ==> self.stage_holds(derivative, t0, y0, h, stages, i)
        &&& forall|m: int|
            0 <= m < R ==> self.combination(y0, increments(stages), m).yields(#[trigger] y1[m])
    }

    /// A stage that holds keeps holding when later stages are recorded.
    proof fn lemma_stage_holds_after_push<const R: usize>(
        self,
        derivative: spec_fn(T, [T; R], [T; R]) -> bool,
        t0: T,
        y0: [T; R],
        h: T,
        stages: Seq<Stage<T, R>>,
        next: Stage<T, R>,
        i: int,
    )
        requires
            0 <= i < stages.len(),
            self.stage_holds(derivative, t0, y0, h, stages, i),
        ensures
            self.stage_holds(derivative, t0, y0, h, stages.push(next), i),
    {
        let longer = stages.push(next);
        assert(longer[i] == stages[i]);
        assert forall|m: int| 0 <= m < R implies self.stage_input(
            y0,
            increments(longer),
            i,
            m,
        ).yields(#[trigger] longer[i].input[m]) by {
            lemma_weighted_sum_prefix(
                self.coupling()[i]@,
                increments(stages),
                increments(longer),
                m,
                i as nat,
            );
        }
    }

    /// A step explained by one derivative relation is explained by every
    /// relation that contains it.
    pub proof fn lemma_advances_under_wider_derivative<const R: usize>(
        self,
        narrow: spec_fn(T, [T; R], [T; R]) -> bool,
        wide: spec_fn(T, [T; R], [T; R]) -> bool,
        t0: T,
        y0: [T; R],
        h: T,
        stages: Seq<Stage<T, R>>,
        y1: [T; R],
    )
        requires
            self.advances(narrow, t0, y0, h, stages, y1),
            forall|t: T, y: [T; R], d: [T; R]| #[trigger] narrow(t, y, d) ==> wide(t, y, d),
        ensures
            self.advances(wide, t0, y0, h, stages, y1),
    {
        assert forall|i: int| 0 <= i < D implies self.stage_holds(wide, t0, y0, h, stages, i) by {
            assert(self.stage_holds(narrow, t0, y0, h, stages, i));
        }
    }

    /// The state handed to stage `i` depends on the increments of the stages
    /// before it and on no other: two runs that agree on the stages `0..i`
    /// hand stage `i` the same formula.
    pub proof fn lemma_stage_input_depends_on_earlier_stages<const R: usize>(
        self,
        y0: [T; R],
        ks1: Seq<[T; R]>,
        ks2: Seq<[T; R]>,
        i: int,
        m: int,
    )
        requires
            0 <= i,
            forall|j: int| 0 <= j < i ==> ks1[j] == ks2[j],
        ensures
            self.stage_input(y0, ks1, i, m) == self.stage_input(y0, ks2, i, m),
    {
        lemma_weighted_sum_prefix(self.coupling()[i]@, ks1, ks2, m, i as nat);
    }

    /// Where the arithmetic and the derivative are functions of their
    /// arguments, the first `n` stages of a step are determined.
    proof fn lemma_stages_unique<const R: usize>(
        self,
        derivative: spec_fn(T, [T; R], [T; R]) -> bool,
        t0: T,
        y0: [T; R],
        h: T,
        stages1: Seq<Stage<T, R>>,
        stages2: Seq<Stage<T, R>>,
        n: int,
    )
        requires
            is_deterministic::<T>(),
            is_single_valued(derivative),
            0 <= n <= stages1.len(),
            n <= stages2.len(),
            forall|i: int| 0 <= i < n ==> self.stage_holds(derivative, t0, y0, h, stages1, i),
            forall|i: int| 0 <= i < n ==> self.stage_holds(derivative, t0, y0, h, stages2, i),
        ensures
            forall|i: int| 0 <= i < n ==> stages1[i] == stages2[i],
        decreases n,
    {
        if n > 0 {
            let i = n - 1;
            self.lemma_stages_unique(derivative, t0, y0, h, stages1, stages2, i);
            let a = stages1[i];
            let b = stages2[i];
            assert(self.stage_holds(derivative, t0, y0, h, stages1, i));
            assert(self.stage_holds(derivative, t0, y0, h, stages2, i));
            lemma_value_unique(self.stage_time(t0, h, i), a.time, b.time);
            assert forall|m: int| 0 <= m < R implies a.input[m] == b.input[m] by {
                lemma_weighted_sum_prefix(
                    self.coupling()[i]@,
                    increments(stages1),
                    increments(stages2),
                    m,
                    i as nat,
                );
                lemma_value_unique(
                    self.stage_input(y0, increments(stages1), i, m),
                    a.input[m],
                    b.input[m],
                );
            }
            assert(a.input =~= b.input);
            assert(a.slope == b.slope);
            assert forall|m: int| 0 <= m < R implies a.increment[m] == b.increment[m] by {
                assert(call_ensures(T::times, (a.slope[m], h), a.increment[m]));
                assert(call_ensures(T::times, (b.slope[m], h), b.increment[m]));
            }
            assert(a.increment =~= b.increment);
        }
    }

    /// A step has one result: where the arithmetic of `T` and the derivative
    /// are functions of their arguments, two runs from the same time and state
    /// with the same step size pass through the same stages and end in the
    /// same state.
    pub proof fn lemma_step_unique<const R: usize>(
        self,
        derivative: spec_fn(T, [T; R], [T; R]) -> bool,
        t0: T,
        y0: [T; R],
        h: T,
        stages1: Seq<Stage<T, R>>,
        y1: [T; R],
        stages2: Seq<Stage<T, R>>,
        y2: [T; R],
    )
        requires
            is_deterministic::<T>(),
            is_single_valued(derivative),
            self.advances(derivative, t0, y0, h, stages1, y1),
            self.advances(derivative, t0, y0, h, stages2, y2),
        ensures
            stages1 == stages2,
            y1 == y2,
    {
        self.lemma_stages_unique(derivative, t0, y0, h, stages1, stages2, D as int);
        assert(stages1 =~= stages2);
        assert forall|m: int| 0 <= m < R implies y1[m] == y2[m] by {
            lemma_value_unique(self.combination(y0, increments(stages1), m), y1[m], y2[m]);
        }
        assert(y1 =~= y2);
    }

    /// One step of size `h` from time `t0` and state `y0`.
    ///
    /// The derivative `f` is evaluated once per stage, in stage order: stage
    /// `i` at time `t0 + c[i] * h` and state `y0 + sum of k[j] * a[i][j]` over
    /// the stages `j < i`, where `k[j] = f(..) * h` is the increment of stage
    /// `j`. The result is `y0 + sum of k[i] * b[i]` over all stages.
    pub fn step<F, const R: usize>(&self, f: F, t0: T, y0: &[T; R], h: T) -> (y1: [T; R]) where
        F: Fn(T, &[T; R]) -> [T; R],

        requires
            forall|t: T, y: &[T; R]| call_requires(f, (t, y)),
        ensures
            exists|stages: Seq<Stage<T, R>>|
                self.advances(derivative_of(f), t0, *y0, h, stages, y1),
    {
        let mut k: [[T; R]; D] = [zeros(); D];
        let ghost mut stages: Seq<Stage<T, R>> = Seq::empty();
        let mut i: usize = 0;
        while i < D
            invariant
                i <= D,
                stages.len() == i,
                forall|t: T, y: &[T; R]| call_requires(f, (t, y)),
                forall|j: int| 0 <= j < i ==> k@[j] == #[trigger] stages[j].increment,
                forall|j: int|
                    0 <= j < i ==> self.stage_holds(derivative_of(f), t0, *y0, h, stages, j),
            decreases D - i,
        {
            let offset = weighted(&self.a[i], &k, i);
            let input = sum(y0, &offset);
            let time = t0.plus(self.c[i].times(h));
            let slope = f(time, &input);
            let increment = scaled(&slope, h);
            let ghost stage = Stage { time, input, slope, increment };
            let ghost longer = stages.push(stage);
            proof {
                reveal_with_fuel(Term::yields, 3);
                assert(self.stage_time(t0, h, i as int).yields(time));
                assert forall|m: int| 0 <= m < R implies self.stage_input(
                    *y0,
                    increments(longer),
                    i as int,
                    m,
                ).yields(#[trigger] input[m]) by {
                    lemma_weighted_sum_prefix(
                        self.coupling()[i as int]@,
                        k@,
                        increments(longer),
                        m,
                        i as nat,
                    );
                    assert(weighted_sum(self.a[i as int]@, k@, m, i as nat).yields(offset[m]));
                    assert(call_ensures(T::plus, (y0[m], offset[m]), input[m]));
                }
                assert(self.stage_holds(derivative_of(f), t0, *y0, h, longer, i as int));
                assert forall|j: int| 0 <= j < i implies self.stage_holds(
                    derivative_of(f),
                    t0,
                    *y0,
                    h,
                    longer,
                    j,
                ) by {
                    self.lemma_stage_holds_after_push(
                        derivative_of(f),
                        t0,
                        *y0,
                        h,
                        stages,
                        stage,
                        j,
                    );
                }
                stages = longer;
            }
            k[i] = increment;
            i += 1;
        }
        let offset = weighted(&self.b, &k, D);
        let y1 = sum(y0, &offset);
        proof {
            reveal_with_fuel(Term::yields, 3);
            assert(k@ =~= increments(stages));
            assert forall|m: int| 0 <= m < R implies self.combination(
                *y0,
                increments(stages),
                m,
            ).yields(#[trigger] y1[m]) by {
                assert(weighted_sum(self.b@, k@, m, D as nat).yields(offset[m]));
                assert(call_ensures(T::plus, (y0[m], offset[m]), y1[m]));
            }
            assert(self.advances(derivative_of(f), t0, *y0, h, stages, y1));
        }
        y1
    }
}

/// The tableau of `scheme` is that of the classical scheme of order four:
///
/// ```text
/// a = [[0, 0, 0, 0], [1/2, 0, 0, 0], [0, 1/2, 0, 0], [0, 0, 1, 0]]
/// b = [1/6, 1/3, 1/3, 1/6]
/// c = [0, 1/2, 1/2, 1]
/// ```
pub open spec fn is_classical<T: Scalar>(scheme: RungeKutta<T, 4>) -> bool {
    let zero = whole::<T>(0);
    let one = whole::<T>(1);
    let half = whole::<T>(1).over(whole(2));
    let third = whole::<T>(1).over(whole(3));
    let sixth = whole::<T>(1).over(whole(6));
    let a = scheme.coupling();
    let b = scheme.weights();
    let c = scheme.nodes();
    &&& zero.yields(a[0][0]) && zero.yields(a[0][1]) && zero.yields(a[0][2]) && zero.yields(a[0][3])
    &&& half.yields(a[1][0]) && zero.yields(a[1][1]) && zero.yields(a[1][2]) && zero.yields(a[1][3])
    &&& zero.yields(a[2][0]) && half.yields(a[2][1]) && zero.yields(a[2][2]) && zero.yields(a[2][3])
    &&& zero.yields(a[3][0]) && zero.yields(a[3][1]) && one.yields(a[3][2]) && zero.yields(a[3][3])
    &&& sixth.yields(b[0]) && third.yields(b[1]) && third.yields(b[2]) && sixth.yields(b[3])
    &&& zero.yields(c[0]) && half.yields(c[1]) && half.yields(c[2]) && one.yields(c[3])
}

/// There is one classical tableau, where the operations of `T` are functions
/// of their operands.
pub proof fn lemma_classical_unique<T: Scalar>(s1: RungeKutta<T, 4>, s2: RungeKutta<T, 4>)
    requires
        is_deterministic::<T>(),
        is_classical(s1),
        is_classical(s2),
    ensures
        s1 == s2,
{
    let zero = whole::<T>(0);
    let one = whole::<T>(1);
    let half = whole::<T>(1).over(whole(2));
    let third = whole::<T>(1).over(whole(3));
    let sixth = whole::<T>(1).over(whole(6));
    assert forall|i: int, j: int| 0 <= i < 4 && 0 <= j < 4 implies s1.a[i][j] == s2.a[i][j] by {
        if (i == 1 && j == 0) || (i == 2 && j == 1) {
            lemma_value_unique(half, s1.a[i][j], s2.a[i][j]);
        } else if i == 3 && j == 2 {
            lemma_value_unique(one, s1.a[i][j], s2.a[i][j]);
        } else {
            lemma_value_unique(zero, s1.a[i][j], s2.a[i][j]);
        }
    }
    assert forall|i: int| 0 <= i < 4 implies s1.a[i] == s2.a[i] by {
        assert(s1.a[i] =~= s2.a[i]);
    }
    assert(s1.a =~= s2.a);
    lemma_value_unique(sixth, s1.b[0], s2.b[0]);
    lemma_value_unique(third, s1.b[1], s2.b[1]);
    lemma_value_unique(third, s1.b[2], s2.b[2]);
    lemma_value_unique(sixth, s1.b[3], s2.b[3]);
    assert(s1.b =~= s2.b);
    lemma_value_unique(zero, s1.c[0], s2.c[0]);
    lemma_value_unique(half, s1.c[1], s2.c[1]);
    lemma_value_unique(half, s1.c[2], s2.c[2]);
    lemma_value_unique(one, s1.c[3], s2.c[3]);
    assert(s1.c =~= s2.c);
}

/// The classical Runge-Kutta scheme of four stages and order four.
pub fn rk4<T: Scalar>() -> (scheme: RungeKutta<T, 4>)
    ensures
        is_classical(scheme),
{
    let zero = T::from_int(0);
    let one = T::from_int(1);
    let half = T::from_int(1).over(T::from_int(2));
    let third = T::from_int(1).over(T::from_int(3));
    let sixth = T::from_int(1).over(T::from_int(6));
    proof {
        reveal_with_fuel(Term::yields, 2);
        assert(whole::<T>(0).yields(zero));
        assert(whole::<T>(1).yields(one));
        assert(whole::<T>(1).over(whole(2)).yields(half));
        assert(whole::<T>(1).over(whole(3)).yields(third));
        assert(whole::<T>(1).over(whole(6)).yields(sixth));
    }
    RungeKutta::new(
        [
            [zero, zero, zero, zero],
            [half, zero, zero, zero],
            [zero, half, zero, zero],
            [zero, zero, one, zero],
        ],
        [sixth, third, third, sixth],
        [zero, half, half, one],
    )
}

} // verus!
