//! The vehicle: its engines, its steering law and the thrust acceleration
//! they give.

pub mod steering;

pub use steering::{Angular, Steering};

use vstd::prelude::*;
use crate::scalar::{
    compares, is_deterministic, lemma_value_unique, Scalar, Term, val, whole,
};
use crate::vector::{divided, is_divided, is_scaled, is_zero, scaled, sum, zeros};

verus! {

/// An engine as it is mounted and run.
#[derive(Clone, Copy, Debug, PartialEq)]
pub struct Engine<T> {
    // [pitch, yaw]
    incidence: [T; 2],
    throttle: T,
    thrust_vac: T,
    exit_area: T,
}

impl<T: Scalar> Engine<T> {
    /// The incidence angles `[pitch, yaw]`, in radians.
    pub closed spec fn incidence(self) -> [T; 2] {
        self.incidence
    }

    /// The throttle setting, a fraction of full thrust.
    pub closed spec fn throttle(self) -> T {
        self.throttle
    }

    /// The thrust in vacuum at full throttle.
    pub closed spec fn thrust_vac(self) -> T {
        self.thrust_vac
    }

    /// The area of the nozzle exit.
    pub closed spec fn exit_area(self) -> T {
        self.exit_area
    }

    /// An engine at full throttle.
    pub fn new(incidence: [T; 2], thrust_vac: T, exit_area: T) -> (engine: Self)
        ensures
            engine.incidence() == incidence,
            whole(1).yields(engine.throttle()),
            engine.thrust_vac() == thrust_vac,
            engine.exit_area() == exit_area,
    {
        Self { incidence, throttle: T::from_int(1), thrust_vac, exit_area }
    }

    /// Component `m` of the unit vector along which the engine pushes:
    /// `(cos(yaw) cos(pitch), sin(yaw), cos(yaw) sin(pitch))`.
    pub open spec fn direction(self, m: int) -> Term<T> {
        let pitch = val(self.incidence()[0]);
        let yaw = val(self.incidence()[1]);
        if m == 0 {
            yaw.cos().times(pitch.cos())
        } else if m == 1 {
            yaw.sin()
        } else {
            yaw.cos().times(pitch.sin())
        }
    }

    /// The size of the thrust at the ambient pressure `pressure_atmos`: what
    /// the throttle leaves of the vacuum thrust, less the pressure on the exit
    /// area.
    pub open spec fn magnitude(self, pressure_atmos: T) -> Term<T> {
        val(self.throttle()).times(val(self.thrust_vac())).minus(
            val(self.exit_area()).times(val(pressure_atmos)),
        )
    }

    /// `thrust` is the thrust vector at `pressure_atmos`: a direction times a
    /// magnitude, the same magnitude in every component.
    pub open spec fn thrusts(self, pressure_atmos: T, thrust: [T; 3]) -> bool {
        exists|direction: [T; 3], magnitude: T|
            {
                &&& forall|m: int| 0 <= m < 3 ==> self.direction(m).yields(#[trigger] direction[m])
                &&& self.magnitude(pressure_atmos).yields(magnitude)
                &&& #[trigger] is_scaled(direction, magnitude, thrust)
            }
    }

    /// The thrust of an engine without incidence lies along the first axis
    /// and has the size of the magnitude, wherever the arithmetic is exact on
    /// the values that occur: `one` is the cosine and `zero` the sine of both
    /// incidence angles, `one * one` is `one`, `one * zero` is `zero`, and a
    /// magnitude `x` gives `one * x == x` and `zero * x == zero`. Where the
    /// throttle leaves the vacuum thrust as it is, the first component is the
    /// vacuum thrust less the exit area times the pressure.
    pub proof fn lemma_axial_thrust(self, pressure_atmos: T, thrust: [T; 3], one: T, zero: T)
        requires
            self.thrusts(pressure_atmos, thrust),
            forall|k: int, r: T|
                0 <= k < 2 && #[trigger] call_ensures(T::cos, (self.incidence()[k],), r) ==> r
                    == one,
            forall|k: int, r: T|
                0 <= k < 2 && #[trigger] call_ensures(T::sin, (self.incidence()[k],), r) ==> r
                    == zero,
            forall|r: T| #[trigger] call_ensures(T::times, (one, one), r) ==> r == one,
            forall|r: T| #[trigger] call_ensures(T::times, (one, zero), r) ==> r == zero,
            forall|x: T, r: T|
                self.magnitude(pressure_atmos).yields(x) && #[trigger] call_ensures(
                    T::times,
                    (one, x),
                    r,
                ) ==> r == x,
            forall|x: T, r: T|
                self.magnitude(pressure_atmos).yields(x) && #[trigger] call_ensures(
                    T::times,
                    (zero, x),
                    r,
                ) ==> r == zero,
        ensures
            self.magnitude(pressure_atmos).yields(thrust[0]),
            thrust[1] == zero,
            thrust[2] == zero,
            (forall|r: T| #[trigger]
                call_ensures(T::times, (self.throttle(), self.thrust_vac()), r) ==> r
                    == self.thrust_vac()) ==> val(self.thrust_vac()).minus(
                val(self.exit_area()).times(val(pressure_atmos)),
            ).yields(thrust[0]),
    {
        reveal_with_fuel(Term::yields, 3);
        let (direction, magnitude) = choose|direction: [T; 3], magnitude: T|
            {
                &&& forall|m: int| 0 <= m < 3 ==> self.direction(m).yields(#[trigger] direction[m])
                &&& self.magnitude(pressure_atmos).yields(magnitude)
                &&& #[trigger] is_scaled(direction, magnitude, thrust)
            };
        assert(self.direction(0).yields(direction[0]));
        assert(self.direction(1).yields(direction[1]));
        assert(self.direction(2).yields(direction[2]));
        assert(direction[0] == one);
        assert(direction[1] == zero);
        assert(direction[2] == zero);
        assert(call_ensures(T::times, (direction[0], magnitude), thrust[0]));
        assert(call_ensures(T::times, (direction[1], magnitude), thrust[1]));
        assert(call_ensures(T::times, (direction[2], magnitude), thrust[2]));
    }

    /// The engine has one thrust at a pressure, where the operations of `T`
    /// are functions of their operands.
    pub proof fn lemma_thrust_unique(self, pressure_atmos: T, thrust1: [T; 3], thrust2: [T; 3])
        requires
            is_deterministic::<T>(),
            self.thrusts(pressure_atmos, thrust1),
            self.thrusts(pressure_atmos, thrust2),
        ensures
            thrust1 == thrust2,
    {
        let (d1, m1) = choose|direction: [T; 3], magnitude: T|
            {
                &&& forall|m: int| 0 <= m < 3 ==> self.direction(m).yields(#[trigger] direction[m])
                &&& self.magnitude(pressure_atmos).yields(magnitude)
                &&& #[trigger] is_scaled(direction, magnitude, thrust1)
            };
        let (d2, m2) = choose|direction: [T; 3], magnitude: T|
            {
                &&& forall|m: int| 0 <= m < 3 ==> self.direction(m).yields(#[trigger] direction[m])
                &&& self.magnitude(pressure_atmos).yields(magnitude)
                &&& #[trigger] is_scaled(direction, magnitude, thrust2)
            };
        lemma_value_unique(self.magnitude(pressure_atmos), m1, m2);
        assert forall|m: int| 0 <= m < 3 implies thrust1[m] == thrust2[m] by {
            lemma_value_unique(self.direction(m), d1[m], d2[m]);
            assert(call_ensures(T::times, (d1[m], m1), thrust1[m]));
            assert(call_ensures(T::times, (d2[m], m2), thrust2[m]));
        }
        assert(thrust1 =~= thrust2);
    }

    /// The thrust vector of the engine at the ambient pressure
    /// `pressure_atmos`.
    pub fn thrust(&self, pressure_atmos: T) -> (thrust: [T; 3])
        ensures
            self.thrusts(pressure_atmos, thrust),
    {
        let direction = [
            self.incidence[1].cos().times(self.incidence[0].cos()),
            self.incidence[1].sin(),
            self.incidence[1].cos().times(self.incidence[0].sin()),
        ];
        let magnitude = self.throttle.times(self.thrust_vac).minus(
            self.exit_area.times(pressure_atmos),
        );
        let thrust = scaled(&direction, magnitude);
        proof {
            reveal_with_fuel(Term::yields, 4);
            assert(self.direction(0).yields(direction[0]));
            assert(self.direction(1).yields(direction[1]));
            assert(self.direction(2).yields(direction[2]));
            assert(self.magnitude(pressure_atmos).yields(magnitude));
            assert(is_scaled(direction, magnitude, thrust));
        }
        thrust
    }
}

/// Component `m` of `0 + vectors[0] + ... + vectors[n - 1]`, summed from the
/// left.
pub open spec fn total<T: Scalar>(vectors: Seq<[T; 3]>, m: int, n: nat) -> Term<T>
    decreases n,
{
    if n == 0 {
        whole(0)
    } else {
        total(vectors, m, (n - 1) as nat).plus(val(vectors[n - 1][m]))
    }
}

/// A vehicle: its mass, its engines in their order and its steering law.
#[derive(Clone, Debug)]
pub struct Vehicle<T> {
    pub attitude: [T; 3],
    pub position: [T; 3],
    pub velocity: [T; 3],
    mass: T,
    engines: Vec<Engine<T>>,
    steering: Steering<T>,
}

impl<T: Scalar> Vehicle<T> {
    /// The orientation angles.
    pub closed spec fn attitude(self) -> [T; 3] {
        self.attitude
    }

    /// The position.
    pub closed spec fn position(self) -> [T; 3] {
        self.position
    }

    /// The velocity.
    pub closed spec fn velocity(self) -> [T; 3] {
        self.velocity
    }

    /// The mass of the vehicle.
    pub closed spec fn mass(self) -> T {
        self.mass
    }

    /// The engines, in their order.
    pub closed spec fn engines(self) -> Seq<Engine<T>> {
        self.engines@
    }

    /// The steering law.
    pub closed spec fn steering(self) -> Steering<T> {
        self.steering
    }

    /// A vehicle at rest at the origin, with no rotation.
    ///
    /// The mass is taken as given; one that is not positive makes
    /// [`Vehicle::thrust`] meaningless, and [`Vehicle::has_positive_mass`]
    /// tells.
    pub fn new(mass: T, engines: Vec<Engine<T>>, steering: Steering<T>) -> (vehicle: Self)
        ensures
            is_zero(vehicle.attitude()),
            is_zero(vehicle.position()),
            is_zero(vehicle.velocity()),
            vehicle.mass() == mass,
            vehicle.engines() == engines@,
            vehicle.steering() == steering,
    {
        Self { attitude: zeros(), position: zeros(), velocity: zeros(), mass, engines, steering }
    }

    /// `positive` tells whether the mass is positive: zero compares as at or
    /// below the mass, and the mass does not compare as at or below zero.
    pub open spec fn mass_is_positive(self, positive: bool) -> bool {
        exists|zero: T, above: bool, below: bool|
            {
                &&& whole(0).yields(zero)
                &&& #[trigger] compares(zero, self.mass(), above)
                &&& #[trigger] compares(self.mass(), zero, below)
                &&& positive == (above && !below)
            }
    }

    /// Whether the mass is positive has one answer, where the operations of
    /// `T` are functions of their operands.
    pub proof fn lemma_mass_sign_unique(self, positive1: bool, positive2: bool)
        requires
            is_deterministic::<T>(),
            self.mass_is_positive(positive1),
            self.mass_is_positive(positive2),
        ensures
            positive1 == positive2,
    {
        let (zero1, above1, below1) = choose|zero: T, above: bool, below: bool|
            {
                &&& whole(0).yields(zero)
                &&& #[trigger] compares(zero, self.mass(), above)
                &&& #[trigger] compares(self.mass(), zero, below)
                &&& positive1 == (above && !below)
            };
        let (zero2, above2, below2) = choose|zero: T, above: bool, below: bool|
            {
                &&& whole(0).yields(zero)
                &&& #[trigger] compares(zero, self.mass(), above)
                &&& #[trigger] compares(self.mass(), zero, below)
                &&& positive2 == (above && !below)
            };
        lemma_value_unique(whole(0), zero1, zero2);
    }

    /// Whether the mass is positive, as [`Vehicle::thrust`] needs it for a
    /// result with a physical meaning.
    pub fn has_positive_mass(&self) -> (positive: bool)
        ensures
            self.mass_is_positive(positive),
    {
        let zero = T::from_int(0);
        let above = zero.less_eq(self.mass);
        let below = self.mass.less_eq(zero);
        proof {
            reveal_with_fuel(Term::yields, 1);
            assert(whole::<T>(0).yields(zero));
            assert(compares(zero, self.mass(), above) && compares(self.mass(), zero, below));
        }
        above && !below
    }

    /// `thrusts` are the thrusts of the engines at `pressure_atmos`, `force`
    /// is their sum from zero, in the engines' order, and `acceleration` is
    /// that force over the mass.
    pub open spec fn accelerates_through(
        self,
        pressure_atmos: T,
        thrusts: Seq<[T; 3]>,
        force: [T; 3],
        acceleration: [T; 3],
    ) -> bool {
        &&& thrusts.len() == self.engines().len()
        &&& forall|e: int|
            0 <= e < thrusts.len() ==> self.engines()[e].thrusts(
                pressure_atmos,
                #[trigger] thrusts[e],
            )
        &&& forall|m: int|
            0 <= m < 3 ==> total(thrusts, m, thrusts.len()).yields(#[trigger] force[m])
        &&& is_divided(force, self.mass(), acceleration)
    }

    /// `acceleration` is the thrust acceleration at `pressure_atmos`: the
    /// thrusts of the engines, summed from zero in their order, over the mass.
    pub open spec fn accelerates(self, pressure_atmos: T, acceleration: [T; 3]) -> bool {
        exists|thrusts: Seq<[T; 3]>, force: [T; 3]|
            self.accelerates_through(pressure_atmos, thrusts, force, acceleration)
    }

    /// The vehicle has one thrust acceleration at a pressure, where the
    /// operations of `T` are functions of their operands.
    pub proof fn lemma_thrust_unique(
        self,
        pressure_atmos: T,
        acceleration1: [T; 3],
        acceleration2: [T; 3],
    )
        requires
            is_deterministic::<T>(),
            self.accelerates(pressure_atmos, acceleration1),
            self.accelerates(pressure_atmos, acceleration2),
        ensures
            acceleration1 == acceleration2,
    {
        let (thrusts1, force1) = choose|thrusts: Seq<[T; 3]>, force: [T; 3]|
            self.accelerates_through(pressure_atmos, thrusts, force, acceleration1);
        let (thrusts2, force2) = choose|thrusts: Seq<[T; 3]>, force: [T; 3]|
            self.accelerates_through(pressure_atmos, thrusts, force, acceleration2);
        assert forall|e: int| 0 <= e < thrusts1.len() implies thrusts1[e] == thrusts2[e] by {
            self.engines()[e].lemma_thrust_unique(pressure_atmos, thrusts1[e], thrusts2[e]);
        }
        assert(thrusts1 =~= thrusts2);
        assert forall|m: int| 0 <= m < 3 implies acceleration1[m] == acceleration2[m] by {
            lemma_value_unique(total(thrusts1, m, thrusts1.len()), force1[m], force2[m]);
            assert(call_ensures(T::over, (force1[m], self.mass()), acceleration1[m]));
            assert(call_ensures(T::over, (force2[m], self.mass()), acceleration2[m]));
        }
        assert(acceleration1 =~= acceleration2);
    }

    /// The acceleration that the engines give the vehicle at the ambient
    /// pressure `pressure_atmos`. With a mass that is not positive the result
    /// is what the division gives, and has no physical meaning.
    pub fn thrust(&self, pressure_atmos: T) -> (acceleration: [T; 3])
        ensures
            self.accelerates(pressure_atmos, acceleration),
    {
        let mut force: [T; 3] = zeros();
        let ghost mut thrusts: Seq<[T; 3]> = Seq::empty();
        let mut e: usize = 0;
        proof {
            reveal_with_fuel(Term::yields, 2);
        }
        while e < self.engines.len()
            invariant
                e <= self.engines.len(),
                thrusts.len() == e,
                forall|j: int|
                    0 <= j < e ==> self.engines@[j].thrusts(pressure_atmos, #[trigger] thrusts[j]),
                forall|m: int|
                    0 <= m < 3 ==> total(thrusts, m, e as nat).yields(#[trigger] force[m]),
            decreases self.engines.len() - e,
        {
            let thrust = self.engines[e].thrust(pressure_atmos);
            let next = sum(&force, &thrust);
            proof {
                let longer = thrusts.push(thrust);
                assert forall|m: int| 0 <= m < 3 implies total(longer, m, (e + 1) as nat).yields(
                    #[trigger] next[m],
                ) by {
                    reveal_with_fuel(Term::yields, 2);
                    lemma_total_prefix(thrusts, longer, m, e as nat);
                    assert(total(thrusts, m, e as nat).yields(force[m]));
                    assert(call_ensures(T::plus, (force[m], thrust[m]), next[m]));
                }
                thrusts = longer;
            }
            force = next;
            e += 1;
        }
        let acceleration = divided(&force, self.mass);
        proof {
            assert(self.accelerates_through(pressure_atmos, thrusts, force, acceleration));
        }
        acceleration
    }
}

/// A total of the first `n` vectors does not depend on later ones.
pub proof fn lemma_total_prefix<T: Scalar>(v1: Seq<[T; 3]>, v2: Seq<[T; 3]>, m: int, n: nat)
    requires
        forall|j: int| 0 <= j < n ==> v1[j] == v2[j],
    ensures
        total(v1, m, n) == total(v2, m, n),
    decreases n,
{
    if n > 0 {
        lemma_total_prefix(v1, v2, m, (n - 1) as nat);
    }
}

} // verus!
