//! The physical state of the vehicle and its flattening into the vector the
//! integrator works on.

use vstd::prelude::*;

verus! {

/// The flat vector of a physical state: position, velocity, mass, attitude.
pub type NumericState<T> = [T; 10];

/// The state of the vehicle at one instant.
#[derive(Clone, Copy, Debug, PartialEq)]
pub struct PhysicalState<T> {
    /// Seconds elapsed
    pub time: T,
    pub position: [T; 3],
    pub velocity: [T; 3],
    pub mass: T,
    /// Orientation angles
    pub attitude: [T; 3],
}

impl<T: Copy> PhysicalState<T> {
    /// The flat vector of this state. Time is not part of it: it is the
    /// independent variable.
    pub open spec fn flat(self) -> NumericState<T> {
        [
            self.position[0],
            self.position[1],
            self.position[2],
            self.velocity[0],
            self.velocity[1],
            self.velocity[2],
            self.mass,
            self.attitude[0],
            self.attitude[1],
            self.attitude[2],
        ]
    }

    /// The state at `time` whose flat vector is `v`.
    pub open spec fn assembled(time: T, v: NumericState<T>) -> PhysicalState<T> {
        PhysicalState {
            time,
            position: [v[0], v[1], v[2]],
            velocity: [v[3], v[4], v[5]],
            mass: v[6],
            attitude: [v[7], v[8], v[9]],
        }
    }

    /// Flattens the state.
    pub fn to_vector(&self) -> (v: NumericState<T>)
        ensures
            v == self.flat(),
    {
        let v = [
            self.position[0],
            self.position[1],
            self.position[2],
            self.velocity[0],
            self.velocity[1],
            self.velocity[2],
            self.mass,
            self.attitude[0],
            self.attitude[1],
            self.attitude[2],
        ];
        assert(v =~= self.flat());
        v
    }

    /// Reassembles the state at `time` from its flat vector.
    pub fn from_vector(time: T, v: &NumericState<T>) -> (state: Self)
        ensures
            state == Self::assembled(time, *v),
    {
        let state = PhysicalState {
            time,
            position: [v[0], v[1], v[2]],
            velocity: [v[3], v[4], v[5]],
            mass: v[6],
            attitude: [v[7], v[8], v[9]],
        };
        assert(state.position =~= Self::assembled(time, *v).position);
        assert(state.velocity =~= Self::assembled(time, *v).velocity);
        assert(state.attitude =~= Self::assembled(time, *v).attitude);
        state
    }

    /// Flattening a state and reassembling it at the state's own time gives
    /// the state back.
    pub proof fn lemma_round_trip(self)
        ensures
            Self::assembled(self.time, self.flat()) == self,
    {
        let back = Self::assembled(self.time, self.flat());
        assert(back.position =~= self.position);
        assert(back.velocity =~= self.velocity);
        assert(back.attitude =~= self.attitude);
    }

    /// Reassembling a vector and flattening the state gives the vector back,
    /// and the state carries the time it was given.
    pub proof fn lemma_vector_round_trip(time: T, v: NumericState<T>)
        ensures
            Self::assembled(time, v).flat() == v,
            Self::assembled(time, v).time == time,
    {
        assert(Self::assembled(time, v).flat() =~= v);
    }
}

} // verus!
