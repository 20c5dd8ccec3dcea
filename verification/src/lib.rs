//! Fixed-step integration of a flight vehicle's equations of motion.
//!
//! - [`integration`]: explicit Runge-Kutta schemes of any stage count, and the
//!   step of the simulation through them
//! - [`state`]: the physical state and its flattening into the vector that
//!   the integrator works on
//! - [`vehicle`]: engines, steering laws and the thrust acceleration
//! - [`atmosphere`]: temperature, pressure, density and speed of sound of a
//!   layered standard atmosphere
//! - [`scalar`], [`vector`], [`constants`]: the arithmetic all of this is
//!   written against
//!
//! The library is generic over the type of its numbers; see [`scalar`] for
//! how its contracts are stated.

pub mod atmosphere;
pub mod constants;
pub mod integration;
pub mod scalar;
pub mod state;
pub mod vector;
pub mod vehicle;
