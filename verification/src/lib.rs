//! Autonomous control for spacecraft in a real-time space-combat simulation.
//!
//! Every quantity is a fixed-point integer in thousandths: positions and
//! velocities in thousandths of a world unit, angles in milliradians, engine
//! power in thousandths of full throttle. Directions are vectors; the angle of
//! a vector is never computed here. Where a decision needs such an angle the
//! caller supplies it, and the function is exact for every value supplied.

pub mod numeric;
pub mod vec2;
pub mod model;
pub mod compass;
pub mod commands;
pub mod propulsion;
pub mod targeting;
pub mod game_data;
pub mod control;
pub mod production;
