//! Combat-and-movement simulation core of a tower-defense game.
//!
//! The library decides where mobile hostile units are along a track, how
//! stationary defenders pick targets and smoothly aim at them, how damage and
//! leveling propagate, and how wave spawning paces an encounter.  Rendering,
//! audio, input and engine wiring are outside collaborators: the core consumes
//! positions, time deltas and simple commands, and emits state changes and
//! events.
//!
//! All quantities are integers with fixed conventions:
//! - world coordinates are `i64` units,
//! - fine-grained positions (projectiles, aim points) are milli-units,
//! - time is in milliseconds,
//! - speeds are in milli-units per second, so that `speed * dt_ms` is an exact
//!   micro-unit distance with no rounding drift,
//! - controller gains and percentages are scaled integers (see each module).

pub mod enemy;
pub mod exp_level;
pub mod geometry;
pub mod laser;
pub mod pid_controller;
pub mod player;
pub mod registry;
pub mod projectile;
pub mod towers;
pub mod track;
pub mod waves;
pub mod world;
