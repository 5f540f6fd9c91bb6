//! Simulation core of a vertical space shooter: entity spawning, formation
//! flight paths, projectile motion, and collision-driven combat, advanced
//! once per fixed time step.
//!
//! All quantities are kept in integer milliunits (one thousandth of a world
//! unit); times are in milliseconds. The presentation layer converts at the
//! boundary.

pub mod geom;
pub mod fixmath;
mod rng;
pub mod formation;
pub mod entity;
pub mod player;
pub mod world;
pub mod motion;
pub mod combat;

pub use geom::Vec2;
