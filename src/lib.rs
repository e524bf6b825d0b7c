//! Simulation core of a top-down arcade shooter: a player moving around a map,
//! pursuers that chase and strike, projectiles with a pierce budget, timed
//! powerups, and the per-tick collision resolution and wave spawning.
//!
//! Units: positions and lengths are thousandths of a world unit, durations are
//! milliseconds, speeds are thousandths of a unit per second.

pub mod geometry;
pub mod utils;
pub mod particle;
pub mod bullet;
pub mod map;
pub mod powerup;
pub mod bertrand;
pub mod fabien;
pub mod game;
pub mod gamejolt;
