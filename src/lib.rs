//! The per-frame state logic of a small arcade game: a score tracker, an
//! entity registry, a repeating spawn timer, collision resolution, movement
//! from held keys, and a frame driver that runs them in a fixed order.
//!
//! Positions are held in thousandths of a field unit and time in
//! milliseconds, so that every update is exact integer arithmetic.

pub mod collision;
pub mod display;
pub mod edge;
pub mod game;
pub mod motion;
pub mod registry;
pub mod score;
pub mod spawn;
