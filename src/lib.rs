//! The simulation core of a small arcade shooter: bodies that drift and
//! bounce off the screen edges, box collisions between bullets, enemies and
//! the player, waves of enemies, and the death and respawn cycle.
//!
//! All quantities are fixed-point integers: positions in billionths of a
//! pixel, velocities in thousandths of a pixel per second and time steps in
//! microseconds, so that one step of motion is an exact integer product.

pub mod geometry;
pub mod entity;
pub mod world;
pub mod spawn;
pub mod laws;
