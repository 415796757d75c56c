//! A real-time 2D particle simulation kernel: circular bodies in a
//! rectangular arena, accelerated by a constant force, damped by an optional
//! velocity-squared resistance, reflected at the walls, and colliding
//! pairwise under a 1D elastic approximation applied to each axis. All
//! quantities are fixed-point integers (1000 sub-units per pixel and per
//! second), so every formula is stated and proved exactly.

pub mod fp;
pub mod arena;
pub mod particle;
pub mod collide;
pub mod rng;
pub mod sim;
