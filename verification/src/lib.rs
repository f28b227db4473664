//! Simulation core of a breakout-style arcade toy.
//!
//! A fixed-timestep loop moves entities by their velocities, moves one
//! input-controlled entity and clamps it inside the arena, and reflects the
//! velocity of the single kinetic entity on axis-aligned collisions.
//! Coordinates, extents and velocities are integers; every tick is a pure,
//! deterministic computation whose effect is stated in the contracts.

pub mod collide;
pub mod geom;
pub mod laws;
pub mod systems;
pub mod world;
