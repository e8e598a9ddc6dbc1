//! A real-time 2D rigid-body physics engine for a puzzle world: a main ball,
//! static and dynamic circles and polygons, flag pickups, and user-placed
//! hinge/rigid bindings between shapes.
//!
//! All simulation arithmetic runs on a 32.32 fixed-point scalar (see [`fx`]),
//! so every numeric step of the pipeline is a total, exactly specified
//! function and the whole engine verifies.

pub mod fx;
pub mod geometry;
pub mod shape;
pub mod compute;
pub mod binding;
pub mod levels;
pub mod physics;
pub mod laws;
