//! A minimal two-dimensional rigid-body simulation core.
//!
//! Point-mass bodies move under one constant gravitational field and are advanced
//! by semi-implicit Euler integration: a step first updates a body's velocity from
//! the force on it, then moves the body with the velocity it has just been given.
//! Bodies carry a shape for whoever draws them; the simulation never reads it.
//! There is no collision handling and no rotation.
//!
//! The core is generic over its number type, [`scalar::Scalar`]. It decides which
//! operations are applied to which operands and in which order, and proves that;
//! the numbers themselves come from the caller.
pub mod rigid_body;
pub mod scalar;
pub mod vector;
pub mod world;
