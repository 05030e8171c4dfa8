//! A small path-tracing engine over saturating fixed-point arithmetic.
//!
//! Rays are cast from an eye point, intersected against spheres and planes,
//! and bounced recursively according to the surface material (diffuse,
//! glossy-reflective, or refractive), averaging many pseudo-random samples
//! per pixel.  All scalar quantities are `Fx` fixed-point numbers, so every
//! step of the computation has an exact mathematical description that the
//! contracts state and the proofs use.

pub mod color;
pub mod fixed;
pub mod hitable;
pub mod material;
pub mod random;
pub mod texture;
pub mod tracer;
pub mod vec_math;
