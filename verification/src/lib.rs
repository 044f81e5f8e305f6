//! A sphere path tracer whose rendering core is verified.
//!
//! Scalars are fixed-point numbers: an `i64` raw value denoting
//! `raw / 65536` with saturation at the `i64` range, so every operation is
//! total and its result is stated exactly in the contracts.

pub mod camera;
pub mod fixed;
pub mod hittable;
pub mod material;
pub mod math;
pub mod raytracer;
