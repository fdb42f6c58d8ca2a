//! A Monte-Carlo path tracer over exact fixed-point arithmetic.
//!
//! The renderer shoots many rays per pixel into a scene of spheres, follows
//! each ray through material-dependent bounces, and averages the sampled
//! colors into an 8-bit raster.  Every numeric operation is a saturating
//! fixed-point computation whose result is stated exactly in its contract.

pub mod camera;
pub mod fx;
pub mod material;
pub mod ray;
pub mod render;
pub mod scene;
pub mod sphere;
pub mod utils;
pub mod vec3;
