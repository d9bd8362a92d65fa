//! A path-tracing renderer over fixed-point arithmetic.
//!
//! Scene geometry, the bounding-volume hierarchy, materials, importance
//! sampling and the recursive integrator all run on 16.16 fixed-point
//! scalars, so every step of the light transport has an exact integer
//! meaning that its contract states. Floating point, file handling and
//! thread pools stay outside the library: callers hand in plain values
//! (trigonometric factors of a camera or a rotation, decoded image bytes,
//! a seed) and fan pure per-pixel work out however they like.

pub mod fx;
pub mod rng;
pub mod vec3;
pub mod quat;
pub mod aabb;
pub mod ray;
pub mod texture;
pub mod sample;
pub mod uv;
pub mod material;
pub mod hittable;
pub mod pdf;
pub mod bvh;
pub mod cam;
pub mod render;
pub mod laws;
