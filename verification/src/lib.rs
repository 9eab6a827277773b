//! A recursive Monte-Carlo path tracer over fixed-point arithmetic.
//!
//! Every scalar is a signed 64-bit integer holding a real value scaled by
//! `fixed::SCALE`. The geometry (sphere intersection), the material models
//! (Lambertian, Metal, Dielectric), the thin-lens camera and the radiance
//! integrator are all verified against exact integer specifications; only
//! the uniform random draws come from an outside crate, behind trusted
//! wrappers that state no more than the range of the result.

pub mod camera;
pub mod color;
pub mod fixed;
pub mod hittable;
pub mod material;
pub mod ray;
pub mod render;
pub mod scene;
pub mod scenes;
pub mod sphere;
pub mod sphere_laws;
pub mod util;
pub mod vec3;
