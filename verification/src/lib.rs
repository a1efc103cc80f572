//! An offline Monte-Carlo path tracer over fixed-point arithmetic.
//!
//! Scalars are `i64` values scaled by 2^16 (see [`fixed`]); the scene is a
//! bounding-volume hierarchy over spheres; materials scatter rays by the
//! Lambertian, metallic and dielectric laws; the output is an ASCII PPM
//! raster.

pub mod aabb;
pub mod bvh;
pub mod camera;
pub mod config;
pub mod fixed;
pub mod hittable;
pub mod materials;
pub mod moving_sphere;
pub mod perlin;
pub mod ray;
pub mod render;
pub mod rng;
pub mod sphere;
pub mod textures;
pub mod trig;
pub mod vec3;
