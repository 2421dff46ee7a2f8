//! A recursive ray-tracing renderer over verified fixed-point arithmetic.
//!
//! Scenes are flat lists of spheres with Lambertian, metal or dielectric
//! materials; rays are intersected against the scene and colors gathered
//! recursively up to a fixed depth, with a sky gradient on a miss.
//! All real-valued quantities are fixed-point numbers (see [`fixed`]), so
//! every arithmetic step has an exact, machine-checked description.

pub mod camera;
pub mod color;
pub mod fixed;
pub mod hittable;
pub mod material;
pub mod random;
pub mod ray;
pub mod render;
pub mod scene;
pub mod vec3;
