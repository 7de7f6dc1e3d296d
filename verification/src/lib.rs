//! A small stochastic ray tracer over exact fixed-point arithmetic: spheres,
//! diffuse and specular materials, a depth-bounded recursive radiance
//! estimator, a pinhole camera, and a sampling driver that averages jittered
//! rays per pixel into gamma-corrected 8-bit color.

pub mod camera;
pub mod color;
pub mod fixed;
pub mod hits;
pub mod material;
pub mod objects;
pub mod ray;
pub mod render;
pub mod rng;
pub mod vec3;
