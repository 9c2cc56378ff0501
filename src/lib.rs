//! A ray tracer that computes in 16.16 fixed point, for targets without a
//! floating-point unit: the numbers and their approximated functions, vector
//! and matrix algebra, spheres and planes, materials, a camera, a path tracer,
//! and error-diffusion dithering into RGB555.

pub mod fixed;
pub mod literal;
pub mod rng;
pub mod vec3;
pub mod matrix;
pub mod ray;
pub mod hittable;
pub mod material;
pub mod camera;
pub mod caster;
pub mod dither;
pub mod scene;
