//! Decision core of a sphere path tracer.
//!
//! The library holds every rule by which a ray's fate is decided: which root
//! of a sphere's quadratic counts as a hit, which surface of a scene is struck
//! first, whether a material scatters or absorbs, and when a light path ends.
//! Numbers are IEEE-754 single-precision values carried as their bit patterns;
//! the library orders and compares them, and leaves their arithmetic to the
//! caller.

pub mod camera;
pub mod estimator;
pub mod material;
pub mod objects;
pub mod ray;
pub mod scalar;
pub mod vec3;
