//! A small rigid-body dynamics kernel: exact rational scalars, 2/3/4-component
//! vectors, 2x2/3x3/4x4 matrices, quaternions, geometric shapes, rigid bodies
//! and a fixed-timestep gravity integrator.

pub mod rat;
pub mod vec2d;
pub mod vec3d;
pub mod vec4d;
pub mod mat2;
pub mod mat3;
pub mod mat4;
pub mod quat;
pub mod shape;
pub mod body;
pub mod scene;
pub mod laws;
