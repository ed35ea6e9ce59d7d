//! The verified core of a Monte-Carlo path tracer.
//!
//! Everything the renderer decides stands here: which root of a sphere's
//! quadratic is the hit, when a sphere march gives up, which of many hits is
//! nearest, how a material answers a ray, how a path ends, in which order
//! pixels are produced. The numbers the decisions rest on are IEEE-754
//! doubles that the host evaluates; this crate holds each of them as its
//! 64-bit pattern (see [`scalar::Scalar`]) and compares patterns exactly as
//! the hardware compares the doubles. Points, vectors, rays, colours and
//! materials are type parameters: the core moves them around and never looks
//! inside.
//!
//! - [`scalar`]: doubles as bit patterns, their order and its proof.
//! - [`objects`]: the hit of a ray on a sphere, a plane and a distance field.
//! - [`hit`]: hit records, and the nearest of many hits.
//! - [`material`]: bounces, and the scattering rule of each material.
//! - [`sky`]: the sun's disk in the sky.
//! - [`scene`]: the scene and its integrator, from one ray to the frame.
//! - [`laws`]: what holds of every render.
//! - [`sdf`]: shapes placed in the frame of their parent.
//! - [`config`]: defaults of a scene description.

pub mod config;
pub mod hit;
pub mod laws;
pub mod material;
pub mod objects;
pub mod scalar;
pub mod scene;
pub mod sdf;
pub mod sky;
