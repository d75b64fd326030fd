//! A small offline ray tracer: one ray per pixel, the nearest surface it
//! meets, and direct light from a point light at the hit.
//!
//! The geometry is written over the scalar trait [`number::GenFloat`] and
//! every function states the value it returns over that trait's operations.
//! The geometric laws are proved for scalars that compute exactly
//! ([`number::exact_arithmetic`]).

pub mod number;
pub mod render;
