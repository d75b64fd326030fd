//! The rendering pipeline: vectors, rays, shapes, materials, camera, scene
//! and the renderer.

pub mod algebra;
pub mod camera;
pub mod color;
pub mod light;
pub mod material;
pub mod picture;
pub mod plane;
pub mod ray;
pub mod renderable;
pub mod renderer;
pub mod rotation;
pub mod scene;
pub mod shape;
pub mod spectrum;
pub mod sphere;
pub mod triangle;
pub mod vector;
