//! The shapes.
pub mod disk;
pub mod sphere;
pub mod triangle_mesh;
