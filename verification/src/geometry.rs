//! Points, vectors, normals, rays, boxes and transforms.
pub mod point;
pub mod vector;
pub mod normal;
pub mod ray;
pub mod bounds;
pub mod error;
pub mod matrix;
pub mod transform;
pub mod interaction;
pub mod convert;
