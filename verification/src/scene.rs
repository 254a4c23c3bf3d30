//! Shapes, materials, lights and the structures that hold them.
pub mod light;
pub mod material;
pub mod materials;
pub mod primitive;
pub mod arrangement;
pub mod construction;
pub mod traversal;
pub mod search;
pub mod scene;
pub mod selection;
pub mod shape;
pub mod shapes;
