//! The materials.
pub mod glass;
pub mod matte;
pub mod mirror;
pub mod plastic;
