//! The discrete core of a physically based ray tracer.
//!
//! Floating-point values are carried by their IEEE-754 bit patterns (see
//! [`scalar::Scalar`]). Everything that can be decided by comparing,
//! negating, selecting or rearranging such values is verified here: the
//! hierarchy of bounding boxes and its traversal, the bookkeeping of
//! scattering lobes and the recipes of the materials, the decisions of the
//! ray-shape tests, the sequencing of pixels and samples, the film, and the
//! readers of command-line values and of mesh files. The arithmetic on the
//! values themselves is left to the caller, who hands its results in.
pub mod scalar;
pub mod value;
pub mod utils;
pub mod text;
pub mod geometry;
pub mod render;
pub mod scene;
pub mod options;
pub mod ply;
