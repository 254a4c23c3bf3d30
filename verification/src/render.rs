//! Colour, scattering lobes, the camera, the film and the sample sequence.
pub mod spectrum;
pub mod shading_coordinates;
pub mod fresnel;
pub mod bxdfs;
pub mod bxdf;
pub mod sampler;
pub mod film;
pub mod camera;
pub mod integrator;
