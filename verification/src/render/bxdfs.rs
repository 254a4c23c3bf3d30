//! The scattering lobes.
pub mod fresnel;
pub mod lambert;
pub mod microfacet;
pub mod oren_nayar;
pub mod specular;
