//! Glossy lobes over a statistical model of surface facets.
use vstd::prelude::*;
use crate::scalar::Scalar;
use crate::render::bxdf::{BxDFCategory, GLOSSY, REFLECTION, TRANSMISSION};
use crate::render::fresnel::Fresnel;
use crate::render::spectrum::Spectrum;
use crate::scene::material::TransportMode;

verus! {

#[derive(Clone, Copy, Debug)]
pub struct Beckmann {
    pub azimuthal_x: Scalar,
    pub azimuthal_y: Scalar,
}

#[derive(Clone, Copy, Debug)]
pub struct TrowbridgeReitz {
    pub azimuthal_x: Scalar,
    pub azimuthal_y: Scalar,
}

/// The distribution of facet normals.
#[derive(Clone, Copy, Debug)]
pub enum MicrofacetDistributionInstance {
    Beckmann(Beckmann),
    TrowbridgeReitz(TrowbridgeReitz),
}

impl MicrofacetDistributionInstance {
    /// The two widths of the distribution, along x and along y.
    pub fn azimuths(&self) -> (r: (Scalar, Scalar))
        ensures
            r == match *self {
                MicrofacetDistributionInstance::Beckmann(d) => (d.azimuthal_x, d.azimuthal_y),
                MicrofacetDistributionInstance::TrowbridgeReitz(d) => (d.azimuthal_x, d.azimuthal_y),
            },
    {
        match self {
            MicrofacetDistributionInstance::Beckmann(d) => (d.azimuthal_x, d.azimuthal_y),
            MicrofacetDistributionInstance::TrowbridgeReitz(d) => (d.azimuthal_x, d.azimuthal_y),
        }
    }
}

#[derive(Clone, Copy, Debug)]
pub struct MicrofacetReflection {
    pub color: Spectrum,
    pub distribution: MicrofacetDistributionInstance,
    pub fresnel: Fresnel,
}

impl MicrofacetReflection {
    pub fn category(&self) -> (r: BxDFCategory)
        ensures
            r == BxDFCategory::of(REFLECTION | GLOSSY),
    {
        BxDFCategory::from_bits(REFLECTION | GLOSSY)
    }
}

#[derive(Clone, Copy, Debug)]
pub struct MicrofacetTransmission {
    pub color: Spectrum,
    pub distribution: MicrofacetDistributionInstance,
    pub refraction: (Scalar, Scalar),
    pub fresnel: Fresnel,
    pub mode: TransportMode,
}

impl MicrofacetTransmission {
    pub fn category(&self) -> (r: BxDFCategory)
        ensures
            r == BxDFCategory::of(TRANSMISSION | GLOSSY),
    {
        BxDFCategory::from_bits(TRANSMISSION | GLOSSY)
    }
}

} // verus!
