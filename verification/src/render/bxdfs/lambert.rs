//! Perfectly diffuse lobes.
use vstd::prelude::*;
use crate::geometry::point::Point2;
use crate::geometry::vector::Vector3;
use crate::render::bxdf::{BxDFCategory, DIFFUSE, REFLECTION, TRANSMISSION};
use crate::render::spectrum::Spectrum;

verus! {

/// Reflection that is scattered uniformly over the hemisphere.
#[derive(Clone, Copy, Debug)]
pub struct LambertianReflection {
    pub color: Spectrum,
}

impl LambertianReflection {
    pub fn category(&self) -> (r: BxDFCategory)
        ensures
            r == BxDFCategory::of(REFLECTION | DIFFUSE),
    {
        BxDFCategory::from_bits(REFLECTION | DIFFUSE)
    }

    /// The share of the light from one direction that leaves over the
    /// hemisphere: the lobe's colour, whatever the direction and samples.
    pub fn hemispherical_directional_reflectance(&self, _o: Vector3, _s: &[Point2]) -> (r: Spectrum)
        ensures
            r == self.color,
    {
        self.color
    }

    /// The share of the light from the hemisphere that leaves over the
    /// hemisphere: the lobe's colour as well.
    pub fn hemispherical_hemispherical_reflectance(&self, _s1: &[Point2], _s2: &[Point2]) -> (r: Spectrum)
        ensures
            r == self.color,
    {
        self.color
    }
}

/// Transmission that is scattered uniformly over the far hemisphere.
#[derive(Clone, Copy, Debug)]
pub struct LambertianTransmission {
    pub color: Spectrum,
}

impl LambertianTransmission {
    pub fn category(&self) -> (r: BxDFCategory)
        ensures
            r == BxDFCategory::of(TRANSMISSION | DIFFUSE),
    {
        BxDFCategory::from_bits(TRANSMISSION | DIFFUSE)
    }
}

} // verus!
