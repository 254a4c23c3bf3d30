//! Reflection and transmission of smooth glass in one lobe.
use vstd::prelude::*;
use crate::scalar::Scalar;
use crate::geometry::vector::Vector3;
use crate::render::bxdf::{BxDFCategory, REFLECTION, SPECULAR, TRANSMISSION};
use crate::render::spectrum::Spectrum;
use crate::scene::material::TransportMode;

verus! {

#[derive(Clone, Copy, Debug)]
pub struct FresnelSpecular {
    pub color_reflected: Spectrum,
    pub color_transmitted: Spectrum,
    pub refraction: (Scalar, Scalar),
    pub mode: TransportMode,
}

impl FresnelSpecular {
    pub fn category(&self) -> (r: BxDFCategory)
        ensures
            r == BxDFCategory::of(REFLECTION | TRANSMISSION | SPECULAR),
    {
        BxDFCategory::from_bits(REFLECTION | TRANSMISSION | SPECULAR)
    }

    pub fn evaluate(&self, _outgoing: Vector3, _incoming: Vector3) -> (r: Spectrum)
        ensures
            r == Spectrum::black_spec(),
    {
        Spectrum::black()
    }

    /// Which of the two a sample takes: reflection where the sample's first
    /// coordinate is below the reflectance, transmission otherwise. The
    /// category of the sample follows the choice.
    pub fn branch(&self, sample_x: Scalar, reflectance: Scalar) -> (r: BxDFCategory)
        ensures
            r == if sample_x.lt_spec(reflectance) {
                BxDFCategory::of(SPECULAR | REFLECTION)
            } else {
                BxDFCategory::of(SPECULAR | TRANSMISSION)
            },
    {
        if sample_x.lt(reflectance) {
            BxDFCategory::from_bits(SPECULAR | REFLECTION)
        } else {
            BxDFCategory::from_bits(SPECULAR | TRANSMISSION)
        }
    }

    /// The indices in the order in which the light passes them: as given
    /// for light that leaves on the outside (`cos_outgoing > 0`), exchanged
    /// otherwise.
    pub fn ordered_indices(&self, cos_outgoing: Scalar) -> (r: (Scalar, Scalar))
        ensures
            r == if Scalar::zero_spec().lt_spec(cos_outgoing) {
                self.refraction
            } else {
                (self.refraction.1, self.refraction.0)
            },
    {
        if cos_outgoing.gt(Scalar::zero_value()) {
            self.refraction
        } else {
            (self.refraction.1, self.refraction.0)
        }
    }
}

} // verus!
