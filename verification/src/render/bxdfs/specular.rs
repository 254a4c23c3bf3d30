//! Perfect mirrors and perfectly smooth glass.
use vstd::prelude::*;
use crate::scalar::Scalar;
use crate::geometry::vector::Vector3;
use crate::render::bxdf::{BxDFCategory, REFLECTION, SPECULAR, TRANSMISSION};
use crate::render::fresnel::Fresnel;
use crate::render::shading_coordinates::mirrored;
use crate::render::spectrum::Spectrum;
use crate::scene::material::TransportMode;

verus! {

#[derive(Clone, Copy, Debug)]
pub struct SpecularReflection {
    pub color_scale: Spectrum,
    pub fresnel_properties: Fresnel,
}

impl SpecularReflection {
    pub fn category(&self) -> (r: BxDFCategory)
        ensures
            r == BxDFCategory::of(SPECULAR | REFLECTION),
    {
        BxDFCategory::from_bits(SPECULAR | REFLECTION)
    }

    /// A mirror scatters nothing between two arbitrary directions.
    pub fn evaluate(&self, _outgoing: Vector3, _incoming: Vector3) -> (r: Spectrum)
        ensures
            r == Spectrum::black_spec(),
    {
        Spectrum::black()
    }

    /// The one direction that a mirror reflects `outgoing` into, with
    /// probability 1.
    pub fn incoming(&self, outgoing: Vector3) -> (r: (Vector3, Scalar))
        ensures
            r.0 == (Vector3 { x: outgoing.x.neg_spec(), y: outgoing.y.neg_spec(), z: outgoing.z }),
            r.1.bits == crate::scalar::ONE_BITS,
    {
        (mirrored(outgoing), Scalar::one())
    }

    /// The density of a given pair of directions: zero, since only the
    /// mirror direction is ever produced.
    pub fn probability_distribution(&self, _outgoing: Vector3, _incoming: Vector3) -> (r: Scalar)
        ensures
            r.bits == 0,
    {
        Scalar::zero_value()
    }
}

#[derive(Clone, Copy, Debug)]
pub struct SpecularTransmission {
    pub color: Spectrum,
    pub fresnel_properties: Fresnel,
    pub refraction_indices: (Scalar, Scalar),
    pub transport_mode: TransportMode,
}

impl SpecularTransmission {
    pub open spec fn new_spec(color: Spectrum, refraction_indices: (Scalar, Scalar), mode: TransportMode) -> Self {
        SpecularTransmission {
            color,
            fresnel_properties: Fresnel::Dialectric {
                eta_parallel: refraction_indices.0,
                eta_perpendicular: refraction_indices.1,
            },
            refraction_indices,
            transport_mode: mode,
        }
    }

    /// Transmission through the boundary between the two indices, with the
    /// dielectric reflectance of that same boundary.
    pub fn new(color: Spectrum, refraction_indices: (Scalar, Scalar), mode: TransportMode) -> (r: Self)
        ensures
            r == Self::new_spec(color, refraction_indices, mode),
    {
        SpecularTransmission {
            color,
            fresnel_properties: Fresnel::Dialectric {
                eta_parallel: refraction_indices.0,
                eta_perpendicular: refraction_indices.1,
            },
            refraction_indices,
            transport_mode: mode,
        }
    }

    pub fn category(&self) -> (r: BxDFCategory)
        ensures
            r == BxDFCategory::of(SPECULAR | TRANSMISSION),
    {
        BxDFCategory::from_bits(SPECULAR | TRANSMISSION)
    }

    pub fn evaluate(&self, _outgoing: Vector3, _incoming: Vector3) -> (r: Spectrum)
        ensures
            r == Spectrum::black_spec(),
    {
        Spectrum::black()
    }

    pub fn probability_distribution(&self, _outgoing: Vector3, _incoming: Vector3) -> (r: Scalar)
        ensures
            r.bits == 0,
    {
        Scalar::zero_value()
    }

    /// The indices in the order in which the light passes them: as given
    /// for light that leaves on the outside (`cos_outgoing > 0`), exchanged
    /// otherwise.
    pub fn ordered_indices(&self, cos_outgoing: Scalar) -> (r: (Scalar, Scalar))
        ensures
            r == if Scalar::zero_spec().lt_spec(cos_outgoing) {
                self.refraction_indices
            } else {
                (self.refraction_indices.1, self.refraction_indices.0)
            },
    {
        if cos_outgoing.gt(Scalar::zero_value()) {
            self.refraction_indices
        } else {
            (self.refraction_indices.1, self.refraction_indices.0)
        }
    }
}

/// Whether light at this angle is reflected back inside: the squared sine of
/// the refracted angle, as Snell's law gives it, is one or more.
pub fn total_internal_reflection(sin_sq_theta_perpendicular: Scalar) -> (r: bool)
    ensures
        r == Scalar::one_spec().le_spec(sin_sq_theta_perpendicular),
{
    sin_sq_theta_perpendicular.ge(Scalar::one())
}

} // verus!
