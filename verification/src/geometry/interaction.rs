//! The record of a ray meeting a surface.
use vstd::prelude::*;
use crate::scalar::Scalar;
use crate::geometry::normal::Normal3;
use crate::geometry::point::Point3;
use crate::geometry::vector::Vector3;
use crate::render::spectrum::Spectrum;
use crate::scene::light::AreaLight;
use crate::scene::material::{MaterialInstance, SurfaceTerms, TransportMode};
use crate::render::bxdf::BSDF;
use bumpalo::Bump;

verus! {

/// Where and how a ray met a surface, in world coordinates.
#[derive(Clone, Copy, Debug)]
pub struct Intersection {
    pub point: Point3,
    pub point_derivative: (Vector3, Vector3),
    pub outgoing: Vector3,
    pub normal: Normal3,
    pub normal_derivative: (Normal3, Normal3),
    pub shading_normal: Normal3,
    pub shading_normal_derivative: (Normal3, Normal3),
    pub distance: Scalar,
    pub error: Vector3,
}

/// An intersection with what the surface there emits and is made of.
pub struct Interaction {
    pub intersection: Intersection,
    pub emission: Option<AreaLight>,
    pub material: Option<MaterialInstance>,
}

impl Default for Intersection {
    fn default() -> (r: Self)
        ensures
            r == Self::default_spec(),
    {
        Intersection {
            point: Point3::zero(),
            point_derivative: (Vector3::zero(), Vector3::zero()),
            outgoing: Vector3::zero(),
            normal: Normal3::zero(),
            normal_derivative: (Normal3::zero(), Normal3::zero()),
            shading_normal: Normal3::zero(),
            shading_normal_derivative: (Normal3::zero(), Normal3::zero()),
            distance: Scalar::zero_value(),
            error: Vector3::zero(),
        }
    }
}

impl Intersection {
    /// The record with every number a positive zero.
    pub open spec fn default_spec() -> Self {
        Intersection {
            point: Point3::origin(),
            point_derivative: (Vector3::origin(), Vector3::origin()),
            outgoing: Vector3::origin(),
            normal: Normal3::origin(),
            normal_derivative: (Normal3::origin(), Normal3::origin()),
            shading_normal: Normal3::origin(),
            shading_normal_derivative: (Normal3::origin(), Normal3::origin()),
            distance: Scalar::zero_spec(),
            error: Vector3::origin(),
        }
    }

    /// The record moved to another point and distance.
    pub open spec fn at(self, point: Point3, distance: Scalar) -> Self {
        Intersection { point, distance, ..self }
    }

}

impl Interaction {
    /// What the surface emits towards a direction whose dot product with
    /// the surface normal is `normal_dot`: nothing where it is no emitter.
    pub fn emitted_radiance(&self, normal_dot: Scalar) -> (r: Spectrum)
        ensures
            r == match self.emission {
                Some(emission) => emission.emitted_spec(normal_dot),
                None => Spectrum::black_spec(),
            },
    {
        match &self.emission {
            Some(emission) => emission.emitted_radiance(normal_dot),
            None => Spectrum::black(),
        }
    }
}

impl Interaction {
    /// The scattering at the hit point, built in the arena; `None` where
    /// the surface has no material.
    pub fn compute_scattering_functions<'a>(
        &'a self,
        terms: &SurfaceTerms,
        arena: &'a Bump,
        mode: TransportMode,
        multiple_lobes: bool,
    ) -> (r: Option<&'a mut BSDF<'a>>)
        ensures
            (r is None) == (self.material is None),
            r matches Some(bsdf) ==> {
                let material = self.material->0;
                &&& bsdf.wf()
                &&& bsdf.lobes() == material.lobes_spec(*terms, mode, multiple_lobes)
                &&& bsdf.refraction() == material.refraction_spec()
                &&& bsdf.frame() == (
                    self.intersection.normal,
                    self.intersection.shading_normal,
                    terms.tangents.0,
                    terms.tangents.1,
                )
            },
    {
        match &self.material {
            Some(material) => Some(
                material.compute_scattering_functions(
                    &self.intersection,
                    terms,
                    arena,
                    mode,
                    multiple_lobes,
                ),
            ),
            None => None,
        }
    }
}

} // verus!
