//! Recipes that turn a surface point into scattering lobes.
use vstd::prelude::*;
use bumpalo::Bump;
use crate::scalar::Scalar;
use crate::geometry::interaction::Intersection;
use crate::geometry::vector::Vector3;
use crate::render::bxdf::{BxDFInstance, BSDF};
use crate::scene::materials::glass::Glass;
use crate::scene::materials::matte::Matte;
use crate::scene::materials::mirror::Mirror;
use crate::scene::materials::plastic::Plastic;

verus! {

/// What is carried along a path: radiance from the lights, or importance
/// from the camera.
#[derive(Clone, Copy, Debug, PartialEq, Eq, Structural)]
pub enum TransportMode {
    Radiance,
    Importance,
}

/// The numbers that a material's recipe takes from arithmetic on the
/// surface point and on the material's parameters.
#[derive(Clone, Copy, Debug)]
pub struct SurfaceTerms {
    /// The two tangents that complete the shading normal to an orthonormal
    /// frame.
    pub tangents: (Vector3, Vector3),
    /// The two terms of the rough-diffuse model for the material's
    /// roughness.
    pub oren_nayar: (Scalar, Scalar),
    /// The material's roughness, each component mapped to the width of the
    /// facet distribution.
    pub azimuth: (Scalar, Scalar),
}

#[derive(Clone, Copy, Debug)]
pub enum MaterialInstance {
    Matte(Matte),
    Mirror(Mirror),
    Plastic(Plastic),
    Glass(Glass),
}

impl MaterialInstance {
    /// The lobes that the material puts on a surface point.
    pub open spec fn lobes_spec(
        self,
        terms: SurfaceTerms,
        mode: TransportMode,
        allow_multiple_lobes: bool,
    ) -> Seq<BxDFInstance> {
        match self {
            MaterialInstance::Matte(m) => m.lobes_spec(terms),
            MaterialInstance::Mirror(m) => m.lobes_spec(),
            MaterialInstance::Plastic(p) => p.lobes_spec(terms),
            MaterialInstance::Glass(g) => g.lobes_spec(terms, mode, allow_multiple_lobes),
        }
    }

    /// The index of refraction of the material: that of glass for glass, 1
    /// for the opaque materials.
    pub open spec fn refraction_spec(self) -> Scalar {
        match self {
            MaterialInstance::Glass(g) => g.refraction,
            _ => Scalar::one_spec(),
        }
    }

    /// Builds the scattering at a surface point in the arena.
    pub fn compute_scattering_functions<'a>(
        &'a self,
        intersection: &Intersection,
        terms: &SurfaceTerms,
        arena: &'a Bump,
        mode: TransportMode,
        allow_multiple_lobes: bool,
    ) -> (r: &'a mut BSDF<'a>)
        ensures
            r.wf(),
            r.lobes() == self.lobes_spec(*terms, mode, allow_multiple_lobes),
            r.refraction() == self.refraction_spec(),
            r.frame() == (
                intersection.normal,
                intersection.shading_normal,
                terms.tangents.0,
                terms.tangents.1,
            ),
    {
        match self {
            MaterialInstance::Matte(m) => m.compute_scattering_functions(
                intersection,
                terms,
                arena,
                mode,
                allow_multiple_lobes,
            ),
            MaterialInstance::Mirror(m) => m.compute_scattering_functions(
                intersection,
                terms,
                arena,
                mode,
                allow_multiple_lobes,
            ),
            MaterialInstance::Plastic(p) => p.compute_scattering_functions(
                intersection,
                terms,
                arena,
                mode,
                allow_multiple_lobes,
            ),
            MaterialInstance::Glass(g) => g.compute_scattering_functions(
                intersection,
                terms,
                arena,
                mode,
                allow_multiple_lobes,
            ),
        }
    }
}

} // verus!
