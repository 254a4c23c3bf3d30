//! A perfect mirror.
use vstd::prelude::*;
use vstd::std_specs::convert::FromSpecImpl;
use bumpalo::Bump;
use crate::scalar::Scalar;
use crate::geometry::interaction::Intersection;
use crate::render::bxdf::{arena_alloc, BxDFInstance, BSDF};
use crate::render::bxdfs::specular::SpecularReflection;
use crate::render::fresnel::Fresnel;
use crate::render::spectrum::Spectrum;
use crate::scene::material::{MaterialInstance, SurfaceTerms, TransportMode};

verus! {

#[derive(Clone, Copy, Debug)]
pub struct Mirror {
    pub color: Spectrum,
}

impl From<Mirror> for MaterialInstance {
    fn from(m: Mirror) -> (r: Self) {
        MaterialInstance::Mirror(m)
    }
}

impl FromSpecImpl<Mirror> for MaterialInstance {
    open spec fn obeys_from_spec() -> bool {
        true
    }

    open spec fn from_spec(m: Mirror) -> Self {
        MaterialInstance::Mirror(m)
    }
}

impl Mirror {
    /// One lobe: specular reflection that no boundary weakens.
    pub open spec fn lobes_spec(self) -> Seq<BxDFInstance> {
        seq![
            BxDFInstance::SpecularReflection(
                SpecularReflection { color_scale: self.color, fresnel_properties: Fresnel::NoOp },
            ),
        ]
    }

    pub fn compute_scattering_functions<'a>(
        &'a self,
        intersection: &Intersection,
        terms: &SurfaceTerms,
        arena: &'a Bump,
        _mode: TransportMode,
        _allow_multiple_lobes: bool,
    ) -> (r: &'a mut BSDF<'a>)
        ensures
            r.wf(),
            r.lobes() == self.lobes_spec(),
            r.refraction() == Scalar::one_spec(),
            r.frame() == (
                intersection.normal,
                intersection.shading_normal,
                terms.tangents.0,
                terms.tangents.1,
            ),
    {
        let bsdf = BSDF::new(arena, intersection, terms.tangents, Scalar::one());
        let reflection: &'a BxDFInstance = arena_alloc(
            arena,
            BxDFInstance::SpecularReflection(
                SpecularReflection { color_scale: self.color, fresnel_properties: Fresnel::NoOp },
            ),
        );
        bsdf.add_component(reflection);
        assert(bsdf.lobes() =~= self.lobes_spec());
        bsdf
    }
}

} // verus!
