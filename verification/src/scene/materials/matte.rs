//! A purely diffuse surface.
use vstd::prelude::*;
use vstd::std_specs::convert::FromSpecImpl;
use bumpalo::Bump;
use crate::scalar::Scalar;
use crate::geometry::interaction::Intersection;
use crate::render::bxdf::{arena_alloc, BxDFInstance, BSDF};
use crate::render::bxdfs::lambert::LambertianReflection;
use crate::render::bxdfs::oren_nayar::OrenNayar;
use crate::render::spectrum::Spectrum;
use crate::scene::material::{MaterialInstance, SurfaceTerms, TransportMode};

verus! {

#[derive(Clone, Copy, Debug)]
pub struct Matte {
    pub color: Spectrum,
    pub roughness: Scalar,
}

impl From<Matte> for MaterialInstance {
    fn from(m: Matte) -> (r: Self) {
        MaterialInstance::Matte(m)
    }
}

impl FromSpecImpl<Matte> for MaterialInstance {
    open spec fn obeys_from_spec() -> bool {
        true
    }

    open spec fn from_spec(m: Matte) -> Self {
        MaterialInstance::Matte(m)
    }
}

impl Matte {
    /// One lobe: uniform diffuse reflection for a roughness of zero, rough
    /// diffuse reflection otherwise.
    pub open spec fn lobes_spec(self, terms: SurfaceTerms) -> Seq<BxDFInstance> {
        if self.roughness.zero() {
            seq![BxDFInstance::LambertianReflection(LambertianReflection { color: self.color })]
        } else {
            seq![
                BxDFInstance::OrenNayar(
                    OrenNayar { color: self.color, a: terms.oren_nayar.0, b: terms.oren_nayar.1 },
                ),
            ]
        }
    }

    pub fn compute_scattering_functions<'a>(
        &'a self,
        intersection: &Intersection,
        terms: &SurfaceTerms,
        arena: &'a Bump,
        _mode: TransportMode,
        _allow_multiple_lobes: bool,
    ) -> (r: &'a mut BSDF<'a>)
        ensures
            r.wf(),
            r.lobes() == self.lobes_spec(*terms),
            r.refraction() == Scalar::one_spec(),
            r.frame() == (
                intersection.normal,
                intersection.shading_normal,
                terms.tangents.0,
                terms.tangents.1,
            ),
    {
        let bsdf = BSDF::new(arena, intersection, terms.tangents, Scalar::one());
        if self.roughness.equals(Scalar::zero_value()) {
            let lambert: &'a BxDFInstance = arena_alloc(
                arena,
                BxDFInstance::LambertianReflection(LambertianReflection { color: self.color }),
            );
            bsdf.add_component(lambert);
        } else {
            let oren_nayar: &'a BxDFInstance = arena_alloc(
                arena,
                BxDFInstance::OrenNayar(
                    OrenNayar::new(self.color, terms.oren_nayar.0, terms.oren_nayar.1),
                ),
            );
            bsdf.add_component(oren_nayar);
        }
        assert(bsdf.lobes() =~= self.lobes_spec(*terms));
        bsdf
    }
}

} // verus!
