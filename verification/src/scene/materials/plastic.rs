//! A diffuse surface under a glossy coat.
use vstd::prelude::*;
use vstd::std_specs::convert::FromSpecImpl;
use bumpalo::Bump;
use crate::scalar::Scalar;
use crate::geometry::interaction::Intersection;
use crate::render::bxdf::{arena_alloc, BxDFInstance, BSDF};
use crate::render::bxdfs::lambert::LambertianReflection;
use crate::render::bxdfs::microfacet::{
    MicrofacetDistributionInstance,
    MicrofacetReflection,
    TrowbridgeReitz,
};
use crate::render::fresnel::Fresnel;
use crate::render::spectrum::Spectrum;
use crate::scene::material::{MaterialInstance, SurfaceTerms, TransportMode};

verus! {

/// The pattern of `1.5`, the index of refraction of the coat.
pub const COAT_REFRACTION_BITS: u64 = 0x3ff8_0000_0000_0000;

#[derive(Clone, Copy, Debug)]
pub struct Plastic {
    pub diffuse_reflection: Spectrum,
    pub glossy_reflection: Spectrum,
    pub roughness: Scalar,
    pub remap_roughness: bool,
}

impl From<Plastic> for MaterialInstance {
    fn from(m: Plastic) -> (r: Self) {
        MaterialInstance::Plastic(m)
    }
}

impl FromSpecImpl<Plastic> for MaterialInstance {
    open spec fn obeys_from_spec() -> bool {
        true
    }

    open spec fn from_spec(m: Plastic) -> Self {
        MaterialInstance::Plastic(m)
    }
}

impl Plastic {
    /// The width of the coat's facet distribution: the mapped roughness
    /// where the roughness is to be remapped, the roughness itself where
    /// not.
    pub open spec fn width(self, terms: SurfaceTerms) -> Scalar {
        if self.remap_roughness {
            terms.azimuth.0
        } else {
            self.roughness
        }
    }

    /// Two lobes: uniform diffuse reflection, then glossy reflection off a
    /// dielectric coat.
    pub open spec fn lobes_spec(self, terms: SurfaceTerms) -> Seq<BxDFInstance> {
        seq![
            BxDFInstance::LambertianReflection(
                LambertianReflection { color: self.diffuse_reflection },
            ),
            BxDFInstance::MicrofacetReflection(
                MicrofacetReflection {
                    color: self.glossy_reflection,
                    distribution: MicrofacetDistributionInstance::TrowbridgeReitz(
                        TrowbridgeReitz {
                            azimuthal_x: self.width(terms),
                            azimuthal_y: self.width(terms),
                        },
                    ),
                    fresnel: Fresnel::Dialectric {
                        eta_parallel: Scalar::one_spec(),
                        eta_perpendicular: Scalar { bits: COAT_REFRACTION_BITS },
                    },
                },
            ),
        ]
    }

    pub fn compute_scattering_functions<'a>(
        &'a self,
        intersection: &Intersection,
        terms: &SurfaceTerms,
        arena: &'a Bump,
        _mode: TransportMode,
        _allow_multiple_lobes: bool,
    ) -> (r: &'a mut BSDF<'a>)
        ensures
            r.wf(),
            r.lobes() == self.lobes_spec(*terms),
            r.refraction() == Scalar::one_spec(),
            r.frame() == (
                intersection.normal,
                intersection.shading_normal,
                terms.tangents.0,
                terms.tangents.1,
            ),
    {
        let bsdf = BSDF::new(arena, intersection, terms.tangents, Scalar::one());
        let lambert: &'a BxDFInstance = arena_alloc(
            arena,
            BxDFInstance::LambertianReflection(
                LambertianReflection { color: self.diffuse_reflection },
            ),
        );
        bsdf.add_component(lambert);

        let roughness = if self.remap_roughness {
            terms.azimuth.0
        } else {
            self.roughness
        };
        let fresnel = Fresnel::Dialectric {
            eta_parallel: Scalar::one(),
            eta_perpendicular: Scalar::from_bits(COAT_REFRACTION_BITS),
        };
        let microfacet_dist = TrowbridgeReitz { azimuthal_x: roughness, azimuthal_y: roughness };
        let microfacet: &'a BxDFInstance = arena_alloc(
            arena,
            BxDFInstance::MicrofacetReflection(
                MicrofacetReflection {
                    color: self.glossy_reflection,
                    distribution: MicrofacetDistributionInstance::TrowbridgeReitz(microfacet_dist),
                    fresnel,
                },
            ),
        );
        bsdf.add_component(microfacet);
        assert(bsdf.lobes() =~= self.lobes_spec(*terms));
        bsdf
    }
}

} // verus!
