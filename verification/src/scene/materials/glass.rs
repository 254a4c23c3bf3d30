//! Smooth or rough glass.
use vstd::prelude::*;
use vstd::std_specs::convert::FromSpecImpl;
use bumpalo::Bump;
use crate::scalar::Scalar;
use crate::geometry::interaction::Intersection;
use crate::render::bxdf::{arena_alloc, BxDFInstance, BSDF};
use crate::render::bxdfs::fresnel::FresnelSpecular;
use crate::render::bxdfs::microfacet::{
    MicrofacetDistributionInstance,
    MicrofacetReflection,
    MicrofacetTransmission,
    TrowbridgeReitz,
};
use crate::render::bxdfs::specular::{SpecularReflection, SpecularTransmission};
use crate::render::fresnel::Fresnel;
use crate::render::spectrum::Spectrum;
use crate::scene::material::{MaterialInstance, SurfaceTerms, TransportMode};

verus! {

#[derive(Clone, Copy, Debug)]
pub struct Glass {
    pub color_reflected: Spectrum,
    pub color_transmitted: Spectrum,
    pub roughness: (Scalar, Scalar),
    pub refraction: Scalar,
    pub remap_roughness: bool,
}

impl From<Glass> for MaterialInstance {
    fn from(m: Glass) -> (r: Self) {
        MaterialInstance::Glass(m)
    }
}

impl FromSpecImpl<Glass> for MaterialInstance {
    open spec fn obeys_from_spec() -> bool {
        true
    }

    open spec fn from_spec(m: Glass) -> Self {
        MaterialInstance::Glass(m)
    }
}

impl Glass {
    /// Both components of the roughness are zero: the glass is smooth.
    pub open spec fn is_specular(self) -> bool {
        self.roughness.0.zero() && self.roughness.1.zero()
    }

    /// The boundary between the outside (index 1) and the glass.
    pub open spec fn boundary(self) -> Fresnel {
        Fresnel::Dialectric { eta_parallel: Scalar::one_spec(), eta_perpendicular: self.refraction }
    }

    /// The facet distribution of rough glass: the widths are the mapped
    /// roughness where the roughness is to be remapped, the roughness
    /// itself where not; the first component is the width along y.
    pub open spec fn distribution(self, terms: SurfaceTerms) -> MicrofacetDistributionInstance {
        let roughness = if self.remap_roughness {
            terms.azimuth
        } else {
            self.roughness
        };
        MicrofacetDistributionInstance::TrowbridgeReitz(
            TrowbridgeReitz { azimuthal_y: roughness.0, azimuthal_x: roughness.1 },
        )
    }

    /// The lobe that reflects: a mirror lobe for smooth glass, a glossy one
    /// for rough glass.
    pub open spec fn reflection_lobe(self, terms: SurfaceTerms) -> BxDFInstance {
        if self.is_specular() {
            BxDFInstance::SpecularReflection(
                SpecularReflection {
                    color_scale: self.color_reflected,
                    fresnel_properties: self.boundary(),
                },
            )
        } else {
            BxDFInstance::MicrofacetReflection(
                MicrofacetReflection {
                    color: self.color_reflected,
                    distribution: self.distribution(terms),
                    fresnel: self.boundary(),
                },
            )
        }
    }

    /// The lobe that transmits, smooth or glossy in the same way.
    pub open spec fn transmission_lobe(self, terms: SurfaceTerms, mode: TransportMode) -> BxDFInstance {
        if self.is_specular() {
            BxDFInstance::SpecularTransmission(
                SpecularTransmission::new_spec(
                    self.color_transmitted,
                    (Scalar::one_spec(), self.refraction),
                    mode,
                ),
            )
        } else {
            BxDFInstance::MicrofacetTransmission(
                MicrofacetTransmission {
                    color: self.color_transmitted,
                    distribution: self.distribution(terms),
                    refraction: (Scalar::one_spec(), self.refraction),
                    fresnel: self.boundary(),
                    mode,
                },
            )
        }
    }

    /// The lobes of glass. Glass that neither reflects nor transmits has
    /// none. Smooth glass has a single lobe for both reflection and
    /// transmission where several lobes in one are allowed. Otherwise a
    /// reflecting lobe is there unless the reflected colour is black, and
    /// after it a transmitting lobe unless the transmitted colour is black.
    pub open spec fn lobes_spec(
        self,
        terms: SurfaceTerms,
        mode: TransportMode,
        allow_multiple_lobes: bool,
    ) -> Seq<BxDFInstance> {
        if self.color_reflected.black_channels() && self.color_transmitted.black_channels() {
            Seq::empty()
        } else if self.is_specular() && allow_multiple_lobes {
            seq![
                BxDFInstance::FresnelSpecular(
                    FresnelSpecular {
                        color_reflected: self.color_reflected,
                        color_transmitted: self.color_transmitted,
                        refraction: (Scalar::one_spec(), self.refraction),
                        mode,
                    },
                ),
            ]
        } else {
            let reflecting = if self.color_reflected.black_channels() {
                Seq::empty()
            } else {
                seq![self.reflection_lobe(terms)]
            };
            if self.color_transmitted.black_channels() {
                reflecting
            } else {
                reflecting.push(self.transmission_lobe(terms, mode))
            }
        }
    }

    pub fn compute_scattering_functions<'a>(
        &'a self,
        intersection: &Intersection,
        terms: &SurfaceTerms,
        arena: &'a Bump,
        mode: TransportMode,
        allow_multiple_lobes: bool,
    ) -> (r: &'a mut BSDF<'a>)
        ensures
            r.wf(),
            r.lobes() == self.lobes_spec(*terms, mode, allow_multiple_lobes),
            r.refraction() == self.refraction,
            r.frame() == (
                intersection.normal,
                intersection.shading_normal,
                terms.tangents.0,
                terms.tangents.1,
            ),
    {
        let bsdf = BSDF::new(arena, intersection, terms.tangents, self.refraction);

        if self.color_reflected.is_black() && self.color_transmitted.is_black() {
            return bsdf;
        }
        let zero = Scalar::zero_value();
        let one = Scalar::one();
        let is_specular = self.roughness.0.equals(zero) && self.roughness.1.equals(zero);
        if is_specular && allow_multiple_lobes {
            let fresnel: &'a BxDFInstance = arena_alloc(
                arena,
                BxDFInstance::FresnelSpecular(
                    FresnelSpecular {
                        color_reflected: self.color_reflected,
                        color_transmitted: self.color_transmitted,
                        refraction: (one, self.refraction),
                        mode,
                    },
                ),
            );
            bsdf.add_component(fresnel);
            assert(bsdf.lobes() =~= self.lobes_spec(*terms, mode, allow_multiple_lobes));
        } else {
            let roughness = if self.remap_roughness {
                terms.azimuth
            } else {
                self.roughness
            };
            let distrib = MicrofacetDistributionInstance::TrowbridgeReitz(
                TrowbridgeReitz { azimuthal_y: roughness.0, azimuthal_x: roughness.1 },
            );
            let fresnel = Fresnel::Dialectric { eta_parallel: one, eta_perpendicular: self.refraction };

            if !self.color_reflected.is_black() {
                if is_specular {
                    let reflection: &'a BxDFInstance = arena_alloc(
                        arena,
                        BxDFInstance::SpecularReflection(
                            SpecularReflection {
                                color_scale: self.color_reflected,
                                fresnel_properties: fresnel,
                            },
                        ),
                    );
                    bsdf.add_component(reflection);
                } else {
                    let microfacet: &'a BxDFInstance = arena_alloc(
                        arena,
                        BxDFInstance::MicrofacetReflection(
                            MicrofacetReflection {
                                color: self.color_reflected,
                                fresnel,
                                distribution: distrib,
                            },
                        ),
                    );
                    bsdf.add_component(microfacet);
                }
            }
            if !self.color_transmitted.is_black() {
                if is_specular {
                    let transmission: &'a BxDFInstance = arena_alloc(
                        arena,
                        BxDFInstance::SpecularTransmission(
                            SpecularTransmission::new(
                                self.color_transmitted,
                                (one, self.refraction),
                                mode,
                            ),
                        ),
                    );
                    bsdf.add_component(transmission);
                } else {
                    let microfacet: &'a BxDFInstance = arena_alloc(
                        arena,
                        BxDFInstance::MicrofacetTransmission(
                            MicrofacetTransmission {
                                color: self.color_transmitted,
                                distribution: distrib,
                                fresnel,
                                refraction: (one, self.refraction),
                                mode,
                            },
                        ),
                    );
                    bsdf.add_component(microfacet);
                }
            }
            assert(bsdf.lobes() =~= self.lobes_spec(*terms, mode, allow_multiple_lobes));
        }
        bsdf
    }
}

} // verus!
