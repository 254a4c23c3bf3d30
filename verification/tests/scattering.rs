use bumpalo::Bump;
use pbr_kernel::geometry::interaction::{Interaction, Intersection};
use pbr_kernel::geometry::normal::Normal3;
use pbr_kernel::geometry::point::Point2;
use pbr_kernel::geometry::vector::Vector3;
use pbr_kernel::render::bxdf::{
    BSDF, BxDFCategory, BxDFInstance, BxDFSample, SampleFinish, ScaledBxDF, ALL, DIFFUSE, GLOSSY,
    MAX_BXDF, NONE, REFLECTION, SPECULAR, TRANSMISSION,
};
use pbr_kernel::render::bxdfs::fresnel::FresnelSpecular;
use pbr_kernel::render::bxdfs::lambert::{LambertianReflection, LambertianTransmission};
use pbr_kernel::render::bxdfs::microfacet::{
    MicrofacetDistributionInstance, MicrofacetReflection, MicrofacetTransmission, TrowbridgeReitz,
};
use pbr_kernel::render::bxdfs::oren_nayar::OrenNayar;
use pbr_kernel::render::bxdfs::specular::{
    total_internal_reflection, SpecularReflection, SpecularTransmission,
};
use pbr_kernel::render::fresnel::Fresnel;
use pbr_kernel::render::shading_coordinates::{abs_cos_theta, cos_theta, mirrored};
use pbr_kernel::render::spectrum::Spectrum;
use pbr_kernel::scalar::Scalar;
use pbr_kernel::scene::material::{MaterialInstance, SurfaceTerms, TransportMode};
use pbr_kernel::scene::materials::glass::Glass;
use pbr_kernel::scene::materials::matte::Matte;
use pbr_kernel::scene::materials::mirror::Mirror;
use pbr_kernel::scene::materials::plastic::Plastic;
use std::sync::Arc;

fn s(v: f64) -> Scalar {
    Scalar::from_bits(v.to_bits())
}

fn f(v: Scalar) -> f64 {
    f64::from_bits(v.to_bits())
}

fn v(x: f64, y: f64, z: f64) -> Vector3 {
    Vector3::new(s(x), s(y), s(z))
}

fn rgb(r: f64, g: f64, b: f64) -> Spectrum {
    Spectrum { r: s(r), g: s(g), b: s(b) }
}

fn cf(c: Spectrum) -> (f64, f64, f64) {
    (f(c.r), f(c.g), f(c.b))
}

fn cat(bits: u8) -> BxDFCategory {
    BxDFCategory::from_bits(bits)
}

fn lambert(r: f64) -> BxDFInstance {
    BxDFInstance::LambertianReflection(LambertianReflection { color: rgb(r, r, r) })
}

fn mirror_lobe() -> BxDFInstance {
    BxDFInstance::SpecularReflection(SpecularReflection {
        color_scale: rgb(1.0, 1.0, 1.0),
        fresnel_properties: Fresnel::NoOp,
    })
}

fn through(r: f64) -> BxDFInstance {
    BxDFInstance::LambertianTransmission(LambertianTransmission { color: rgb(r, r, r) })
}

fn terms() -> SurfaceTerms {
    SurfaceTerms {
        tangents: (v(1.0, 0.0, 0.0), v(0.0, 1.0, 0.0)),
        oren_nayar: (s(0.75), s(0.25)),
        azimuth: (s(0.3), s(0.4)),
    }
}

fn surface() -> Intersection {
    let mut i = Intersection::default();
    i.normal = Normal3::new(s(0.0), s(0.0), s(1.0));
    i.shading_normal = Normal3::new(s(0.0), s(0.6), s(0.8));
    i
}

fn kinds(bsdf: &BSDF) -> Vec<u8> {
    let mut it = bsdf.matching_components(cat(ALL));
    let mut out = vec![];
    while let Some(lobe) = it.next() {
        out.push(lobe.category().bits());
    }
    out
}

#[test]
fn categories_are_sets_of_flags() {
    assert_eq!(cat(ALL).bits(), REFLECTION | TRANSMISSION | DIFFUSE | GLOSSY | SPECULAR);
    assert!(cat(ALL).contains(cat(REFLECTION | DIFFUSE)));
    assert!(cat(REFLECTION | SPECULAR).contains(cat(REFLECTION)));
    assert!(!cat(REFLECTION | SPECULAR).contains(cat(REFLECTION | DIFFUSE)));
    assert!(cat(REFLECTION).contains(cat(NONE)));
    assert!(!cat(NONE).contains(cat(REFLECTION)));
    assert_eq!(cat(REFLECTION).union(cat(GLOSSY)), cat(REFLECTION | GLOSSY));
    assert_eq!(MAX_BXDF, 8);
}

#[test]
fn each_lobe_has_its_category() {
    assert_eq!(lambert(0.5).category().bits(), REFLECTION | DIFFUSE);
    assert_eq!(through(0.5).category().bits(), TRANSMISSION | DIFFUSE);
    assert_eq!(mirror_lobe().category().bits(), SPECULAR | REFLECTION);
    let transmission = SpecularTransmission::new(rgb(1.0, 1.0, 1.0), (s(1.0), s(1.5)), TransportMode::Radiance);
    assert_eq!(BxDFInstance::SpecularTransmission(transmission).category().bits(), SPECULAR | TRANSMISSION);
    let both = FresnelSpecular {
        color_reflected: rgb(1.0, 1.0, 1.0),
        color_transmitted: rgb(1.0, 1.0, 1.0),
        refraction: (s(1.0), s(1.5)),
        mode: TransportMode::Radiance,
    };
    assert_eq!(BxDFInstance::FresnelSpecular(both).category().bits(), REFLECTION | TRANSMISSION | SPECULAR);
    let rough = OrenNayar::new(rgb(0.5, 0.5, 0.5), s(0.9), s(0.1));
    assert_eq!(f(rough.a), 0.9);
    assert_eq!(f(rough.b), 0.1);
    assert_eq!(BxDFInstance::OrenNayar(rough).category().bits(), REFLECTION | DIFFUSE);
    let distribution = MicrofacetDistributionInstance::TrowbridgeReitz(TrowbridgeReitz {
        azimuthal_x: s(0.1),
        azimuthal_y: s(0.2),
    });
    let glossy = MicrofacetReflection { color: rgb(1.0, 1.0, 1.0), distribution, fresnel: Fresnel::NoOp };
    assert_eq!(BxDFInstance::MicrofacetReflection(glossy).category().bits(), REFLECTION | GLOSSY);
    let frosted = MicrofacetTransmission {
        color: rgb(1.0, 1.0, 1.0),
        distribution,
        refraction: (s(1.0), s(1.5)),
        fresnel: Fresnel::NoOp,
        mode: TransportMode::Importance,
    };
    assert_eq!(BxDFInstance::MicrofacetTransmission(frosted).category().bits(), TRANSMISSION | GLOSSY);
    let scaled = ScaledBxDF { original: Arc::new(mirror_lobe()), scale: rgb(0.5, 0.5, 0.5) };
    assert_eq!(scaled.category().bits(), SPECULAR | REFLECTION);
    let nested = ScaledBxDF { original: Arc::new(BxDFInstance::ScaledBxDF(scaled)), scale: rgb(0.5, 0.5, 0.5) };
    assert_eq!(BxDFInstance::ScaledBxDF(nested).category().bits(), SPECULAR | REFLECTION);
}

#[test]
fn lambertian_reflectance_is_its_colour() {
    let lobe = LambertianReflection { color: rgb(0.2, 0.4, 0.6) };
    let samples = [Point2::new(s(0.1), s(0.9)), Point2::new(s(0.5), s(0.5))];
    assert_eq!(cf(lobe.hemispherical_directional_reflectance(v(0.0, 0.0, 1.0), &samples)), (0.2, 0.4, 0.6));
    assert_eq!(cf(lobe.hemispherical_directional_reflectance(v(0.3, -0.2, 0.1), &[])), (0.2, 0.4, 0.6));
    assert_eq!(cf(lobe.hemispherical_hemispherical_reflectance(&samples, &samples)), (0.2, 0.4, 0.6));
}

#[test]
fn specular_lobes_scatter_nothing_between_given_directions() {
    let lobe = SpecularReflection { color_scale: rgb(1.0, 1.0, 1.0), fresnel_properties: Fresnel::NoOp };
    assert_eq!(cf(lobe.evaluate(v(0.0, 0.0, 1.0), v(0.0, 0.0, 1.0))), (0.0, 0.0, 0.0));
    assert_eq!(f(lobe.probability_distribution(v(0.0, 0.0, 1.0), v(0.0, 0.0, 1.0))), 0.0);
    let (incoming, pdf) = lobe.incoming(v(0.3, -0.4, 0.5));
    assert_eq!((f(incoming.x), f(incoming.y), f(incoming.z)), (-0.3, 0.4, 0.5));
    assert_eq!(f(pdf), 1.0);
    let through = SpecularTransmission::new(rgb(1.0, 1.0, 1.0), (s(1.0), s(1.5)), TransportMode::Radiance);
    assert_eq!(cf(through.evaluate(v(0.0, 0.0, 1.0), v(0.0, 0.0, -1.0))), (0.0, 0.0, 0.0));
    assert_eq!(f(through.probability_distribution(v(0.0, 0.0, 1.0), v(0.0, 0.0, -1.0))), 0.0);
    match through.fresnel_properties {
        Fresnel::Dialectric { eta_parallel, eta_perpendicular } => {
            assert_eq!((f(eta_parallel), f(eta_perpendicular)), (1.0, 1.5));
        }
        _ => panic!("expected a dielectric boundary"),
    }
    let a = through.ordered_indices(s(0.5));
    assert_eq!((f(a.0), f(a.1)), (1.0, 1.5));
    let b = through.ordered_indices(s(-0.5));
    assert_eq!((f(b.0), f(b.1)), (1.5, 1.0));
    let c = through.ordered_indices(s(0.0));
    assert_eq!((f(c.0), f(c.1)), (1.5, 1.0));
    assert!(total_internal_reflection(s(1.0)));
    assert!(total_internal_reflection(s(1.5)));
    assert!(!total_internal_reflection(s(0.999)));
}

#[test]
fn fresnel_specular_branches_on_the_reflectance() {
    let lobe = FresnelSpecular {
        color_reflected: rgb(1.0, 1.0, 1.0),
        color_transmitted: rgb(1.0, 1.0, 1.0),
        refraction: (s(1.0), s(1.5)),
        mode: TransportMode::Radiance,
    };
    assert_eq!(lobe.branch(s(0.03), s(0.04)).bits(), SPECULAR | REFLECTION);
    assert_eq!(lobe.branch(s(0.04), s(0.04)).bits(), SPECULAR | TRANSMISSION);
    assert_eq!(lobe.branch(s(0.9), s(0.04)).bits(), SPECULAR | TRANSMISSION);
    assert_eq!(cf(lobe.evaluate(v(0.0, 0.0, 1.0), v(0.0, 0.0, 1.0))), (0.0, 0.0, 0.0));
    let a = lobe.ordered_indices(s(0.5));
    assert_eq!((f(a.0), f(a.1)), (1.0, 1.5));
    let b = lobe.ordered_indices(s(-0.5));
    assert_eq!((f(b.0), f(b.1)), (1.5, 1.0));
}

#[test]
fn shading_coordinates_read_the_third_axis() {
    assert_eq!(f(cos_theta(v(0.1, 0.2, -0.7))), -0.7);
    assert_eq!(f(abs_cos_theta(v(0.1, 0.2, -0.7))), 0.7);
    let m = mirrored(v(0.1, -0.2, 0.7));
    assert_eq!((f(m.x), f(m.y), f(m.z)), (-0.1, 0.2, 0.7));
}

#[test]
fn dielectric_setup_swaps_for_light_from_inside() {
    let t = Fresnel::dielectric_setup(s(0.5), s(1.0), s(1.5));
    assert_eq!((f(t.0), f(t.1), f(t.2)), (0.5, 1.0, 1.5));
    let t = Fresnel::dielectric_setup(s(-0.5), s(1.0), s(1.5));
    assert_eq!((f(t.0), f(t.1), f(t.2)), (0.5, 1.5, 1.0));
    let t = Fresnel::dielectric_setup(s(3.0), s(1.0), s(1.5));
    assert_eq!((f(t.0), f(t.1), f(t.2)), (1.0, 1.0, 1.5));
    let t = Fresnel::dielectric_setup(s(-3.0), s(1.0), s(1.5));
    assert_eq!((f(t.0), f(t.1), f(t.2)), (1.0, 1.5, 1.0));
    let t = Fresnel::dielectric_setup(s(0.0), s(1.0), s(1.5));
    assert_eq!((f(t.0), f(t.1), f(t.2)), (0.0, 1.0, 1.5));
}

#[test]
fn dielectric_setup_is_the_same_from_both_sides() {
    for c in [0.1, 0.5, 1.0, 2.0] {
        let there = Fresnel::dielectric_setup(s(c), s(1.0), s(1.5));
        let back = Fresnel::dielectric_setup(s(-c), s(1.5), s(1.0));
        assert_eq!(
            (there.0.to_bits(), there.1.to_bits(), there.2.to_bits()),
            (back.0.to_bits(), back.1.to_bits(), back.2.to_bits())
        );
    }
}

#[test]
fn container_starts_empty_and_keeps_its_frame() {
    let arena = Bump::new();
    let bsdf = BSDF::new(&arena, &surface(), terms().tangents, s(1.5));
    assert_eq!(bsdf.num_components(), 0);
    assert_eq!(f(bsdf.index_of_refraction()), 1.5);
    assert_eq!(f(bsdf.geometric_normal().z), 1.0);
    assert_eq!(f(bsdf.shading_normal().y), 0.6);
    assert_eq!(f(bsdf.tangents().0.x), 1.0);
    assert_eq!(f(bsdf.tangents().1.y), 1.0);
    assert_eq!(bsdf.count_matching(cat(ALL)), 0);
}

#[test]
fn container_without_matching_lobes_samples_nothing() {
    let arena = Bump::new();
    let bsdf = BSDF::new(&arena, &surface(), terms().tangents, s(1.0));
    let check = |sample: Result<_, BxDFSample>| match sample {
        Err(empty) => {
            assert_eq!(cf(empty.value), (0.0, 0.0, 0.0));
            assert_eq!(f(empty.probability_distribution), 0.0);
            assert_eq!(empty.category.bits(), NONE);
            assert_eq!(f(empty.incoming.z), 0.0);
        }
        Ok(_) => panic!("expected the empty sample"),
    };
    check(bsdf.sample_function(0, cat(ALL)).map(|_| ()));
    let l = lambert(0.5);
    bsdf.add_component(&l);
    check(bsdf.sample_function(0, cat(REFLECTION | SPECULAR)).map(|_| ()));
    check(bsdf.sample_function(3, cat(TRANSMISSION | DIFFUSE)).map(|_| ()));
    check(bsdf.sample_function(0, cat(NONE)).map(|_| ()));
    let empty = BxDFSample::empty();
    assert_eq!(cf(empty.value), (0.0, 0.0, 0.0));
}

#[test]
fn lobes_match_when_the_category_holds_all_their_flags() {
    let arena = Bump::new();
    let bsdf = BSDF::new(&arena, &surface(), terms().tangents, s(1.0));
    let (a, b, c, d) = (lambert(0.1), mirror_lobe(), through(0.2), lambert(0.3));
    bsdf.add_component(&a);
    bsdf.add_component(&b);
    bsdf.add_component(&c);
    bsdf.add_component(&d);
    assert_eq!(bsdf.num_components(), 4);
    assert_eq!(bsdf.count_matching(cat(ALL)), 4);
    assert_eq!(bsdf.count_matching(cat(REFLECTION | DIFFUSE)), 2);
    assert_eq!(bsdf.count_matching(cat(REFLECTION | SPECULAR)), 1);
    assert_eq!(bsdf.count_matching(cat(REFLECTION)), 0);
    assert_eq!(bsdf.count_matching(cat(DIFFUSE | TRANSMISSION | REFLECTION)), 3);
    assert_eq!(kinds(bsdf), vec![5, 17, 6, 5]);
    let second = bsdf.nth_matching(cat(REFLECTION | DIFFUSE), 1).unwrap();
    match second {
        BxDFInstance::LambertianReflection(l) => assert_eq!(f(l.color.r), 0.3),
        _ => panic!("expected the second diffuse lobe"),
    }
    assert!(bsdf.nth_matching(cat(REFLECTION | DIFFUSE), 2).is_none());
    let mut it = bsdf.matching_components(cat(TRANSMISSION | DIFFUSE));
    assert!(matches!(it.next(), Some(BxDFInstance::LambertianTransmission(_))));
    assert!(it.next().is_none());
    assert!(it.next().is_none());
}

#[test]
fn container_takes_eight_lobes() {
    let arena = Bump::new();
    let bsdf = BSDF::new(&arena, &surface(), terms().tangents, s(1.0));
    let lobes: Vec<BxDFInstance> = (0..MAX_BXDF).map(|i| lambert(i as f64)).collect();
    for lobe in lobes.iter() {
        bsdf.add_component(lobe);
    }
    assert_eq!(bsdf.num_components(), 8);
    assert_eq!(bsdf.count_matching(cat(ALL)), 8);
    let mut it = bsdf.matching_components(cat(ALL));
    let mut n = 0;
    while it.next().is_some() {
        n += 1;
    }
    assert_eq!(n, 8);
    let last = bsdf.sample_function(7, cat(ALL)).ok().unwrap();
    match last.component {
        BxDFInstance::LambertianReflection(l) => assert_eq!(f(l.color.r), 7.0),
        _ => panic!("expected a diffuse lobe"),
    }
}

#[test]
fn sample_picks_the_lobe_at_the_scaled_place() {
    let arena = Bump::new();
    let bsdf = BSDF::new(&arena, &surface(), terms().tangents, s(1.0));
    let (a, b, c) = (lambert(0.1), mirror_lobe(), lambert(0.3));
    bsdf.add_component(&a);
    bsdf.add_component(&b);
    bsdf.add_component(&c);
    let pick = |scaled: usize, bits: u8| {
        let choice = bsdf.sample_function(scaled, cat(bits)).ok().unwrap();
        (choice.index, choice.matching, choice.component.category().bits())
    };
    assert_eq!(pick(0, ALL), (0, 3, 5));
    assert_eq!(pick(1, ALL), (1, 3, 17));
    assert_eq!(pick(2, ALL), (2, 3, 5));
    // beyond the last lobe the last lobe is taken
    assert_eq!(pick(3, ALL), (2, 3, 5));
    assert_eq!(pick(usize::MAX, ALL), (2, 3, 5));
    assert_eq!(pick(0, REFLECTION | SPECULAR), (0, 1, 17));
    assert_eq!(pick(5, REFLECTION | SPECULAR), (0, 1, 17));
    let second = bsdf.sample_function(1, cat(REFLECTION | DIFFUSE)).ok().unwrap();
    match second.component {
        BxDFInstance::LambertianReflection(l) => assert_eq!(f(l.color.r), 0.3),
        _ => panic!("expected the second diffuse lobe"),
    }
}

#[test]
fn sample_ends_by_the_kind_of_the_lobe() {
    let arena = Bump::new();
    let bsdf = BSDF::new(&arena, &surface(), terms().tangents, s(1.0));
    let (a, b, c) = (lambert(0.1), mirror_lobe(), lambert(0.3));
    bsdf.add_component(&a);
    bsdf.add_component(&b);
    bsdf.add_component(&c);
    let specular = bsdf.sample_function(1, cat(ALL)).ok().unwrap();
    assert_eq!(BSDF::finish_sample(&specular, s(0.5), s(1.0)), SampleFinish::Keep);
    assert_eq!(BSDF::finish_sample(&specular, s(0.0), s(1.0)), SampleFinish::Empty);
    assert_eq!(BSDF::finish_sample(&specular, s(-0.0), s(1.0)), SampleFinish::Empty);
    assert_eq!(BSDF::finish_sample(&specular, s(0.5), s(0.0)), SampleFinish::Empty);
    let diffuse = bsdf.sample_function(0, cat(ALL)).ok().unwrap();
    assert_eq!(BSDF::finish_sample(&diffuse, s(0.5), s(0.3)), SampleFinish::Mixture { average_pdf: true });
    assert_eq!(BSDF::finish_sample(&diffuse, s(0.5), s(0.0)), SampleFinish::Empty);
    let alone = bsdf.sample_function(0, cat(REFLECTION | SPECULAR | GLOSSY)).ok().unwrap();
    assert_eq!(alone.matching, 1);
    let only = BSDF::new(&arena, &surface(), terms().tangents, s(1.0));
    only.add_component(&a);
    let single = only.sample_function(0, cat(ALL)).ok().unwrap();
    assert_eq!(BSDF::finish_sample(&single, s(0.5), s(0.3)), SampleFinish::Mixture { average_pdf: false });
}

#[test]
fn evaluation_sums_the_lobes_on_the_right_side() {
    let arena = Bump::new();
    let bsdf = BSDF::new(&arena, &surface(), terms().tangents, s(1.0));
    let (a, b, c) = (lambert(0.1), through(0.2), mirror_lobe());
    bsdf.add_component(&a);
    bsdf.add_component(&b);
    bsdf.add_component(&c);
    let bits = |outgoing_z: f64, category: u8, is_reflection: bool| -> Vec<u8> {
        bsdf.contributing_components(s(outgoing_z), cat(category), is_reflection)
            .iter()
            .map(|l| l.category().bits())
            .collect()
    };
    assert_eq!(bits(0.5, ALL, true), vec![5, 17]);
    assert_eq!(bits(0.5, ALL, false), vec![6]);
    assert_eq!(bits(0.5, REFLECTION | DIFFUSE, true), vec![5]);
    assert_eq!(bits(0.5, REFLECTION | DIFFUSE, false), Vec::<u8>::new());
    assert_eq!(bits(0.0, ALL, true), Vec::<u8>::new());
    assert_eq!(bits(-0.0, ALL, false), Vec::<u8>::new());
    assert_eq!(bits(-0.5, ALL, true), vec![5, 17]);
}

#[test]
fn matte_is_lambertian_when_smooth_and_oren_nayar_when_rough() {
    let arena = Bump::new();
    let smooth = Matte { color: rgb(0.5, 0.6, 0.7), roughness: s(0.0) };
    let bsdf = smooth.compute_scattering_functions(&surface(), &terms(), &arena, TransportMode::Radiance, false);
    assert_eq!(bsdf.num_components(), 1);
    match bsdf.nth_matching(cat(ALL), 0).unwrap() {
        BxDFInstance::LambertianReflection(l) => assert_eq!(cf(l.color), (0.5, 0.6, 0.7)),
        _ => panic!("expected a lambertian lobe"),
    }
    assert_eq!(f(bsdf.index_of_refraction()), 1.0);
    assert_eq!(f(bsdf.shading_normal().z), 0.8);
    let rough = Matte { color: rgb(0.5, 0.6, 0.7), roughness: s(20.0) };
    let bsdf = rough.compute_scattering_functions(&surface(), &terms(), &arena, TransportMode::Radiance, false);
    assert_eq!(bsdf.num_components(), 1);
    match bsdf.nth_matching(cat(ALL), 0).unwrap() {
        BxDFInstance::OrenNayar(l) => {
            assert_eq!(cf(l.color), (0.5, 0.6, 0.7));
            assert_eq!((f(l.a), f(l.b)), (0.75, 0.25));
        }
        _ => panic!("expected an oren-nayar lobe"),
    }
}

#[test]
fn mirror_is_one_specular_lobe() {
    let arena = Bump::new();
    let mirror = Mirror { color: rgb(0.9, 0.8, 0.7) };
    let bsdf = mirror.compute_scattering_functions(&surface(), &terms(), &arena, TransportMode::Radiance, true);
    assert_eq!(kinds(bsdf), vec![SPECULAR | REFLECTION]);
    match bsdf.nth_matching(cat(ALL), 0).unwrap() {
        BxDFInstance::SpecularReflection(l) => {
            assert_eq!(cf(l.color_scale), (0.9, 0.8, 0.7));
            assert!(matches!(l.fresnel_properties, Fresnel::NoOp));
        }
        _ => panic!("expected a mirror lobe"),
    }
}

#[test]
fn plastic_is_diffuse_under_a_glossy_coat() {
    let arena = Bump::new();
    let plastic = Plastic {
        diffuse_reflection: rgb(0.1, 0.2, 0.3),
        glossy_reflection: rgb(0.4, 0.5, 0.6),
        roughness: s(0.15),
        remap_roughness: true,
    };
    let bsdf = plastic.compute_scattering_functions(&surface(), &terms(), &arena, TransportMode::Radiance, true);
    assert_eq!(kinds(bsdf), vec![REFLECTION | DIFFUSE, REFLECTION | GLOSSY]);
    match bsdf.nth_matching(cat(ALL), 1).unwrap() {
        BxDFInstance::MicrofacetReflection(l) => {
            assert_eq!(cf(l.color), (0.4, 0.5, 0.6));
            match l.distribution {
                MicrofacetDistributionInstance::TrowbridgeReitz(d) => {
                    assert_eq!((f(d.azimuthal_x), f(d.azimuthal_y)), (0.3, 0.3));
                }
                _ => panic!("expected a trowbridge-reitz distribution"),
            }
            match l.fresnel {
                Fresnel::Dialectric { eta_parallel, eta_perpendicular } => {
                    assert_eq!((f(eta_parallel), f(eta_perpendicular)), (1.0, 1.5));
                }
                _ => panic!("expected a dielectric coat"),
            }
        }
        _ => panic!("expected a glossy lobe"),
    }
    let raw = Plastic { remap_roughness: false, ..plastic };
    let bsdf = raw.compute_scattering_functions(&surface(), &terms(), &arena, TransportMode::Radiance, true);
    match bsdf.nth_matching(cat(REFLECTION | GLOSSY), 0).unwrap() {
        BxDFInstance::MicrofacetReflection(l) => {
            assert_eq!(l.distribution.azimuths().0.to_bits(), s(0.15).to_bits());
        }
        _ => panic!("expected a glossy lobe"),
    }
}

fn glass(r: f64, t: f64, roughness: (f64, f64), remap: bool) -> Glass {
    Glass {
        color_reflected: rgb(r, r, r),
        color_transmitted: rgb(t, t, t),
        roughness: (s(roughness.0), s(roughness.1)),
        refraction: s(1.5),
        remap_roughness: remap,
    }
}

fn glass_kinds(g: Glass, allow: bool) -> Vec<u8> {
    let arena = Bump::new();
    let bsdf = g.compute_scattering_functions(&surface(), &terms(), &arena, TransportMode::Radiance, allow);
    assert_eq!(f(bsdf.index_of_refraction()), 1.5);
    kinds(bsdf)
}

#[test]
fn black_glass_has_no_lobes() {
    assert_eq!(glass_kinds(glass(0.0, 0.0, (0.0, 0.0), true), true), Vec::<u8>::new());
    assert_eq!(glass_kinds(glass(0.0, 0.0, (0.5, 0.5), true), false), Vec::<u8>::new());
}

#[test]
fn smooth_glass_is_one_lobe_where_allowed() {
    assert_eq!(glass_kinds(glass(1.0, 1.0, (0.0, 0.0), true), true), vec![REFLECTION | TRANSMISSION | SPECULAR]);
    assert_eq!(glass_kinds(glass(1.0, 0.0, (0.0, 0.0), true), true), vec![REFLECTION | TRANSMISSION | SPECULAR]);
}

#[test]
fn smooth_glass_is_two_specular_lobes_otherwise() {
    assert_eq!(
        glass_kinds(glass(1.0, 1.0, (0.0, 0.0), true), false),
        vec![SPECULAR | REFLECTION, SPECULAR | TRANSMISSION]
    );
    assert_eq!(glass_kinds(glass(1.0, 0.0, (0.0, 0.0), true), false), vec![SPECULAR | REFLECTION]);
    assert_eq!(glass_kinds(glass(0.0, 1.0, (0.0, 0.0), true), false), vec![SPECULAR | TRANSMISSION]);
}

#[test]
fn rough_glass_is_glossy() {
    for allow in [true, false] {
        assert_eq!(
            glass_kinds(glass(1.0, 1.0, (0.1, 0.0), true), allow),
            vec![REFLECTION | GLOSSY, TRANSMISSION | GLOSSY]
        );
        assert_eq!(glass_kinds(glass(1.0, 0.0, (0.0, 0.1), true), allow), vec![REFLECTION | GLOSSY]);
        assert_eq!(glass_kinds(glass(0.0, 1.0, (0.1, 0.1), true), allow), vec![TRANSMISSION | GLOSSY]);
    }
}

#[test]
fn rough_glass_takes_the_mapped_roughness_when_asked() {
    let arena = Bump::new();
    let widths = |g: Glass| {
        let bsdf = g.compute_scattering_functions(&surface(), &terms(), &arena, TransportMode::Importance, false);
        match bsdf.nth_matching(cat(TRANSMISSION | GLOSSY), 0).unwrap() {
            BxDFInstance::MicrofacetTransmission(l) => {
                assert_eq!(l.mode, TransportMode::Importance);
                assert_eq!((f(l.refraction.0), f(l.refraction.1)), (1.0, 1.5));
                let (x, y) = l.distribution.azimuths();
                (f(x), f(y))
            }
            _ => panic!("expected a glossy transmission lobe"),
        }
    };
    // the first component is the width along y
    assert_eq!(widths(glass(1.0, 1.0, (0.1, 0.2), true)), (0.4, 0.3));
    assert_eq!(widths(glass(1.0, 1.0, (0.1, 0.2), false)), (0.2, 0.1));
}

#[test]
fn material_instance_builds_what_its_material_builds() {
    let arena = Bump::new();
    let matte: MaterialInstance = Matte { color: rgb(0.5, 0.5, 0.5), roughness: s(0.0) }.into();
    let mirror: MaterialInstance = Mirror { color: rgb(0.5, 0.5, 0.5) }.into();
    let plastic: MaterialInstance = Plastic {
        diffuse_reflection: rgb(0.5, 0.5, 0.5),
        glossy_reflection: rgb(0.5, 0.5, 0.5),
        roughness: s(0.1),
        remap_roughness: false,
    }
    .into();
    let glass: MaterialInstance = glass(1.0, 1.0, (0.0, 0.0), false).into();
    let build = |m: &MaterialInstance| {
        kinds(m.compute_scattering_functions(&surface(), &terms(), &arena, TransportMode::Radiance, false))
    };
    assert_eq!(build(&matte), vec![REFLECTION | DIFFUSE]);
    assert_eq!(build(&mirror), vec![SPECULAR | REFLECTION]);
    assert_eq!(build(&plastic), vec![REFLECTION | DIFFUSE, REFLECTION | GLOSSY]);
    assert_eq!(build(&glass), vec![SPECULAR | REFLECTION, SPECULAR | TRANSMISSION]);
}

#[test]
fn interaction_without_material_scatters_nothing() {
    let arena = Bump::new();
    let bare = Interaction { intersection: surface(), emission: None, material: None };
    assert!(bare.compute_scattering_functions(&terms(), &arena, TransportMode::Radiance, false).is_none());
    assert_eq!(cf(bare.emitted_radiance(s(1.0))), (0.0, 0.0, 0.0));
    let matte = Interaction {
        intersection: surface(),
        emission: None,
        material: Some(Matte { color: rgb(0.5, 0.5, 0.5), roughness: s(0.0) }.into()),
    };
    let bsdf = matte.compute_scattering_functions(&terms(), &arena, TransportMode::Radiance, false).unwrap();
    assert_eq!(bsdf.num_components(), 1);
    assert_eq!(f(bsdf.geometric_normal().z), 1.0);
}
