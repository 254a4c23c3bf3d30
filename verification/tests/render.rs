use pbr_kernel::geometry::interaction::{Interaction, Intersection};
use pbr_kernel::geometry::point::{Point2, Point3};
use pbr_kernel::geometry::ray::Ray;
use pbr_kernel::geometry::transform::Transform;
use pbr_kernel::geometry::vector::Vector3;
use pbr_kernel::render::camera::{differential_weight, CameraInstance, PerspectiveCamera};
use pbr_kernel::render::film::Film;
use pbr_kernel::render::integrator::{filter_invalid, NullIntegrator, WhittedIntegrator};
use pbr_kernel::render::sampler::{NullSampler, RandomSampler, SamplerInstance};
use pbr_kernel::render::spectrum::{RadianceProblems, Spectrum};
use pbr_kernel::scalar::Scalar;
use pbr_kernel::scene::light::{AreaLight, LightInstance, NullLight, PointLight, RadianceSample};
use pbr_kernel::scene::primitive::{NullPrimitive, PrimitiveInstance};
use pbr_kernel::scene::scene::Scene;
use std::sync::Arc;

fn s(v: f64) -> Scalar {
    Scalar::from_bits(v.to_bits())
}

fn f(v: Scalar) -> f64 {
    f64::from_bits(v.to_bits())
}

fn rgb(r: f64, g: f64, b: f64) -> Spectrum {
    Spectrum { r: s(r), g: s(g), b: s(b) }
}

fn cf(c: Spectrum) -> (f64, f64, f64) {
    (f(c.r), f(c.g), f(c.b))
}

fn luminance(c: Spectrum) -> Scalar {
    s(f(c.r) * 0.212_671 + f(c.g) * 0.715_160 + f(c.b) * 0.072_169)
}

fn ray() -> Ray {
    Ray {
        origin: Point3::zero(),
        direction: Vector3::new(s(0.0), s(0.0), s(1.0)),
        time_max: s(f64::INFINITY),
    }
}

fn camera(width: u32, height: u32, lens_radius: f64) -> PerspectiveCamera {
    PerspectiveCamera {
        film: Arc::new(Film::new(Point2::new(width, height))),
        camera_to_world: Transform::default(),
        camera_to_screen: Transform::default(),
        raster_to_camera: Transform::default(),
        screen_to_raster: Transform::default(),
        raster_to_screen: Transform::default(),
        shutter_open: s(0.0),
        shutter_close: s(1.0),
        lens_radius: s(lens_radius),
        focal_distance: s(1.0),
        pixel_ray_dx: Vector3::zero(),
        pixel_ray_dy: Vector3::zero(),
        view_area: s(1.0),
    }
}

#[test]
fn named_colours() {
    assert_eq!(cf(Spectrum::white()), (1.0, 1.0, 1.0));
    assert_eq!(cf(Spectrum::black()), (0.0, 0.0, 0.0));
    assert_eq!(cf(Spectrum::default()), (0.0, 0.0, 0.0));
    assert_eq!(cf(Spectrum::greyscale(s(0.25))), (0.25, 0.25, 0.25));
}

#[test]
fn black_is_exactly_zero() {
    assert!(Spectrum::black().is_black());
    assert!(rgb(-0.0, 0.0, -0.0).is_black());
    assert!(!rgb(0.0, 1e-300, 0.0).is_black());
    assert!(!rgb(f64::NAN, 0.0, 0.0).is_black());
    assert!(!Spectrum::white().is_black());
}

#[test]
fn radiance_is_valid_when_finite_and_not_negative() {
    for c in [rgb(0.0, 0.0, 0.0), rgb(1.0, 2.0, 3.0), rgb(1.0, -0.1, 0.5), rgb(1e300, 1e300, 1e300)] {
        assert_eq!(c.is_valid(luminance(c)), None);
    }
}

#[test]
fn radiance_problems_are_told_apart() {
    assert_eq!(rgb(f64::NAN, 0.0, 0.0).is_valid(s(1.0)), Some(RadianceProblems::HasNaNs));
    assert_eq!(rgb(0.0, f64::NAN, 0.0).is_valid(s(1.0)), Some(RadianceProblems::HasNaNs));
    assert_eq!(rgb(0.0, 0.0, f64::NAN).is_valid(s(-1.0)), Some(RadianceProblems::HasNaNs));
    let dark = rgb(-1.0, 0.0, 0.0);
    assert_eq!(dark.is_valid(luminance(dark)), Some(RadianceProblems::NegativeLuminance));
    let bright = rgb(f64::INFINITY, 0.0, 0.0);
    assert_eq!(bright.is_valid(luminance(bright)), Some(RadianceProblems::InfiniteLuminance));
    let darkest = rgb(f64::NEG_INFINITY, 0.0, 0.0);
    assert_eq!(darkest.is_valid(luminance(darkest)), Some(RadianceProblems::NegativeLuminance));
    // the luminance of opposite infinities is itself a NaN, though no
    // channel is one: it is outside [0, infinity) all the same
    let mixed = rgb(f64::INFINITY, f64::NEG_INFINITY, 0.0);
    assert!(f(luminance(mixed)).is_nan());
    assert_eq!(mixed.is_valid(luminance(mixed)), Some(RadianceProblems::HasNaNs));
    assert_eq!(rgb(1.0, 1.0, 1.0).is_valid(s(f64::NAN)), Some(RadianceProblems::HasNaNs));
    assert_eq!(rgb(1.0, 1.0, 1.0).is_valid(luminance(rgb(1.0, 1.0, 1.0))), None);
}

#[test]
fn invalid_radiance_is_made_black() {
    let good = rgb(1.0, 2.0, 3.0);
    assert_eq!(cf(filter_invalid(good, luminance(good))), (1.0, 2.0, 3.0));
    let nan = rgb(f64::NAN, 2.0, 3.0);
    assert_eq!(cf(filter_invalid(nan, luminance(nan))), (0.0, 0.0, 0.0));
    let dark = rgb(-1.0, 0.0, 0.0);
    assert_eq!(cf(filter_invalid(dark, luminance(dark))), (0.0, 0.0, 0.0));
    let bright = rgb(f64::INFINITY, 0.0, 0.0);
    assert_eq!(cf(filter_invalid(bright, luminance(bright))), (0.0, 0.0, 0.0));
    let mixed = rgb(f64::INFINITY, f64::NEG_INFINITY, 0.0);
    assert_eq!(cf(filter_invalid(mixed, luminance(mixed))), (0.0, 0.0, 0.0));
}

#[test]
fn null_sampler_takes_one_sample() {
    let mut sampler = NullSampler {};
    sampler.start_pixel(&Point2::new(3, 4));
    assert!(!sampler.start_next());
    assert_eq!(sampler.samples_per_pixel(), 0);
}

#[test]
fn random_sampler_counts_its_samples() {
    let mut sampler = RandomSampler { samples_per_pixel: 3, current_sample: 7 };
    sampler.start_pixel(&Point2::new(0, 0));
    assert_eq!(sampler.current_sample, 0);
    assert!(sampler.start_next());
    assert!(sampler.start_next());
    assert!(!sampler.start_next());
    assert_eq!(sampler.current_sample, 3);
    assert_eq!(sampler.samples_per_pixel(), 3);
}

fn samples_of_a_pixel(mut sampler: SamplerInstance) -> i64 {
    sampler.start_pixel(&Point2::new(0, 0));
    let mut taken = 0;
    loop {
        taken += 1;
        if !sampler.start_next() {
            break;
        }
    }
    taken
}

#[test]
fn every_pixel_gets_at_least_one_sample() {
    assert_eq!(samples_of_a_pixel(SamplerInstance::NullSampler(NullSampler {})), 1);
    for (budget, taken) in [(-5, 1), (0, 1), (1, 1), (2, 2), (16, 16)] {
        let sampler = SamplerInstance::RandomSampler(RandomSampler { samples_per_pixel: budget, current_sample: 9 });
        assert_eq!(sampler.samples_per_pixel(), budget);
        assert_eq!(samples_of_a_pixel(sampler), taken);
    }
}

#[test]
fn camera_sample_is_the_pixel_itself() {
    for sampler in [
        SamplerInstance::NullSampler(NullSampler {}),
        SamplerInstance::RandomSampler(RandomSampler { samples_per_pixel: 4, current_sample: 2 }),
    ] {
        let sample = sampler.get_camera_sample(Point2::new(1000, 299));
        assert_eq!((f(sample.film_point.x), f(sample.film_point.y)), (1000.0, 299.0));
        assert_eq!((sample.lens_point.x.to_bits(), sample.lens_point.y.to_bits()), (0, 0));
        let origin = sampler.get_camera_sample(Point2::new(0, 0));
        assert_eq!((origin.film_point.x.to_bits(), origin.film_point.y.to_bits()), (0, 0));
    }
}

#[test]
fn film_starts_black() {
    let film = Film::new(Point2::new(3, 2));
    assert_eq!(film.pixels.len(), 6);
    assert!(film.pixels.iter().all(|c| c.is_black()));
    let b = film.bounds();
    assert_eq!((b.min.x, b.min.y, b.max.x, b.max.y), (0, 0, 3, 2));
}

#[test]
fn film_keeps_pixels_row_by_row() {
    let mut film = Film::new(Point2::new(3, 2));
    film.add_sample(Point2::new(2, 0), rgb(1.0, 0.0, 0.0), s(1.0));
    film.add_sample(Point2::new(0, 1), rgb(0.0, 1.0, 0.0), s(1.0));
    film.add_sample(Point2::new(2, 1), rgb(0.0, 0.0, 1.0), s(1.0));
    assert_eq!(cf(film.pixels[2]), (1.0, 0.0, 0.0));
    assert_eq!(cf(film.pixels[3]), (0.0, 1.0, 0.0));
    assert_eq!(cf(film.pixels[5]), (0.0, 0.0, 1.0));
    assert_eq!(cf(film.pixel(Point2::new(2, 1))), (0.0, 0.0, 1.0));
    assert_eq!(cf(film.pixel(Point2::new(1, 1))), (0.0, 0.0, 0.0));
    // a new sample replaces the old one
    film.add_sample(Point2::new(2, 1), rgb(0.5, 0.5, 0.5), s(0.25));
    assert_eq!(cf(film.pixel(Point2::new(2, 1))), (0.5, 0.5, 0.5));
}

#[test]
fn camera_sees_the_pixels_of_its_film() {
    let c = camera(16, 9, 0.0);
    let b = c.bounds();
    assert_eq!((b.min.x, b.min.y, b.max.x, b.max.y), (0, 0, 16, 9));
    assert!(Arc::ptr_eq(&c.film(), &c.film));
    assert!(!c.has_lens());
    assert!(camera(1, 1, 0.5).has_lens());
    assert!(!camera(1, 1, -0.5).has_lens());
    let instance = CameraInstance::PerspectiveCamera(c);
    assert_eq!(instance.bounds().max.y, 9);
    assert_eq!(instance.film().resolution.x, 16);
}

#[test]
fn differential_weight_is_zero_when_a_neighbour_has_none() {
    assert_eq!(f(differential_weight(s(1.0), s(1.0), s(1.0))), 1.0);
    assert_eq!(f(differential_weight(s(0.5), s(1.0), s(2.0))), 0.5);
    assert_eq!(f(differential_weight(s(1.0), s(0.0), s(1.0))), 0.0);
    assert_eq!(f(differential_weight(s(1.0), s(1.0), s(-0.0))), 0.0);
}

#[test]
fn whitted_integrator_keeps_its_parts() {
    let sampler = SamplerInstance::RandomSampler(RandomSampler { samples_per_pixel: 4, current_sample: 0 });
    let mut integrator = WhittedIntegrator::new(20, CameraInstance::PerspectiveCamera(camera(4, 4, 0.0)), sampler);
    assert_eq!(integrator.max_depth, 20);
    assert_eq!(integrator.get_sampler(0), sampler);
    assert_eq!(integrator.get_sampler(17), sampler);
    let c = integrator.get_camera();
    assert!(Arc::ptr_eq(&c, &integrator.camera));
    assert_eq!(c.bounds().max.x, 4);
    NullIntegrator {}.render();
}

#[test]
fn bounces_stop_below_the_maximum_depth() {
    let sampler = SamplerInstance::NullSampler(NullSampler {});
    let integrator = WhittedIntegrator::new(3, CameraInstance::PerspectiveCamera(camera(1, 1, 0.0)), sampler);
    assert!(integrator.bounces_at(0));
    assert!(integrator.bounces_at(1));
    assert!(!integrator.bounces_at(2));
    assert!(!integrator.bounces_at(3));
    assert!(!integrator.bounces_at(u32::MAX));
    let flat = WhittedIntegrator::new(0, CameraInstance::PerspectiveCamera(camera(1, 1, 0.0)), sampler);
    assert!(!flat.bounces_at(0));
}

#[test]
fn mirrored_rays_need_light_to_carry() {
    let white = Spectrum::white();
    assert!(WhittedIntegrator::specular_reflect(s(1.0), &white, s(0.5)));
    assert!(!WhittedIntegrator::specular_reflect(s(0.0), &white, s(0.5)));
    assert!(!WhittedIntegrator::specular_reflect(s(-1.0), &white, s(0.5)));
    assert!(!WhittedIntegrator::specular_reflect(s(1.0), &Spectrum::black(), s(0.5)));
    assert!(!WhittedIntegrator::specular_reflect(s(1.0), &white, s(0.0)));
    assert!(WhittedIntegrator::specular_reflect(s(1.0), &white, s(f64::NAN)));
}

#[test]
fn lights_have_their_backgrounds() {
    assert_eq!(cf(NullLight {}.background_radiance(&ray())), (0.0, 0.0, 0.0));
    assert_eq!(cf(NullLight {}.power()), (0.0, 0.0, 0.0));
    let point = PointLight { position: Point3::new(s(0.0), s(5.0), s(0.0)), color: rgb(100.0, 100.0, 100.0) };
    assert_eq!(cf(point.background_radiance(&ray())), (0.1, 0.1, 0.1));
    let area = AreaLight { emitted_color: rgb(0.3, 0.0, 0.0) };
    assert_eq!(cf(area.background_radiance(&ray())), (1.0, 1.0, 1.0));
    assert_eq!(cf(area.power()), (0.0, 0.0, 0.0));
    assert_eq!(cf(LightInstance::NullLight(NullLight {}).background_radiance(&ray())), (0.0, 0.0, 0.0));
    assert_eq!(cf(LightInstance::PointLight(point).background_radiance(&ray())), (0.1, 0.1, 0.1));
    assert_eq!(cf(LightInstance::AreaLight(area).background_radiance(&ray())), (1.0, 1.0, 1.0));
}

#[test]
fn area_light_emits_to_its_front_only() {
    let area = AreaLight { emitted_color: rgb(0.3, 0.2, 0.1) };
    assert_eq!(cf(area.emitted_radiance(s(0.5))), (0.3, 0.2, 0.1));
    assert_eq!(cf(area.emitted_radiance(s(0.0))), (0.0, 0.0, 0.0));
    assert_eq!(cf(area.emitted_radiance(s(-0.5))), (0.0, 0.0, 0.0));
    let hit = Interaction { intersection: Intersection::default(), emission: Some(area), material: None };
    assert_eq!(cf(hit.emitted_radiance(s(1.0))), (0.3, 0.2, 0.1));
    assert_eq!(cf(hit.emitted_radiance(s(-1.0))), (0.0, 0.0, 0.0));
}

#[test]
fn point_light_sample_carries_the_light_position() {
    let point = PointLight { position: Point3::new(s(0.0), s(5.0), s(0.0)), color: rgb(100.0, 100.0, 100.0) };
    let mut at = Intersection::default();
    at.point = Point3::new(s(0.0), s(1.0), s(0.0));
    let sample = point.sample_radiance(&at, Vector3::new(s(0.0), s(1.0), s(0.0)), s(4.0), rgb(6.25, 6.25, 6.25));
    assert_eq!(cf(sample.color), (6.25, 6.25, 6.25));
    assert_eq!(f(sample.probability_distribution), 1.0);
    assert_eq!(f(sample.incident_direction.y), 1.0);
    assert_eq!(f(sample.intersections.0.point.y), 1.0);
    assert_eq!(f(sample.intersections.1.point.y), 5.0);
    assert_eq!(f(sample.intersections.1.distance), 4.0);
    assert_eq!(f(sample.intersections.1.normal.z), 0.0);
    assert!(sample.is_usable());
}

#[test]
fn sources_that_are_not_sampled_give_the_empty_sample() {
    let mut at = Intersection::default();
    at.point = Point3::new(s(1.0), s(2.0), s(3.0));
    at.distance = s(7.0);
    let none = NullLight {}.sample_radiance(&at);
    let area = AreaLight { emitted_color: rgb(2.0, 3.0, 4.0) }.sample_radiance(&at);
    for sample in [none, area] {
        assert_eq!(sample.color.r.to_bits(), 0);
        assert_eq!(sample.color.g.to_bits(), 0);
        assert_eq!(sample.color.b.to_bits(), 0);
        assert_eq!(sample.incident_direction.x.to_bits(), 0);
        assert_eq!(sample.incident_direction.y.to_bits(), 0);
        assert_eq!(sample.incident_direction.z.to_bits(), 0);
        assert_eq!(sample.probability_distribution.to_bits(), 0);
        assert_eq!(sample.intersections.0.point.x.to_bits(), 0);
        assert_eq!(sample.intersections.0.distance.to_bits(), 0);
        assert_eq!(sample.intersections.1.point.z.to_bits(), 0);
        assert_eq!(sample.intersections.1.distance.to_bits(), 0);
    }
}

#[test]
fn samples_without_light_are_not_used() {
    assert!(!RadianceSample::default().is_usable());
    assert!(!NullLight {}.sample_radiance(&Intersection::default()).is_usable());
    assert!(!AreaLight { emitted_color: rgb(1.0, 1.0, 1.0) }.sample_radiance(&Intersection::default()).is_usable());
    let mut sample = RadianceSample::default();
    sample.color = rgb(1.0, 1.0, 1.0);
    assert!(!sample.is_usable());
    sample.probability_distribution = s(1.0);
    assert!(sample.is_usable());
    sample.color = rgb(0.0, -0.0, 0.0);
    assert!(!sample.is_usable());
}

#[test]
fn scene_keeps_its_lights_in_order() {
    let lights = vec![
        LightInstance::NullLight(NullLight {}),
        LightInstance::AreaLight(AreaLight { emitted_color: rgb(1.0, 0.0, 0.0) }),
        LightInstance::PointLight(PointLight { position: Point3::zero(), color: rgb(0.0, 1.0, 0.0) }),
    ];
    let root = PrimitiveInstance::NullPrimitive(NullPrimitive {});
    let bounds = NullPrimitive {}.world_bounds();
    let scene = Scene::new(root, lights, bounds);
    assert_eq!(scene.lights.len(), 3);
    assert!(matches!(scene.lights[0], LightInstance::NullLight(_)));
    assert!(matches!(scene.lights[1], LightInstance::AreaLight(_)));
    assert!(matches!(scene.lights[2], LightInstance::PointLight(_)));
    assert!(matches!(scene.root, PrimitiveInstance::NullPrimitive(_)));
    assert_eq!(f(scene.world_bounds.max.x), 0.0);
    assert!(!Scene::any_intersect(&None));
    let hit = Interaction { intersection: Intersection::default(), emission: None, material: None };
    assert!(Scene::any_intersect(&Some(hit)));
}

#[test]
fn preprocessing_leaves_a_light_as_it_is() {
    let mut light = LightInstance::PointLight(PointLight {
        position: Point3::new(s(1.0), s(2.0), s(3.0)),
        color: rgb(4.0, 5.0, 6.0),
    });
    light.preprocess(&NullPrimitive {}.world_bounds());
    match light {
        LightInstance::PointLight(l) => {
            assert_eq!(f(l.position.y), 2.0);
            assert_eq!(cf(l.color), (4.0, 5.0, 6.0));
        }
        _ => panic!("the light changed its kind"),
    }
}
