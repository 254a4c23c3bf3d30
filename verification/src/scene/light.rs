//! Sources of light.
use vstd::prelude::*;
use crate::scalar::{Scalar, ONE_BITS};
use crate::geometry::bounds::Bounds3;
use crate::geometry::interaction::Intersection;
use crate::geometry::point::Point3;
use crate::geometry::ray::Ray;
use crate::geometry::vector::Vector3;
use crate::render::spectrum::Spectrum;

verus! {

/// The pattern of `0.1`, the level of the ambient light of a point light.
pub const AMBIENT_BITS: u64 = 0x3fb9_9999_9999_999a;

/// The light that one source sends to a surface point.
#[derive(Clone, Copy, Debug)]
pub struct RadianceSample {
    pub color: Spectrum,
    pub incident_direction: Vector3,
    pub probability_distribution: Scalar,
    /// The lit point and the point on the light.
    pub intersections: (Intersection, Intersection),
}

impl Default for RadianceSample {
    /// No light: everything zero.
    fn default() -> (r: Self)
        ensures
            r == Self::none_spec(),
    {
        RadianceSample {
            color: Spectrum::black(),
            incident_direction: Vector3::zero(),
            probability_distribution: Scalar::zero_value(),
            intersections: (Intersection::default(), Intersection::default()),
        }
    }
}

impl RadianceSample {
    /// The sample of a source that sends nothing: black, from no direction,
    /// with density zero, between two default surface points.
    pub open spec fn none_spec() -> Self {
        RadianceSample {
            color: Spectrum::black_spec(),
            incident_direction: Vector3::origin(),
            probability_distribution: Scalar::zero_spec(),
            intersections: (Intersection::default_spec(), Intersection::default_spec()),
        }
    }

    pub open spec fn is_usable_spec(self) -> bool {
        !self.color.black_channels() && !self.probability_distribution.zero()
    }

    /// Whether the sample can light anything: its colour is not black and
    /// its density is not zero.
    pub fn is_usable(&self) -> (r: bool)
        ensures
            r == self.is_usable_spec(),
    {
        !(self.color.is_black() || self.probability_distribution.equals(Scalar::zero_value()))
    }
}

#[derive(Clone, Copy, Debug)]
pub struct NullLight {}

#[derive(Clone, Copy, Debug)]
pub struct PointLight {
    pub position: Point3,
    pub color: Spectrum,
}

/// A surface that emits the same light in every direction of its front.
#[derive(Clone, Copy, Debug)]
pub struct AreaLight {
    pub emitted_color: Spectrum,
}

#[derive(Clone, Copy, Debug)]
pub enum LightInstance {
    NullLight(NullLight),
    PointLight(PointLight),
    AreaLight(AreaLight),
}

impl NullLight {
    pub fn power(&self) -> (r: Spectrum)
        ensures
            r == Spectrum::black_spec(),
    {
        Spectrum::black()
    }

    pub fn background_radiance(&self, _ray: &Ray) -> (r: Spectrum)
        ensures
            r == Spectrum::black_spec(),
    {
        Spectrum::black()
    }

    /// This source sends nothing to any point.
    pub fn sample_radiance(&self, _intersection: &Intersection) -> (r: RadianceSample)
        ensures
            r == RadianceSample::none_spec(),
            !r.is_usable_spec(),
    {
        RadianceSample::default()
    }
}

impl PointLight {
    pub fn background_radiance(&self, _ray: &Ray) -> (r: Spectrum)
        ensures
            r == Spectrum::greyscale_spec(Scalar::of(AMBIENT_BITS)),
    {
        Spectrum::greyscale(Scalar::from_bits(AMBIENT_BITS))
    }

    /// The sample of this light at a surface point, from the direction
    /// towards the light, the distance to it and the light that arrives
    /// (the light's colour over the squared distance). The density is 1;
    /// the point on the light is the light's position at that distance.
    pub fn sample_radiance(
        &self,
        intersection: &Intersection,
        incident_direction: Vector3,
        distance: Scalar,
        color: Spectrum,
    ) -> (r: RadianceSample)
        ensures
            r.color == color,
            r.incident_direction == incident_direction,
            r.probability_distribution.bits == ONE_BITS,
            r.intersections.0 == *intersection,
            r.intersections.1 == Intersection::default_spec().at(self.position, distance),
    {
        let base = Intersection::default();
        let light_interaction = Intersection {
            point: self.position,
            point_derivative: base.point_derivative,
            outgoing: base.outgoing,
            normal: base.normal,
            normal_derivative: base.normal_derivative,
            shading_normal: base.shading_normal,
            shading_normal_derivative: base.shading_normal_derivative,
            distance,
            error: base.error,
        };
        RadianceSample {
            color,
            incident_direction,
            probability_distribution: Scalar::one(),
            intersections: (*intersection, light_interaction),
        }
    }
}

impl AreaLight {
    /// The light towards a direction: the emitted colour in front of the
    /// surface, nothing behind it.
    pub open spec fn emitted_spec(self, normal_dot: Scalar) -> Spectrum {
        if Scalar::zero_spec().lt_spec(normal_dot) {
            self.emitted_color
        } else {
            Spectrum::black_spec()
        }
    }

    pub fn power(&self) -> (r: Spectrum)
        ensures
            r == Spectrum::black_spec(),
    {
        Spectrum::black()
    }

    pub fn background_radiance(&self, _ray: &Ray) -> (r: Spectrum)
        ensures
            r == Spectrum::white_spec(),
    {
        Spectrum::white()
    }

    /// An emitting surface is not sampled as a source: it sends light only
    /// along rays that meet it, so the sample is the empty one.
    pub fn sample_radiance(&self, _intersection: &Intersection) -> (r: RadianceSample)
        ensures
            r == RadianceSample::none_spec(),
            !r.is_usable_spec(),
    {
        RadianceSample::default()
    }

    /// The light that the surface emits towards a direction whose dot
    /// product with the surface normal is `normal_dot`.
    pub fn emitted_radiance(&self, normal_dot: Scalar) -> (r: Spectrum)
        ensures
            r == self.emitted_spec(normal_dot),
    {
        if normal_dot.gt(Scalar::zero_value()) {
            self.emitted_color
        } else {
            Spectrum::black()
        }
    }
}

impl LightInstance {
    /// What a light does once the extent of the scene is known: none of the
    /// lights needs anything of it.
    pub fn preprocess(&mut self, _world_bounds: &Bounds3)
        ensures
            *final(self) == *old(self),
    {
    }

    /// What a ray that leaves the scene sees of this light.
    pub fn background_radiance(&self, ray: &Ray) -> (r: Spectrum)
        ensures
            r == match *self {
                LightInstance::NullLight(_) => Spectrum::black_spec(),
                LightInstance::PointLight(_) => Spectrum::greyscale_spec(Scalar::of(AMBIENT_BITS)),
                LightInstance::AreaLight(_) => Spectrum::white_spec(),
            },
    {
        match self {
            LightInstance::NullLight(l) => l.background_radiance(ray),
            LightInstance::PointLight(l) => l.background_radiance(ray),
            LightInstance::AreaLight(l) => l.background_radiance(ray),
        }
    }
}

} // verus!
