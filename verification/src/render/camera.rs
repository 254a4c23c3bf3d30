//! Cameras.
use vstd::prelude::*;
use std::sync::Arc;
use crate::scalar::Scalar;
use crate::geometry::bounds::Bounds2;
use crate::geometry::point::Point2;
use crate::geometry::transform::Transform;
use crate::geometry::vector::Vector3;
use crate::render::film::Film;
use crate::utils::share;

verus! {

/// A pinhole camera with its chain of transforms between world, camera,
/// screen and raster space.
pub struct PerspectiveCamera {
    pub film: Arc<Film>,
    pub camera_to_world: Transform,
    pub camera_to_screen: Transform,
    pub raster_to_camera: Transform,
    pub screen_to_raster: Transform,
    pub raster_to_screen: Transform,
    pub shutter_open: Scalar,
    pub shutter_close: Scalar,
    pub lens_radius: Scalar,
    pub focal_distance: Scalar,
    /// What one pixel to the right is in camera space.
    pub pixel_ray_dx: Vector3,
    /// What one pixel down is in camera space.
    pub pixel_ray_dy: Vector3,
    pub view_area: Scalar,
}

pub enum CameraInstance {
    PerspectiveCamera(PerspectiveCamera),
}

/// The weight of a ray with its two neighbours: that of the ray, unless one
/// of the neighbours has the weight zero.
pub fn differential_weight(weight: Scalar, weight_x: Scalar, weight_y: Scalar) -> (r: Scalar)
    ensures
        r == if weight_x.zero() || weight_y.zero() {
            Scalar::zero_spec()
        } else {
            weight
        },
{
    let zero = Scalar::zero_value();
    if weight_x.equals(zero) || weight_y.equals(zero) {
        zero
    } else {
        weight
    }
}

impl PerspectiveCamera {
    /// The pixels of the film.
    pub fn bounds(&self) -> (r: Bounds2<i32>)
        requires
            self.film.resolution.x <= i32::MAX,
            self.film.resolution.y <= i32::MAX,
        ensures
            r.min.x == 0 && r.min.y == 0,
            r.max.x == self.film.resolution.x,
            r.max.y == self.film.resolution.y,
    {
        let b = self.film.bounds();
        Bounds2 {
            min: Point2 { x: 0, y: 0 },
            max: Point2 { x: b.max.x as i32, y: b.max.y as i32 },
        }
    }

    pub fn film(&self) -> (r: Arc<Film>)
        ensures
            r == self.film,
    {
        share(&self.film)
    }

    /// Whether rays would have to start on a lens: the camera has a lens of
    /// positive radius. Such a camera cannot generate rays.
    pub fn has_lens(&self) -> (r: bool)
        ensures
            r == Scalar::zero_spec().lt_spec(self.lens_radius),
    {
        self.lens_radius.gt(Scalar::zero_value())
    }
}

impl CameraInstance {
    pub fn bounds(&self) -> (r: Bounds2<i32>)
        requires
            self->0.film.resolution.x <= i32::MAX,
            self->0.film.resolution.y <= i32::MAX,
        ensures
            r.min.x == 0 && r.min.y == 0,
            r.max.x == self->0.film.resolution.x,
            r.max.y == self->0.film.resolution.y,
    {
        match self {
            CameraInstance::PerspectiveCamera(c) => c.bounds(),
        }
    }

    pub fn film(&self) -> (r: Arc<Film>)
        ensures
            r == self->0.film,
    {
        match self {
            CameraInstance::PerspectiveCamera(c) => c.film(),
        }
    }
}

} // verus!
