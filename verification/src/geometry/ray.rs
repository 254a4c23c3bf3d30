//! Rays and ray differentials.
use vstd::prelude::*;
use crate::scalar::Scalar;
use crate::geometry::point::Point3;
use crate::geometry::vector::Vector3;

verus! {

/// A half-line from `origin` along `direction`, valid up to the parameter
/// `time_max`.
#[derive(Clone, Copy, Debug)]
pub struct Ray {
    pub origin: Point3,
    pub direction: Vector3,
    pub time_max: Scalar,
}

/// A ray with the two rays through the neighbouring pixels in x and y.
#[derive(Clone, Copy, Debug)]
pub struct RayDifferential {
    pub ray: Ray,
    pub ray_x: Ray,
    pub ray_y: Ray,
}

} // verus!
