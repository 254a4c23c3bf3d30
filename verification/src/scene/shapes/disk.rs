//! Flat rings perpendicular to the z axis of their own space.
use vstd::prelude::*;
use crate::scalar::Scalar;
use crate::geometry::bounds::Bounds3;
use crate::geometry::point::Point3;
use crate::geometry::transform::Transform;

verus! {

#[derive(Clone, Copy, Debug)]
pub struct DiskShape {
    pub object_to_world: Transform,
    pub height: Scalar,
    pub radius: Scalar,
    pub inner_radius: Scalar,
}

/// Whether a ray hits a disk. `direction_z` is the ray's direction along
/// the disk's axis, `hit_time` the parameter at which the ray crosses the
/// disk's plane, `hit_radius_sq` the squared distance of the crossing from
/// the axis. A ray parallel to the plane has no hit; the crossing must be
/// strictly inside `(0, time_max)` and neither outside the outer radius nor
/// inside the inner one.
pub open spec fn disk_hit(
    direction_z: Scalar,
    hit_time: Scalar,
    time_max: Scalar,
    hit_radius_sq: Scalar,
    radius_sq: Scalar,
    inner_radius_sq: Scalar,
) -> bool {
    let zero = Scalar::zero_spec();
    &&& !direction_z.eq_spec(zero)
    &&& !hit_time.le_spec(zero)
    &&& !time_max.le_spec(hit_time)
    &&& !radius_sq.lt_spec(hit_radius_sq)
    &&& !hit_radius_sq.lt_spec(inner_radius_sq)
}

impl DiskShape {
    pub fn object_to_world(&self) -> (r: Transform)
        ensures
            r == self.object_to_world,
    {
        self.object_to_world
    }

    /// The box around the disk in its own space: flat, at the disk's
    /// height.
    pub open spec fn bounds_spec(self) -> Bounds3 {
        Bounds3 {
            min: Point3 { x: self.radius.neg_spec(), y: self.radius.neg_spec(), z: self.height },
            max: Point3 { x: self.radius, y: self.radius, z: self.height },
        }
    }

    pub fn bounds(&self) -> (r: Bounds3)
        ensures
            r == self.bounds_spec(),
    {
        Bounds3 {
            min: Point3 { x: self.radius.neg(), y: self.radius.neg(), z: self.height },
            max: Point3 { x: self.radius, y: self.radius, z: self.height },
        }
    }

    /// Decides the hit of a ray from the numbers of its crossing.
    pub fn intersect(
        direction_z: Scalar,
        hit_time: Scalar,
        time_max: Scalar,
        hit_radius_sq: Scalar,
        radius_sq: Scalar,
        inner_radius_sq: Scalar,
    ) -> (r: bool)
        ensures
            r == disk_hit(direction_z, hit_time, time_max, hit_radius_sq, radius_sq, inner_radius_sq),
            direction_z.zero() ==> !r,
    {
        let zero = Scalar::zero_value();
        if direction_z.equals(zero) {
            return false;
        }
        if hit_time.le(zero) || hit_time.ge(time_max) {
            return false;
        }
        if hit_radius_sq.gt(radius_sq) || hit_radius_sq.lt(inner_radius_sq) {
            return false;
        }
        true
    }
}

/// A ray parallel to the disk's plane has no hit, and a hit is strictly
/// inside the ray's extent.
pub proof fn lemma_parallel_ray_misses(
    direction_z: Scalar,
    hit_time: Scalar,
    time_max: Scalar,
    hit_radius_sq: Scalar,
    radius_sq: Scalar,
    inner_radius_sq: Scalar,
)
    ensures
        direction_z.zero() ==> !disk_hit(
            direction_z,
            hit_time,
            time_max,
            hit_radius_sq,
            radius_sq,
            inner_radius_sq,
        ),
        disk_hit(direction_z, hit_time, time_max, hit_radius_sq, radius_sq, inner_radius_sq)
            && !hit_time.nan() && !time_max.nan() ==> Scalar::zero_spec().lt_spec(hit_time)
            && hit_time.lt_spec(time_max),
{
}

} // verus!
