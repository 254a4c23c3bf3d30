//! Spheres around the origin of their own space.
use vstd::prelude::*;
use crate::scalar::Scalar;
use crate::geometry::bounds::Bounds3;
use crate::geometry::error::ErrorFloat;
use crate::geometry::point::Point3;
use crate::geometry::transform::Transform;

verus! {

#[derive(Clone, Copy, Debug)]
pub struct SphereShape {
    pub object_to_world: Transform,
    pub radius: Scalar,
}

/// The parameter at which a ray of extent `time_max` meets a sphere, from
/// the discriminant of the ray's quadratic and its two roots in order.
/// There is none where the discriminant is not positive (the ray misses or
/// only touches), where the roots are missing, where the nearer root is
/// beyond the ray's extent or the farther one not in front of the origin.
/// Otherwise it is the nearer root if that is certainly in front of the
/// origin, else the farther one, and it is kept only if it is certainly
/// within the ray's extent.
pub open spec fn sphere_hit(
    discriminant: Scalar,
    roots: Option<(ErrorFloat, ErrorFloat)>,
    time_max: Scalar,
) -> Option<ErrorFloat> {
    let zero = Scalar::zero_spec();
    if discriminant.le_spec(zero) {
        None
    } else {
        match roots {
            None => None,
            Some((t0, t1)) => {
                if time_max.lt_spec(t0.high) || t1.low.le_spec(zero) {
                    None
                } else {
                    let t_collision = if t0.low.le_spec(zero) {
                        t1
                    } else {
                        t0
                    };
                    if time_max.lt_spec(t_collision.high) {
                        None
                    } else {
                        Some(t_collision)
                    }
                }
            },
        }
    }
}

impl SphereShape {
    pub fn object_to_world(&self) -> (r: Transform)
        ensures
            r == self.object_to_world,
    {
        self.object_to_world
    }

    /// The box around the sphere in its own space: from `-radius` to
    /// `radius` on every axis.
    pub open spec fn bounds_spec(self) -> Bounds3 {
        let low = self.radius.neg_spec();
        Bounds3 {
            min: Point3 { x: low, y: low, z: low },
            max: Point3 { x: self.radius, y: self.radius, z: self.radius },
        }
    }

    pub fn bounds(&self) -> (r: Bounds3)
        ensures
            r == self.bounds_spec(),
    {
        let low = self.radius.neg();
        Bounds3::new(
            Point3::new(low, low, low),
            Point3::new(self.radius, self.radius, self.radius),
        )
    }

    /// Decides the hit of a ray from the solution of its quadratic.
    pub fn intersect(
        discriminant: Scalar,
        roots: Option<(ErrorFloat, ErrorFloat)>,
        time_max: Scalar,
    ) -> (r: Option<ErrorFloat>)
        ensures
            r == sphere_hit(discriminant, roots, time_max),
            discriminant.le_spec(Scalar::zero_spec()) ==> r is None,
    {
        let zero = Scalar::zero_value();
        if discriminant.le(zero) {
            return None;
        }
        match roots {
            None => None,
            Some((t0, t1)) => {
                if t0.high.gt(time_max) || t1.low.le(zero) {
                    return None;
                }
                let t_collision = if t0.low.le(zero) {
                    t1
                } else {
                    t0
                };
                if t_collision.high.gt(time_max) {
                    return None;
                }
                Some(t_collision)
            },
        }
    }

    /// Moves a hit point off the sphere's axis, where the angle around the
    /// axis has no value: a point with x and y both zero gets `nudge` (a
    /// tiny fraction of the radius) as its x.
    pub fn off_axis(point_hit: Point3, nudge: Scalar) -> (r: Point3)
        ensures
            r.y == point_hit.y,
            r.z == point_hit.z,
            r.x == if point_hit.x.zero() && point_hit.y.zero() {
                nudge
            } else {
                point_hit.x
            },
    {
        let zero = Scalar::zero_value();
        if point_hit.x.equals(zero) && point_hit.y.equals(zero) {
            Point3 { x: nudge, y: point_hit.y, z: point_hit.z }
        } else {
            point_hit
        }
    }
}

/// A ray that only touches the sphere, or misses it, has no hit.
pub proof fn lemma_tangent_ray_misses(
    discriminant: Scalar,
    roots: Option<(ErrorFloat, ErrorFloat)>,
    time_max: Scalar,
)
    requires
        discriminant.le_spec(Scalar::zero_spec()),
    ensures
        sphere_hit(discriminant, roots, time_max) is None,
{
}

/// A hit is never at or behind the ray's origin: the whole interval of the
/// parameter is above zero, and it ends within the ray's extent. It is one
/// of the two roots, and the farther one only where the nearer one may be
/// at or behind the origin. So a ray that starts on the surface gets the
/// exit hit or none.
pub proof fn lemma_hit_is_in_front(
    discriminant: Scalar,
    t0: ErrorFloat,
    t1: ErrorFloat,
    time_max: Scalar,
)
    requires
        !t0.low.nan() && !t1.low.nan() && !t0.high.nan() && !t1.high.nan(),
        !time_max.nan(),
        sphere_hit(discriminant, Some((t0, t1)), time_max) is Some,
    ensures
        ({
            let t = sphere_hit(discriminant, Some((t0, t1)), time_max)->0;
            &&& Scalar::zero_spec().lt_spec(t.low)
            &&& t.high.le_spec(time_max)
            &&& t == t0 || t == t1
            &&& t0.low.le_spec(Scalar::zero_spec()) ==> t == t1
        }),
{
}

} // verus!
