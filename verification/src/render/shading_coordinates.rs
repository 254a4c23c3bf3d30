//! Directions in the local frame of a surface, whose third axis is the
//! shading normal.
use vstd::prelude::*;
use crate::scalar::Scalar;
use crate::geometry::vector::Vector3;

verus! {

/// The cosine of the angle between the direction and the normal.
pub fn cos_theta(w: Vector3) -> (r: Scalar)
    ensures
        r == w.z,
{
    w.z
}

/// The absolute value of that cosine.
pub fn abs_cos_theta(w: Vector3) -> (r: Scalar)
    ensures
        r == w.z.abs_spec(),
{
    w.z.abs()
}

/// The mirror image of a direction about the normal.
pub fn mirrored(w: Vector3) -> (r: Vector3)
    ensures
        r.x == w.x.neg_spec(),
        r.y == w.y.neg_spec(),
        r.z == w.z,
{
    Vector3 { x: w.x.neg(), y: w.y.neg(), z: w.z }
}

} // verus!
