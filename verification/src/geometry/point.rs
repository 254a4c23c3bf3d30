//! Positions in the plane and in space.
use vstd::prelude::*;
use crate::scalar::Scalar;
use crate::utils::{next_down, next_down_spec, next_up, next_up_spec};
use crate::geometry::vector::Vector3;

verus! {

#[derive(Clone, Copy, Debug, Default)]
pub struct Point2<T = Scalar> {
    pub x: T,
    pub y: T,
}

impl<T> Point2<T> {
    pub fn new(x: T, y: T) -> (r: Self)
        ensures
            r.x == x,
            r.y == y,
    {
        Point2 { x, y }
    }
}

#[derive(Clone, Copy, Debug, Default)]
pub struct Point3<T = Scalar> {
    pub x: T,
    pub y: T,
    pub z: T,
}

impl<T> Point3<T> {
    pub fn new(x: T, y: T, z: T) -> (r: Self)
        ensures
            r.x == x,
            r.y == y,
            r.z == z,
    {
        Point3 { x, y, z }
    }

    /// The coordinate along axis `index` (0, 1 or 2).
    pub open spec fn component(self, index: int) -> T {
        if index == 0 {
            self.x
        } else if index == 1 {
            self.y
        } else {
            self.z
        }
    }

    pub fn index(&self, index: u8) -> (r: &T)
        requires
            index < 3,
        ensures
            *r == self.component(index as int),
    {
        if index == 0 {
            &self.x
        } else if index == 1 {
            &self.y
        } else {
            &self.z
        }
    }
}

/// One coordinate of a point that was moved by `offset`, pushed one
/// representable value further in the direction of the move; a coordinate
/// that was not moved (or whose move is a NaN) stays.
pub open spec fn rounded_away(coordinate: Scalar, offset: Scalar) -> Scalar {
    let zero = Scalar { bits: 0 };
    if zero.lt_spec(offset) {
        next_up_spec(coordinate)
    } else if offset.lt_spec(zero) {
        next_down_spec(coordinate)
    } else {
        coordinate
    }
}

fn round_coordinate_away(coordinate: Scalar, offset: Scalar) -> (r: Scalar)
    ensures
        r == rounded_away(coordinate, offset),
{
    let zero = Scalar::zero_value();
    if offset.gt(zero) {
        next_up(coordinate)
    } else if offset.lt(zero) {
        next_down(coordinate)
    } else {
        coordinate
    }
}

impl Point3 {
    /// The point of three positive zeros.
    pub open spec fn origin() -> Self {
        Point3 { x: Scalar { bits: 0 }, y: Scalar { bits: 0 }, z: Scalar { bits: 0 } }
    }

    pub open spec fn min_spec(self, other: Self) -> Self {
        Point3 {
            x: self.x.min_spec(other.x),
            y: self.y.min_spec(other.y),
            z: self.z.min_spec(other.z),
        }
    }

    pub open spec fn max_spec(self, other: Self) -> Self {
        Point3 {
            x: self.x.max_spec(other.x),
            y: self.y.max_spec(other.y),
            z: self.z.max_spec(other.z),
        }
    }

    /// Whether any coordinate is a NaN.
    pub open spec fn has_nan(self) -> bool {
        self.x.nan() || self.y.nan() || self.z.nan()
    }

    pub fn zero() -> (r: Self)
        ensures
            r == Self::origin(),
    {
        Point3 { x: Scalar::zero_value(), y: Scalar::zero_value(), z: Scalar::zero_value() }
    }

    /// The componentwise minimum.
    pub fn min(&self, other: &Self) -> (r: Self)
        ensures
            r == self.min_spec(*other),
    {
        Point3 { x: self.x.min(other.x), y: self.y.min(other.y), z: self.z.min(other.z) }
    }

    /// The componentwise maximum.
    pub fn max(&self, other: &Self) -> (r: Self)
        ensures
            r == self.max_spec(*other),
    {
        Point3 { x: self.x.max(other.x), y: self.y.max(other.y), z: self.z.max(other.z) }
    }

    /// The last step of moving a point off a surface: `self` is the point
    /// already moved by `offset`, and each coordinate is pushed one
    /// representable value further along its own move, so that rounding
    /// cannot bring the point back onto the surface. A coordinate that was
    /// not moved stays as it is.
    pub fn round_away(&self, offset: Vector3) -> (r: Self)
        ensures
            r.x == rounded_away(self.x, offset.x),
            r.y == rounded_away(self.y, offset.y),
            r.z == rounded_away(self.z, offset.z),
    {
        Point3 {
            x: round_coordinate_away(self.x, offset.x),
            y: round_coordinate_away(self.y, offset.y),
            z: round_coordinate_away(self.z, offset.z),
        }
    }
}

} // verus!
