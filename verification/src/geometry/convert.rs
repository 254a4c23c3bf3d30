//! Passing between points, vectors and normals.
use vstd::prelude::*;
use vstd::std_specs::convert::FromSpecImpl;
use crate::scalar::Scalar;
use crate::geometry::normal::Normal3;
use crate::geometry::point::{Point2, Point3};
use crate::geometry::vector::{Vector2, Vector3};

verus! {

/// The position of a point as a displacement from the origin.
impl<T> From<Point2<T>> for Vector2<T> {
    fn from(p: Point2<T>) -> (r: Self) {
        Vector2 { x: p.x, y: p.y }
    }
}

impl<T> FromSpecImpl<Point2<T>> for Vector2<T> {
    open spec fn obeys_from_spec() -> bool {
        true
    }

    open spec fn from_spec(p: Point2<T>) -> Self {
        Vector2 { x: p.x, y: p.y }
    }
}

/// The position of a point as a displacement from the origin.
impl<T> From<Point3<T>> for Vector3<T> {
    fn from(p: Point3<T>) -> (r: Self) {
        Vector3 { x: p.x, y: p.y, z: p.z }
    }
}

impl<T> FromSpecImpl<Point3<T>> for Vector3<T> {
    open spec fn obeys_from_spec() -> bool {
        true
    }

    open spec fn from_spec(p: Point3<T>) -> Self {
        Vector3 { x: p.x, y: p.y, z: p.z }
    }
}

/// The point that a displacement from the origin leads to.
impl<T> From<Vector3<T>> for Point3<T> {
    fn from(v: Vector3<T>) -> (r: Self) {
        Point3 { x: v.x, y: v.y, z: v.z }
    }
}

impl<T> FromSpecImpl<Vector3<T>> for Point3<T> {
    open spec fn obeys_from_spec() -> bool {
        true
    }

    open spec fn from_spec(v: Vector3<T>) -> Self {
        Point3 { x: v.x, y: v.y, z: v.z }
    }
}

/// A direction taken as a normal.
impl<T> From<Vector3<T>> for Normal3<T> {
    fn from(other: Vector3<T>) -> (r: Self) {
        Normal3 { x: other.x, y: other.y, z: other.z }
    }
}

impl<T> FromSpecImpl<Vector3<T>> for Normal3<T> {
    open spec fn obeys_from_spec() -> bool {
        true
    }

    open spec fn from_spec(other: Vector3<T>) -> Self {
        Normal3 { x: other.x, y: other.y, z: other.z }
    }
}

/// A normal taken as a direction.
impl<T> From<Normal3<T>> for Vector3<T> {
    fn from(other: Normal3<T>) -> (r: Self) {
        Vector3 { x: other.x, y: other.y, z: other.z }
    }
}

impl<T> FromSpecImpl<Normal3<T>> for Vector3<T> {
    open spec fn obeys_from_spec() -> bool {
        true
    }

    open spec fn from_spec(other: Normal3<T>) -> Self {
        Vector3 { x: other.x, y: other.y, z: other.z }
    }
}

/// A pixel as a point of the film.
impl From<Point2<u32>> for Point2<Scalar> {
    fn from(p: Point2<u32>) -> (r: Self) {
        Point2 { x: Scalar::from_u32(p.x), y: Scalar::from_u32(p.y) }
    }
}

impl FromSpecImpl<Point2<u32>> for Point2<Scalar> {
    open spec fn obeys_from_spec() -> bool {
        true
    }

    open spec fn from_spec(p: Point2<u32>) -> Self {
        Point2 { x: Scalar::from_u32_spec(p.x), y: Scalar::from_u32_spec(p.y) }
    }
}

} // verus!
