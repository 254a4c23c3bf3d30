//! The family of shapes.
use vstd::prelude::*;
use crate::geometry::bounds::Bounds3;
use crate::geometry::point::Point3;
use crate::geometry::transform::Transform;
use crate::scene::shapes::disk::DiskShape;
use crate::scene::shapes::sphere::SphereShape;
use crate::scene::shapes::triangle_mesh::TriangleShape;

verus! {

/// The shape that is nowhere.
#[derive(Clone, Copy, Debug)]
pub struct NullShape {}

pub enum ShapeInstance {
    NullShape(NullShape),
    SphereShape(SphereShape),
    DiskShape(DiskShape),
    TriangleShape(TriangleShape),
}

impl NullShape {
    pub fn object_to_world(&self) -> (r: Transform)
        ensures
            r.matrix.is_identity(),
            r.inverse.is_identity(),
    {
        Transform::default()
    }

    /// The box of a single point at the origin.
    pub fn bounds(&self) -> (r: Bounds3)
        ensures
            r == (Bounds3 { min: Point3::origin(), max: Point3::origin() }),
    {
        Bounds3 { min: Point3::zero(), max: Point3::zero() }
    }

    /// Nothing is ever hit.
    pub fn any_intersect(&self) -> (r: bool)
        ensures
            !r,
    {
        false
    }
}

impl ShapeInstance {
    /// The box around the shape in its own space.
    pub open spec fn bounds_spec(self) -> Bounds3 {
        match self {
            ShapeInstance::SphereShape(s) => s.bounds_spec(),
            ShapeInstance::DiskShape(d) => d.bounds_spec(),
            _ => Bounds3 { min: Point3::origin(), max: Point3::origin() },
        }
    }

    /// The box around the shape in its own space. A triangle has none of
    /// its own: its corners are kept in world space.
    pub fn bounds(&self) -> (r: Bounds3)
        requires
            !(*self is TriangleShape),
        ensures
            r == self.bounds_spec(),
    {
        match self {
            ShapeInstance::NullShape(s) => s.bounds(),
            ShapeInstance::SphereShape(s) => s.bounds(),
            ShapeInstance::DiskShape(s) => s.bounds(),
            ShapeInstance::TriangleShape(_) => Bounds3 { min: Point3::zero(), max: Point3::zero() },
        }
    }

    /// The transform from the shape's own space to world space; triangles
    /// are in world space already.
    pub fn object_to_world(&self) -> (r: Transform)
        ensures
            match *self {
                ShapeInstance::SphereShape(s) => r == s.object_to_world,
                ShapeInstance::DiskShape(d) => r == d.object_to_world,
                _ => r.matrix.is_identity() && r.inverse.is_identity(),
            },
    {
        match self {
            ShapeInstance::NullShape(s) => s.object_to_world(),
            ShapeInstance::SphereShape(s) => s.object_to_world(),
            ShapeInstance::DiskShape(s) => s.object_to_world(),
            ShapeInstance::TriangleShape(_) => Transform::default(),
        }
    }
}

} // verus!
