//! Surface normals.
use vstd::prelude::*;
use crate::scalar::Scalar;

verus! {

#[derive(Clone, Copy, Debug, Default)]
pub struct Normal3<T = Scalar> {
    pub x: T,
    pub y: T,
    pub z: T,
}

impl<T> Normal3<T> {
    pub fn new(x: T, y: T, z: T) -> (r: Self)
        ensures
            r.x == x,
            r.y == y,
            r.z == z,
    {
        Normal3 { x, y, z }
    }
}

impl Normal3 {
    pub open spec fn abs_spec(self) -> Self {
        Normal3 { x: self.x.abs_spec(), y: self.y.abs_spec(), z: self.z.abs_spec() }
    }

    pub open spec fn neg_spec(self) -> Self {
        Normal3 { x: self.x.neg_spec(), y: self.y.neg_spec(), z: self.z.neg_spec() }
    }

    /// The normal of three positive zeros.
    pub open spec fn origin() -> Self {
        Normal3 { x: Scalar { bits: 0 }, y: Scalar { bits: 0 }, z: Scalar { bits: 0 } }
    }

    pub fn zero() -> (r: Self)
        ensures
            r == Self::origin(),
    {
        Normal3 { x: Scalar::zero_value(), y: Scalar::zero_value(), z: Scalar::zero_value() }
    }

    pub fn abs(&self) -> (r: Self)
        ensures
            r == self.abs_spec(),
    {
        Normal3 { x: self.x.abs(), y: self.y.abs(), z: self.z.abs() }
    }

    pub fn neg(self) -> (r: Self)
        ensures
            r == self.neg_spec(),
    {
        Normal3 { x: self.x.neg(), y: self.y.neg(), z: self.z.neg() }
    }

    /// The normal on the side of a direction: `self` where its dot product
    /// with that direction, given as `dot`, is not negative, and the
    /// opposite normal where it is.
    pub fn face_with(self, dot: Scalar) -> (r: Self)
        ensures
            r == if dot.lt_spec(Scalar::zero_spec()) { self.neg_spec() } else { self },
    {
        if dot.lt(Scalar::zero_value()) {
            self.neg()
        } else {
            self
        }
    }
}

} // verus!
