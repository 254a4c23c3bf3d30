//! Displacements in the plane and in space.
use vstd::prelude::*;
use crate::scalar::Scalar;

verus! {

#[derive(Clone, Copy, Debug, Default)]
pub struct Vector2<T = Scalar> {
    pub x: T,
    pub y: T,
}

#[derive(Clone, Copy, Debug, Default)]
pub struct Vector3<T = Scalar> {
    pub x: T,
    pub y: T,
    pub z: T,
}

impl<T> Vector3<T> {
    pub fn new(x: T, y: T, z: T) -> (r: Self)
        ensures
            r.x == x,
            r.y == y,
            r.z == z,
    {
        Vector3 { x, y, z }
    }

    /// The component along axis `index` (0, 1 or 2).
    pub open spec fn component(self, index: int) -> T {
        if index == 0 {
            self.x
        } else if index == 1 {
            self.y
        } else {
            self.z
        }
    }

    pub fn index(&self, index: u8) -> (r: &T)
        requires
            index < 3,
        ensures
            *r == self.component(index as int),
    {
        if index == 0 {
            &self.x
        } else if index == 1 {
            &self.y
        } else {
            &self.z
        }
    }
}

impl Vector3 {
    /// The vector of three positive zeros.
    pub open spec fn origin() -> Self {
        Vector3 { x: Scalar { bits: 0 }, y: Scalar { bits: 0 }, z: Scalar { bits: 0 } }
    }

    pub open spec fn abs_spec(self) -> Self {
        Vector3 { x: self.x.abs_spec(), y: self.y.abs_spec(), z: self.z.abs_spec() }
    }

    pub open spec fn neg_spec(self) -> Self {
        Vector3 { x: self.x.neg_spec(), y: self.y.neg_spec(), z: self.z.neg_spec() }
    }

    /// Whether any component is a NaN.
    pub open spec fn has_nan(self) -> bool {
        self.x.nan() || self.y.nan() || self.z.nan()
    }

    pub fn zero() -> (r: Self)
        ensures
            r == Self::origin(),
    {
        Vector3 { x: Scalar::zero_value(), y: Scalar::zero_value(), z: Scalar::zero_value() }
    }

    pub fn abs(&self) -> (r: Self)
        ensures
            r == self.abs_spec(),
    {
        Vector3 { x: self.x.abs(), y: self.y.abs(), z: self.z.abs() }
    }

    pub fn neg(self) -> (r: Self)
        ensures
            r == self.neg_spec(),
    {
        Vector3 { x: self.x.neg(), y: self.y.neg(), z: self.z.neg() }
    }
}

} // verus!
