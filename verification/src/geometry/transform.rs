//! Affine transforms, each paired with its inverse.
use vstd::prelude::*;
use crate::scalar::{Scalar, ONE_BITS};
use crate::geometry::matrix::Matrix4x4;
use crate::geometry::vector::Vector3;

verus! {

/// A matrix with the matrix that undoes it.
#[derive(Clone, Copy, Debug)]
pub struct Transform {
    pub matrix: Matrix4x4,
    pub inverse: Matrix4x4,
}

/// Multiplication that also reports a bound on the rounding error of each
/// coordinate of the product.
pub trait MulWithError<T = Self> {
    type Output;

    type Err;

    /// The product, and the error bound for an exact operand.
    fn mul_with_error(&self, other: T) -> (Self::Output, Self::Err);

    /// The product, and the error bound for an operand that is itself only
    /// known up to `err`.
    fn mul_with_error_in(&self, other: T, err: Self::Err) -> (Self::Output, Self::Err);
}

/// The matrix of a move by `delta`: the identity with `delta` in its last
/// column.
pub open spec fn is_translation(m: Matrix4x4, delta: Vector3) -> bool {
    forall|i: int, j: int|
        0 <= i < 4 && 0 <= j < 4 ==> #[trigger] m.entry(i, j) == if j == 3 && i < 3 {
            delta.component(i)
        } else if i == j {
            Scalar { bits: ONE_BITS }
        } else {
            Scalar { bits: 0 }
        }
}

impl Default for Transform {
    /// The identity transform.
    fn default() -> (r: Self)
        ensures
            r.matrix.is_identity(),
            r.inverse.is_identity(),
    {
        Transform { matrix: Matrix4x4::default(), inverse: Matrix4x4::default() }
    }
}

impl Transform {
    /// A transform from a matrix and its inverse.
    pub fn new(matrix: Matrix4x4, inverse: Matrix4x4) -> (r: Self)
        ensures
            r.matrix == matrix,
            r.inverse == inverse,
    {
        Transform { inverse, matrix }
    }

    /// The transform that undoes this one: the two matrices change places.
    pub fn inverse(&self) -> (r: Self)
        ensures
            r.matrix == self.inverse,
            r.inverse == self.matrix,
    {
        Transform { matrix: self.inverse, inverse: self.matrix }
    }

    /// The move by `delta`; its inverse is the move by `-delta`.
    pub fn translate(delta: Vector3) -> (r: Self)
        ensures
            is_translation(r.matrix, delta),
            is_translation(r.inverse, delta.neg_spec()),
    {
        let o = Scalar::zero_value();
        let l = Scalar::one();
        let back = delta.neg();
        let m = Matrix4x4::from_parts(
            l, o, o, delta.x,
            o, l, o, delta.y,
            o, o, l, delta.z,
            o, o, o, l,
        );
        let inv = Matrix4x4::from_parts(
            l, o, o, back.x,
            o, l, o, back.y,
            o, o, l, back.z,
            o, o, o, l,
        );
        Transform::new(m, inv)
    }
}

/// Inverting a transform twice gives it back.
pub proof fn lemma_inverse_involution(t: Transform, once: Transform, twice: Transform)
    requires
        once.matrix == t.inverse && once.inverse == t.matrix,
        twice.matrix == once.inverse && twice.inverse == once.matrix,
    ensures
        twice == t,
{
}

} // verus!
