//! 4x4 matrices.
use vstd::prelude::*;
use crate::scalar::{Scalar, ONE_BITS};

verus! {

#[derive(Clone, Copy, Debug)]
pub struct Matrix4x4 {
    pub m: [[Scalar; 4]; 4],
}

impl Default for Matrix4x4 {
    /// The identity matrix.
    fn default() -> (r: Self)
        ensures
            r.is_identity(),
    {
        let o = Scalar::zero_value();
        let l = Scalar::one();
        Matrix4x4::from_parts(l, o, o, o, o, l, o, o, o, o, l, o, o, o, o, l)
    }
}

impl Matrix4x4 {
    /// The entry in row `i`, column `j`.
    pub open spec fn entry(self, i: int, j: int) -> Scalar {
        self.m[i][j]
    }

    /// Ones on the diagonal, positive zeros elsewhere.
    pub open spec fn is_identity(self) -> bool {
        forall|i: int, j: int|
            0 <= i < 4 && 0 <= j < 4 ==> (#[trigger] self.entry(i, j)).bits == if i == j {
                ONE_BITS
            } else {
                0
            }
    }

    /// Rows and columns exchanged.
    pub open spec fn is_transpose_of(self, other: Matrix4x4) -> bool {
        forall|i: int, j: int|
            0 <= i < 4 && 0 <= j < 4 ==> #[trigger] self.entry(i, j) == other.entry(j, i)
    }

    pub fn new(m: [[Scalar; 4]; 4]) -> (r: Self)
        ensures
            r.m == m,
    {
        Matrix4x4 { m }
    }

    pub fn from_parts(
        m_1_1: Scalar,
        m_1_2: Scalar,
        m_1_3: Scalar,
        m_1_4: Scalar,
        m_2_1: Scalar,
        m_2_2: Scalar,
        m_2_3: Scalar,
        m_2_4: Scalar,
        m_3_1: Scalar,
        m_3_2: Scalar,
        m_3_3: Scalar,
        m_3_4: Scalar,
        m_4_1: Scalar,
        m_4_2: Scalar,
        m_4_3: Scalar,
        m_4_4: Scalar,
    ) -> (r: Self)
        ensures
            r.entry(0, 0) == m_1_1 && r.entry(0, 1) == m_1_2 && r.entry(0, 2) == m_1_3 && r.entry(
                0,
                3,
            ) == m_1_4,
            r.entry(1, 0) == m_2_1 && r.entry(1, 1) == m_2_2 && r.entry(1, 2) == m_2_3 && r.entry(
                1,
                3,
            ) == m_2_4,
            r.entry(2, 0) == m_3_1 && r.entry(2, 1) == m_3_2 && r.entry(2, 2) == m_3_3 && r.entry(
                2,
                3,
            ) == m_3_4,
            r.entry(3, 0) == m_4_1 && r.entry(3, 1) == m_4_2 && r.entry(3, 2) == m_4_3 && r.entry(
                3,
                3,
            ) == m_4_4,
    {
        Matrix4x4 {
            m: [
                [m_1_1, m_1_2, m_1_3, m_1_4],
                [m_2_1, m_2_2, m_2_3, m_2_4],
                [m_3_1, m_3_2, m_3_3, m_3_4],
                [m_4_1, m_4_2, m_4_3, m_4_4],
            ],
        }
    }

    /// The matrix with rows and columns exchanged.
    pub fn transpose(m: [[Scalar; 4]; 4]) -> (r: Self)
        ensures
            r.is_transpose_of(Matrix4x4 { m }),
    {
        Matrix4x4 {
            m: [
                [m[0][0], m[1][0], m[2][0], m[3][0]],
                [m[0][1], m[1][1], m[2][1], m[3][1]],
                [m[0][2], m[1][2], m[2][2], m[3][2]],
                [m[0][3], m[1][3], m[2][3], m[3][3]],
            ],
        }
    }
}

/// Transposing twice gives the matrix back, entry by entry.
pub proof fn lemma_transpose_involution(a: Matrix4x4, b: Matrix4x4, c: Matrix4x4)
    requires
        b.is_transpose_of(a),
        c.is_transpose_of(b),
    ensures
        forall|i: int, j: int| 0 <= i < 4 && 0 <= j < 4 ==> #[trigger] c.entry(i, j) == a.entry(i, j),
{
    assert forall|i: int, j: int| 0 <= i < 4 && 0 <= j < 4 implies #[trigger] c.entry(i, j)
        == a.entry(i, j) by {
        assert(c.entry(i, j) == b.entry(j, i));
        assert(b.entry(j, i) == a.entry(i, j));
    }
}

} // verus!
