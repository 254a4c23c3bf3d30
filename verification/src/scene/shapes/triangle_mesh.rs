//! Triangle meshes and the watertight ray-triangle test.
use vstd::prelude::*;
use std::sync::Arc;
use crate::scalar::Scalar;
use crate::geometry::bounds::{widest_axis, Bounds3};
use crate::geometry::normal::Normal3;
use crate::geometry::point::Point3;
use crate::geometry::vector::Vector3;
use crate::utils::share;

verus! {

/// Triangles over shared vertices, in world space. Every three entries of
/// `indices` name the corners of one triangle.
pub struct TriangleMesh {
    pub indices: Vec<usize>,
    pub vertices: Vec<Point3>,
    pub normals: Vec<Normal3>,
    pub tangents: Vec<Vector3>,
}

/// One triangle of a mesh: the one whose corners are named from place
/// `index` of the mesh's indices on.
pub struct TriangleShape {
    pub mesh: Arc<TriangleMesh>,
    pub index: usize,
}

/// The coordinates of a point in the order in which the triangle test reads
/// them: the axis along which the ray runs fastest comes last, the other two
/// keep their cyclic order.
pub open spec fn permuted(p: Point3, axis: u8) -> Point3 {
    if axis == 0 {
        Point3 { x: p.y, y: p.z, z: p.x }
    } else if axis == 1 {
        Point3 { x: p.z, y: p.x, z: p.y }
    } else {
        p
    }
}

/// The three signed areas do not disagree in sign: not one negative and
/// another positive.
pub open spec fn edges_agree(e0: Scalar, e1: Scalar, e2: Scalar) -> bool {
    let zero = Scalar::zero_spec();
    !((e0.lt_spec(zero) || e1.lt_spec(zero) || e2.lt_spec(zero)) && (zero.lt_spec(e0)
        || zero.lt_spec(e1) || zero.lt_spec(e2)))
}

/// Whether a ray hits a triangle, from the three edge functions, their sum
/// `determinant`, the hit parameter scaled by the determinant `scaled_t`,
/// and the ray's extent scaled the same way `scaled_max`. The edge functions
/// must agree in sign, the determinant must not be zero (the ray would lie
/// in the triangle's plane), and the scaled parameter must lie, with the
/// determinant's sign, strictly after the origin and not beyond the extent.
pub open spec fn triangle_hit(
    e0: Scalar,
    e1: Scalar,
    e2: Scalar,
    determinant: Scalar,
    scaled_t: Scalar,
    scaled_max: Scalar,
) -> bool {
    let zero = Scalar::zero_spec();
    &&& edges_agree(e0, e1, e2)
    &&& !determinant.eq_spec(zero)
    &&& !(determinant.lt_spec(zero) && (zero.le_spec(scaled_t) || scaled_t.lt_spec(scaled_max)))
    &&& !(zero.lt_spec(determinant) && (scaled_t.le_spec(zero) || scaled_max.lt_spec(scaled_t)))
}

impl TriangleMesh {
    /// Every index names a vertex.
    pub open spec fn wf(&self) -> bool {
        forall|i: int| 0 <= i < self.indices@.len() ==> (#[trigger] self.indices@[i]) < self.vertices@.len()
    }

    /// A mesh from world-space data.
    pub fn new(indices: Vec<usize>, vertices: Vec<Point3>, normals: Vec<Normal3>, tangents: Vec<Vector3>) -> (r: Self)
        ensures
            r.indices == indices,
            r.vertices == vertices,
            r.normals == normals,
            r.tangents == tangents,
    {
        TriangleMesh { indices, vertices, normals, tangents }
    }

    /// The triangles of the mesh, one for every third index.
    pub fn to_triangles(mesh: Arc<Self>) -> (r: Vec<TriangleShape>)
        ensures
            r@.len() == (mesh.indices@.len() + 2) / 3,
            forall|k: int|
                0 <= k < r@.len() ==> (#[trigger] r@[k]).mesh == mesh && r@[k].index == 3 * k,
    {
        let mut result: Vec<TriangleShape> = Vec::new();
        let n: usize = mesh.indices.len();
        let count: usize = if n % 3 == 0 {
            n / 3
        } else {
            n / 3 + 1
        };
        let mut k: usize = 0;
        while k < count
            invariant
                k <= count,
                3 * count <= n + 2,
                result@.len() == k,
                forall|j: int|
                    0 <= j < result@.len() ==> (#[trigger] result@[j]).mesh == mesh
                        && result@[j].index == 3 * j,
            decreases count - k,
        {
            result.push(TriangleShape { mesh: share(&mesh), index: 3 * k });
            k += 1;
        }
        result
    }
}

impl TriangleShape {
    /// The triangle's three index places and the vertices they name exist.
    pub open spec fn wf(&self) -> bool {
        &&& self.mesh.wf()
        &&& self.index + 2 < self.mesh.indices@.len()
    }

    /// The corner at place `k` (0, 1 or 2).
    pub open spec fn corner(&self, k: int) -> Point3 {
        self.mesh.vertices@[self.mesh.indices@[self.index + k] as int]
    }

    pub fn vertices(&self) -> (r: (Point3, Point3, Point3))
        requires
            self.wf(),
        ensures
            r == (self.corner(0), self.corner(1), self.corner(2)),
    {
        let n: usize = self.mesh.indices.len();
        assert(self.index + 2 < n);
        (
            self.mesh.vertices[self.mesh.indices[self.index]],
            self.mesh.vertices[self.mesh.indices[self.index + 1]],
            self.mesh.vertices[self.mesh.indices[self.index + 2]],
        )
    }

    /// The smallest box around the three corners.
    pub fn world_bounds(&self) -> (r: Bounds3)
        requires
            self.wf(),
        ensures
            r == (Bounds3 { min: self.corner(0), max: self.corner(0) }).encompass_spec(
                self.corner(1),
            ).encompass_spec(self.corner(2)),
    {
        let (p0, p1, p2) = self.vertices();
        Bounds3::new(p0, p0).encompass(p1).encompass(p2)
    }

    /// The axis along which a ray of this direction runs fastest.
    pub fn dominant_axis(direction: Vector3) -> (r: u8)
        ensures
            r == widest_axis(direction.abs_spec()),
            r < 3,
    {
        Bounds3::maximum_dimension(direction.abs())
    }

    /// A point with its coordinates reordered for a ray whose dominant axis
    /// is `axis`.
    pub fn permute(p: Point3, axis: u8) -> (r: Point3)
        ensures
            r == permuted(p, axis),
    {
        if axis == 0 {
            Point3 { x: p.y, y: p.z, z: p.x }
        } else if axis == 1 {
            Point3 { x: p.z, y: p.x, z: p.y }
        } else {
            p
        }
    }

    /// Decides the hit of a ray from its edge functions and scaled
    /// parameters.
    pub fn intersect(
        e0: Scalar,
        e1: Scalar,
        e2: Scalar,
        determinant: Scalar,
        scaled_t: Scalar,
        scaled_max: Scalar,
    ) -> (r: bool)
        ensures
            r == triangle_hit(e0, e1, e2, determinant, scaled_t, scaled_max),
            determinant.zero() ==> !r,
    {
        let zero = Scalar::zero_value();
        if (e0.lt(zero) || e1.lt(zero) || e2.lt(zero)) && (e0.gt(zero) || e1.gt(zero) || e2.gt(
            zero,
        )) {
            return false;
        }
        if determinant.equals(zero) {
            return false;
        }
        if determinant.lt(zero) && (scaled_t.ge(zero) || scaled_t.lt(scaled_max)) {
            return false;
        } else if determinant.gt(zero) && (scaled_t.le(zero) || scaled_t.gt(scaled_max)) {
            return false;
        }
        true
    }
}

/// A ray in the plane of the triangle (determinant zero) has no hit.
pub proof fn lemma_edge_on_ray_misses(
    e0: Scalar,
    e1: Scalar,
    e2: Scalar,
    determinant: Scalar,
    scaled_t: Scalar,
    scaled_max: Scalar,
)
    requires
        determinant.zero(),
    ensures
        !triangle_hit(e0, e1, e2, determinant, scaled_t, scaled_max),
{
}

/// Reordering the coordinates loses none: the dominant axis of the ray
/// becomes the last coordinate, and the three coordinates are the same
/// three.
pub proof fn lemma_permutation_keeps_coordinates(p: Point3, axis: u8)
    requires
        axis < 3,
    ensures
        permuted(p, axis).z == p.component(axis as int),
        permuted(p, axis).x == p.component((axis + 1) % 3),
        permuted(p, axis).y == p.component((axis + 2) % 3),
{
}

} // verus!
