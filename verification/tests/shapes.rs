use pbr_kernel::geometry::error::ErrorFloat;
use pbr_kernel::geometry::normal::Normal3;
use pbr_kernel::geometry::point::Point3;
use pbr_kernel::geometry::transform::Transform;
use pbr_kernel::geometry::vector::Vector3;
use pbr_kernel::scalar::Scalar;
use pbr_kernel::scene::shape::{NullShape, ShapeInstance};
use pbr_kernel::scene::shapes::disk::DiskShape;
use pbr_kernel::scene::shapes::sphere::SphereShape;
use pbr_kernel::scene::shapes::triangle_mesh::{TriangleMesh, TriangleShape};
use std::sync::Arc;

fn s(v: f64) -> Scalar {
    Scalar::from_bits(v.to_bits())
}

fn f(v: Scalar) -> f64 {
    f64::from_bits(v.to_bits())
}

fn p(x: f64, y: f64, z: f64) -> Point3 {
    Point3::new(s(x), s(y), s(z))
}

fn pf(q: Point3) -> (f64, f64, f64) {
    (f(q.x), f(q.y), f(q.z))
}

fn e(value: f64, low: f64, high: f64) -> ErrorFloat {
    ErrorFloat { value: s(value), low: s(low), high: s(high) }
}

fn hit(d: f64, t0: ErrorFloat, t1: ErrorFloat, t_max: f64) -> Option<f64> {
    SphereShape::intersect(s(d), Some((t0, t1)), s(t_max)).map(|t| f(t.value))
}

#[test]
fn sphere_bounds_reach_from_minus_radius_to_radius() {
    let sphere = SphereShape { object_to_world: Transform::default(), radius: s(2.5) };
    let b = sphere.bounds();
    assert_eq!(pf(b.min), (-2.5, -2.5, -2.5));
    assert_eq!(pf(b.max), (2.5, 2.5, 2.5));
    assert_eq!(f(sphere.object_to_world().matrix.m[0][0]), 1.0);
}

#[test]
fn sphere_takes_the_nearer_root_in_front() {
    assert_eq!(hit(4.0, e(1.0, 0.9, 1.1), e(3.0, 2.9, 3.1), f64::INFINITY), Some(1.0));
}

#[test]
fn sphere_takes_the_exit_when_the_origin_is_on_or_in_it() {
    // the nearer root may be at the origin: the exit is taken
    assert_eq!(hit(4.0, e(0.0, -1e-9, 1e-9), e(2.0, 1.9, 2.1), f64::INFINITY), Some(2.0));
    assert_eq!(hit(4.0, e(-1.0, -1.1, -0.9), e(2.0, 1.9, 2.1), f64::INFINITY), Some(2.0));
    // both roots behind or at the origin
    assert_eq!(hit(4.0, e(-3.0, -3.1, -2.9), e(-1.0, -1.1, -0.9), f64::INFINITY), None);
    assert_eq!(hit(4.0, e(-3.0, -3.1, -2.9), e(0.0, 0.0, 0.0), f64::INFINITY), None);
    assert_eq!(hit(4.0, e(-3.0, -3.1, -2.9), e(1e-9, -1e-9, 2e-9), f64::INFINITY), None);
}

#[test]
fn sphere_rejects_hits_beyond_the_ray() {
    assert_eq!(hit(4.0, e(1.0, 0.9, 1.1), e(3.0, 2.9, 3.1), 1.05), None);
    assert_eq!(hit(4.0, e(1.0, 0.9, 1.1), e(3.0, 2.9, 3.1), 1.1), Some(1.0));
    assert_eq!(hit(4.0, e(-1.0, -1.1, -0.9), e(3.0, 2.9, 3.1), 3.0), None);
    assert_eq!(hit(4.0, e(-1.0, -1.1, -0.9), e(3.0, 2.9, 3.1), 3.1), Some(3.0));
}

#[test]
fn tangent_ray_misses_the_sphere() {
    assert_eq!(hit(0.0, e(1.0, 1.0, 1.0), e(1.0, 1.0, 1.0), f64::INFINITY), None);
    assert_eq!(hit(-0.0, e(1.0, 1.0, 1.0), e(1.0, 1.0, 1.0), f64::INFINITY), None);
    assert_eq!(hit(-1.0, e(1.0, 1.0, 1.0), e(1.0, 1.0, 1.0), f64::INFINITY), None);
    assert_eq!(hit(1e-300, e(1.0, 1.0, 1.0), e(1.0, 1.0, 1.0), f64::INFINITY), Some(1.0));
    assert!(SphereShape::intersect(s(4.0), None, s(f64::INFINITY)).is_none());
}

#[test]
fn hit_on_the_axis_is_nudged_off_it() {
    let q = SphereShape::off_axis(p(0.0, 0.0, 1.0), s(1e-10));
    assert_eq!(pf(q), (1e-10, 0.0, 1.0));
    let q = SphereShape::off_axis(p(-0.0, 0.0, -1.0), s(1e-10));
    assert_eq!(pf(q), (1e-10, 0.0, -1.0));
    let q = SphereShape::off_axis(p(0.0, 0.5, 1.0), s(1e-10));
    assert_eq!(pf(q), (0.0, 0.5, 1.0));
}

#[test]
fn disk_bounds_are_flat() {
    let disk = DiskShape {
        object_to_world: Transform::default(),
        height: s(1.5),
        radius: s(2.0),
        inner_radius: s(0.5),
    };
    let b = disk.bounds();
    assert_eq!(pf(b.min), (-2.0, -2.0, 1.5));
    assert_eq!(pf(b.max), (2.0, 2.0, 1.5));
    assert_eq!(f(disk.object_to_world().inverse.m[1][1]), 1.0);
}

fn disk(dz: f64, t: f64, t_max: f64, r2: f64) -> bool {
    DiskShape::intersect(s(dz), s(t), s(t_max), s(r2), s(4.0), s(0.25))
}

#[test]
fn disk_accepts_a_crossing_inside_the_ring() {
    assert!(disk(-1.0, 2.0, f64::INFINITY, 1.0));
    assert!(disk(1.0, 2.0, 3.0, 4.0));
    assert!(disk(1.0, 2.0, 3.0, 0.25));
}

#[test]
fn parallel_ray_misses_the_disk() {
    assert!(!disk(0.0, 2.0, f64::INFINITY, 1.0));
    assert!(!disk(-0.0, 2.0, f64::INFINITY, 1.0));
    assert!(!disk(0.0, f64::INFINITY, f64::INFINITY, 1.0));
    assert!(!disk(0.0, f64::NAN, f64::INFINITY, 1.0));
}

#[test]
fn disk_rejects_crossings_out_of_range() {
    assert!(!disk(1.0, 0.0, f64::INFINITY, 1.0));
    assert!(!disk(1.0, -1.0, f64::INFINITY, 1.0));
    assert!(!disk(1.0, 2.0, 2.0, 1.0));
    assert!(!disk(1.0, 2.0, 1.0, 1.0));
    assert!(!disk(1.0, 2.0, f64::INFINITY, 4.5));
    assert!(!disk(1.0, 2.0, f64::INFINITY, 0.2));
}

fn mesh() -> Arc<TriangleMesh> {
    Arc::new(TriangleMesh::new(
        vec![0, 1, 2, 2, 1, 3],
        vec![p(0.0, 0.0, 0.0), p(1.0, 0.0, 0.0), p(0.0, 1.0, 0.5), p(1.0, 1.0, -2.0)],
        vec![Normal3::zero(); 4],
        vec![Vector3::zero(); 4],
    ))
}

#[test]
fn mesh_gives_one_triangle_for_every_three_indices() {
    let triangles = TriangleMesh::to_triangles(mesh());
    assert_eq!(triangles.len(), 2);
    assert_eq!(triangles[0].index, 0);
    assert_eq!(triangles[1].index, 3);
    assert!(Arc::ptr_eq(&triangles[0].mesh, &triangles[1].mesh));
    assert_eq!(triangles[1].mesh.vertices.len(), 4);
    let empty = Arc::new(TriangleMesh::new(vec![], vec![], vec![], vec![]));
    assert_eq!(TriangleMesh::to_triangles(empty).len(), 0);
}

#[test]
fn triangle_reads_its_corners_through_the_indices() {
    let triangles = TriangleMesh::to_triangles(mesh());
    let (a, b, c) = triangles[1].vertices();
    assert_eq!(pf(a), (0.0, 1.0, 0.5));
    assert_eq!(pf(b), (1.0, 0.0, 0.0));
    assert_eq!(pf(c), (1.0, 1.0, -2.0));
}

#[test]
fn triangle_bounds_hold_the_corners() {
    let triangles = TriangleMesh::to_triangles(mesh());
    let b = triangles[1].world_bounds();
    assert_eq!(pf(b.min), (0.0, 0.0, -2.0));
    assert_eq!(pf(b.max), (1.0, 1.0, 0.5));
}

#[test]
fn dominant_axis_is_the_largest_magnitude() {
    let d = |x: f64, y: f64, z: f64| TriangleShape::dominant_axis(Vector3::new(s(x), s(y), s(z)));
    assert_eq!(d(-3.0, 2.0, 1.0), 0);
    assert_eq!(d(1.0, -3.0, 2.0), 1);
    assert_eq!(d(1.0, 2.0, -3.0), 2);
    assert_eq!(d(1.0, 1.0, 1.0), 2);
}

#[test]
fn permutation_brings_the_dominant_axis_last() {
    assert_eq!(pf(TriangleShape::permute(p(1.0, 2.0, 3.0), 0)), (2.0, 3.0, 1.0));
    assert_eq!(pf(TriangleShape::permute(p(1.0, 2.0, 3.0), 1)), (3.0, 1.0, 2.0));
    assert_eq!(pf(TriangleShape::permute(p(1.0, 2.0, 3.0), 2)), (1.0, 2.0, 3.0));
}

fn tri(e0: f64, e1: f64, e2: f64, t: f64, t_max: f64) -> bool {
    let det = e0 + e1 + e2;
    TriangleShape::intersect(s(e0), s(e1), s(e2), s(det), s(t), s(t_max * det))
}

#[test]
fn triangle_accepts_edges_of_one_sign() {
    assert!(tri(1.0, 2.0, 3.0, 6.0, 10.0));
    assert!(tri(-1.0, -2.0, -3.0, -6.0, 10.0));
    assert!(tri(0.0, 2.0, 3.0, 5.0, 10.0));
    assert!(!tri(-1.0, 2.0, 3.0, 4.0, 10.0));
    assert!(!tri(1.0, -2.0, -3.0, -4.0, 10.0));
}

#[test]
fn edge_on_ray_misses_the_triangle() {
    assert!(!tri(0.0, 0.0, 0.0, 1.0, 10.0));
    assert!(!TriangleShape::intersect(s(1.0), s(1.0), s(1.0), s(0.0), s(1.0), s(10.0)));
    assert!(!TriangleShape::intersect(s(1.0), s(1.0), s(1.0), s(-0.0), s(1.0), s(10.0)));
}

#[test]
fn triangle_rejects_hits_out_of_range() {
    // behind or at the origin
    assert!(!tri(1.0, 2.0, 3.0, 0.0, 10.0));
    assert!(!tri(1.0, 2.0, 3.0, -1.0, 10.0));
    assert!(!tri(-1.0, -2.0, -3.0, 0.0, 10.0));
    assert!(!tri(-1.0, -2.0, -3.0, 1.0, 10.0));
    // beyond the ray's extent: t * det > t_max * det
    assert!(!tri(1.0, 2.0, 3.0, 61.0, 10.0));
    assert!(tri(1.0, 2.0, 3.0, 60.0, 10.0));
    assert!(!tri(-1.0, -2.0, -3.0, -61.0, 10.0));
    assert!(tri(-1.0, -2.0, -3.0, -60.0, 10.0));
}

#[test]
fn null_shape_is_nowhere() {
    let null = NullShape {};
    assert!(!null.any_intersect());
    let b = null.bounds();
    assert_eq!(pf(b.min), (0.0, 0.0, 0.0));
    assert_eq!(pf(b.max), (0.0, 0.0, 0.0));
    assert_eq!(f(null.object_to_world().matrix.m[2][2]), 1.0);
    let shape = ShapeInstance::NullShape(null);
    assert_eq!(pf(shape.bounds().max), (0.0, 0.0, 0.0));
    let sphere = ShapeInstance::SphereShape(SphereShape { object_to_world: Transform::default(), radius: s(1.0) });
    assert_eq!(pf(sphere.bounds().min), (-1.0, -1.0, -1.0));
}

#[test]
fn shapes_know_their_place_in_the_world() {
    let moved = Transform::translate(Vector3::new(s(1.0), s(2.0), s(3.0)));
    let sphere = ShapeInstance::SphereShape(SphereShape { object_to_world: moved, radius: s(1.0) });
    assert_eq!(f(sphere.object_to_world().matrix.m[1][3]), 2.0);
    let disk = ShapeInstance::DiskShape(DiskShape {
        object_to_world: moved,
        height: s(0.0),
        radius: s(1.0),
        inner_radius: s(0.0),
    });
    assert_eq!(f(disk.object_to_world().inverse.m[2][3]), -3.0);
    assert_eq!(pf(disk.bounds().min), (-1.0, -1.0, 0.0));
    let triangle = ShapeInstance::TriangleShape(TriangleMesh::to_triangles(mesh()).remove(0));
    assert_eq!(f(triangle.object_to_world().matrix.m[0][3]), 0.0);
    assert_eq!(f(triangle.object_to_world().matrix.m[0][0]), 1.0);
}
