use pbr_kernel::geometry::bounds::{Bounds2, Bounds3, PixelIterator};
use pbr_kernel::geometry::error::ErrorFloat;
use pbr_kernel::geometry::interaction::Intersection;
use pbr_kernel::geometry::matrix::Matrix4x4;
use pbr_kernel::geometry::normal::Normal3;
use pbr_kernel::geometry::point::{Point2, Point3};
use pbr_kernel::geometry::transform::Transform;
use pbr_kernel::geometry::vector::{Vector2, Vector3};
use pbr_kernel::scalar::Scalar;

fn s(v: f64) -> Scalar {
    Scalar::from_bits(v.to_bits())
}

fn f(v: Scalar) -> f64 {
    f64::from_bits(v.to_bits())
}

fn p(x: f64, y: f64, z: f64) -> Point3 {
    Point3::new(s(x), s(y), s(z))
}

fn v(x: f64, y: f64, z: f64) -> Vector3 {
    Vector3::new(s(x), s(y), s(z))
}

fn pf(q: Point3) -> (f64, f64, f64) {
    (f(q.x), f(q.y), f(q.z))
}

fn e(value: f64, low: f64, high: f64) -> ErrorFloat {
    ErrorFloat { value: s(value), low: s(low), high: s(high) }
}

fn ef(x: ErrorFloat) -> (f64, f64, f64) {
    (f(x.value), f(x.low), f(x.high))
}

#[test]
fn points_and_vectors_are_indexed_by_axis() {
    let q = p(1.0, 2.0, 3.0);
    assert_eq!(f(*q.index(0)), 1.0);
    assert_eq!(f(*q.index(1)), 2.0);
    assert_eq!(f(*q.index(2)), 3.0);
    let w = v(4.0, 5.0, 6.0);
    assert_eq!(f(*w.index(0)), 4.0);
    assert_eq!(f(*w.index(1)), 5.0);
    assert_eq!(f(*w.index(2)), 6.0);
    let two = Point2::new(7u32, 8u32);
    assert_eq!((two.x, two.y), (7, 8));
}

#[test]
fn min_and_max_are_componentwise() {
    let a = p(1.0, 5.0, -3.0);
    let b = p(2.0, 4.0, -3.5);
    assert_eq!(pf(a.min(&b)), (1.0, 4.0, -3.5));
    assert_eq!(pf(a.max(&b)), (2.0, 5.0, -3.0));
}

#[test]
fn abs_and_neg_are_componentwise() {
    let w = v(-1.0, 2.0, -0.0);
    let a = w.abs();
    assert_eq!((f(a.x), f(a.y)), (1.0, 2.0));
    assert_eq!(a.z.to_bits(), 0);
    let n = w.neg();
    assert_eq!((f(n.x), f(n.y)), (1.0, -2.0));
    assert_eq!(n.z.to_bits(), 0);
    let m = Normal3::new(s(1.0), s(-2.0), s(3.0));
    let ma = m.abs();
    assert_eq!((f(ma.x), f(ma.y), f(ma.z)), (1.0, 2.0, 3.0));
    let mn = m.neg();
    assert_eq!((f(mn.x), f(mn.y), f(mn.z)), (-1.0, 2.0, -3.0));
}

#[test]
fn face_with_flips_to_the_side_of_the_direction() {
    let n = Normal3::new(s(0.0), s(0.0), s(1.0));
    assert_eq!(f(n.face_with(s(0.5)).z), 1.0);
    assert_eq!(f(n.face_with(s(0.0)).z), 1.0);
    assert_eq!(f(n.face_with(s(-0.5)).z), -1.0);
}

#[test]
fn round_away_pushes_each_coordinate_along_its_move() {
    let moved = p(1.0, -1.0, 2.0).round_away(v(0.1, -0.1, 0.0));
    assert_eq!(f(moved.x), 1.0 + f64::EPSILON);
    assert_eq!(f(moved.y), -1.0 - f64::EPSILON);
    assert_eq!(f(moved.z), 2.0);
    let back = p(1.0, -1.0, 2.0).round_away(v(-0.1, 0.1, f64::NAN));
    assert_eq!(f(back.x), 1.0 - f64::EPSILON / 2.0);
    assert_eq!(f(back.y), -1.0 + f64::EPSILON / 2.0);
    assert_eq!(f(back.z), 2.0);
}

#[test]
fn union_and_encompass_grow_the_box() {
    let a = Bounds3::new(p(0.0, 0.0, 0.0), p(1.0, 1.0, 1.0));
    let b = Bounds3::new(p(-1.0, 0.5, 0.25), p(0.5, 2.0, 0.75));
    let u = a.union(&b);
    assert_eq!(pf(u.min), (-1.0, 0.0, 0.0));
    assert_eq!(pf(u.max), (1.0, 2.0, 1.0));
    let g = a.encompass(p(3.0, -2.0, 0.5));
    assert_eq!(pf(g.min), (0.0, -2.0, 0.0));
    assert_eq!(pf(g.max), (3.0, 1.0, 1.0));
}

#[test]
fn union_with_the_empty_box_changes_nothing() {
    let a = Bounds3::new(p(-2.0, 0.0, 1.0), p(1.0, 5.0, 1.0));
    let u = a.union(&Bounds3::empty());
    assert_eq!(pf(u.min), pf(a.min));
    assert_eq!(pf(u.max), pf(a.max));
    let w = Bounds3::empty().union(&a);
    assert_eq!(pf(w.min), pf(a.min));
    assert_eq!(pf(w.max), pf(a.max));
    let inf = Bounds3::new(
        p(f64::NEG_INFINITY, f64::NEG_INFINITY, f64::NEG_INFINITY),
        p(f64::INFINITY, f64::INFINITY, f64::INFINITY),
    );
    let k = inf.union(&Bounds3::empty());
    assert_eq!(pf(k.min), pf(inf.min));
    assert_eq!(pf(k.max), pf(inf.max));
}

#[test]
fn maximum_dimension_picks_the_widest_axis() {
    assert_eq!(Bounds3::maximum_dimension(v(3.0, 2.0, 1.0)), 0);
    assert_eq!(Bounds3::maximum_dimension(v(1.0, 3.0, 2.0)), 1);
    assert_eq!(Bounds3::maximum_dimension(v(1.0, 2.0, 3.0)), 2);
    // ties go to the later axis
    assert_eq!(Bounds3::maximum_dimension(v(1.0, 1.0, 1.0)), 2);
    assert_eq!(Bounds3::maximum_dimension(v(2.0, 2.0, 1.0)), 1);
    assert_eq!(Bounds3::maximum_dimension(v(2.0, 1.0, 2.0)), 2);
}

#[test]
fn slab_planes_follow_the_signs() {
    let b = Bounds3::new(p(0.0, 1.0, 2.0), p(3.0, 4.0, 5.0));
    let (near, far) = b.slab_planes([0, 0, 0]);
    assert_eq!(pf(near), (0.0, 1.0, 2.0));
    assert_eq!(pf(far), (3.0, 4.0, 5.0));
    let (near, far) = b.slab_planes([1, 0, 1]);
    assert_eq!(pf(near), (3.0, 1.0, 5.0));
    assert_eq!(pf(far), (0.0, 4.0, 2.0));
}

#[test]
fn slab_test_accepts_overlapping_intervals() {
    // a ray along x through the unit box from x = -1: inside on [1, 2]
    let inf = f64::INFINITY;
    assert!(Bounds3::any_intersect_precomputed(v(1.0, -inf, -inf), v(2.0, inf, inf), s(inf)));
    // the box is entered beyond the ray's extent
    assert!(!Bounds3::any_intersect_precomputed(v(1.0, -inf, -inf), v(2.0, inf, inf), s(0.5)));
    assert!(!Bounds3::any_intersect_precomputed(v(1.0, -inf, -inf), v(2.0, inf, inf), s(1.0)));
    // the box is behind the origin
    assert!(!Bounds3::any_intersect_precomputed(v(-2.0, -inf, -inf), v(-1.0, inf, inf), s(inf)));
    // the intervals on x and y do not meet
    assert!(!Bounds3::any_intersect_precomputed(v(1.0, 3.0, -inf), v(2.0, 4.0, inf), s(inf)));
    assert!(!Bounds3::any_intersect_precomputed(v(3.0, 1.0, -inf), v(4.0, 2.0, inf), s(inf)));
    // the interval on z does not meet the other two
    assert!(!Bounds3::any_intersect_precomputed(v(1.0, 1.0, 3.0), v(2.0, 2.0, 4.0), s(inf)));
    assert!(!Bounds3::any_intersect_precomputed(v(3.0, 3.0, 1.0), v(4.0, 4.0, 2.0), s(inf)));
    // the origin is inside the box
    assert!(Bounds3::any_intersect_precomputed(v(-1.0, -1.0, -1.0), v(1.0, 1.0, 1.0), s(inf)));
}

#[test]
fn pixels_come_row_by_row() {
    let bounds = Bounds2 { min: Point2::new(2, 5), max: Point2::new(4, 8) };
    let mut it = bounds.into_iter();
    let mut seen = vec![];
    while let Some(q) = it.next() {
        seen.push((q.x, q.y));
    }
    assert_eq!(seen, vec![(2, 5), (3, 5), (2, 6), (3, 6), (2, 7), (3, 7)]);
    assert_eq!(it.next().map(|q| (q.x, q.y)), None);
}

#[test]
fn pixel_walk_of_one_pixel_and_of_none() {
    let one = Bounds2 { min: Point2::new(0, 0), max: Point2::new(1, 1) };
    let mut it = one.into_iter();
    assert_eq!(it.next().map(|q| (q.x, q.y)), Some((0, 0)));
    assert_eq!(it.next().map(|q| (q.x, q.y)), None);
    let none = Bounds2 { min: Point2::new(0, 0), max: Point2::new(3, 0) };
    let mut it = none.into_iter();
    assert_eq!(it.next().map(|q| (q.x, q.y)), None);
    let manual = PixelIterator { bounds: one, curr: Point2::new(-1, 0) };
    assert_eq!(manual.curr.x, -1);
}

#[test]
fn error_float_without_error_is_exact() {
    assert_eq!(ef(ErrorFloat::from(s(2.5))), (2.5, 2.5, 2.5));
    assert_eq!(ef(ErrorFloat::new(s(2.5), s(0.0), s(1.0), s(4.0))), (2.5, 2.5, 2.5));
    assert_eq!(ef(ErrorFloat::new(s(2.5), s(0.5), s(1.0), s(4.0))), (2.5, 1.0, 4.0));
    assert_eq!(f(ErrorFloat::from(s(2.5)).into()), 2.5);
}

#[test]
fn error_float_negation_mirrors_the_interval() {
    assert_eq!(ef(e(2.0, 1.0, 4.0).neg()), (-2.0, -4.0, -1.0));
}

#[test]
fn error_float_abs_keeps_the_value_inside() {
    assert_eq!(ef(e(2.0, 1.0, 4.0).abs()), (2.0, 1.0, 4.0));
    assert_eq!(ef(e(-2.0, -4.0, -1.0).abs()), (2.0, 1.0, 4.0));
    assert_eq!(ef(e(-0.5, -3.0, 1.0).abs()), (0.5, 0.0, 3.0));
    assert_eq!(ef(e(0.5, -1.0, 3.0).abs()), (0.5, 0.0, 3.0));
    for x in [e(2.0, 1.0, 4.0), e(-2.0, -4.0, -1.0), e(-0.5, -3.0, 1.0), e(0.0, 0.0, 0.0)] {
        let a = x.abs();
        assert!(f(a.low) <= f(a.value) && f(a.value) <= f(a.high));
        assert!(f(a.low) >= 0.0);
        let n = x.neg();
        assert!(f(n.low) <= f(n.value) && f(n.value) <= f(n.high));
    }
}

#[test]
fn error_floats_are_equal_by_value() {
    assert!(e(2.0, 1.0, 4.0).eq(&e(2.0, 2.0, 2.0)));
    assert!(!e(2.0, 1.0, 4.0).eq(&e(3.0, 1.0, 4.0)));
    assert!(e(0.0, 0.0, 0.0).eq(&e(-0.0, 0.0, 0.0)));
    assert!(!e(f64::NAN, 0.0, 0.0).eq(&e(f64::NAN, 0.0, 0.0)));
}

#[test]
fn quadratic_has_no_root_for_a_negative_discriminant() {
    assert!(ErrorFloat::qudratic(s(-1e-300), e(1.0, 1.0, 1.0), e(2.0, 2.0, 2.0)).is_none());
    assert!(ErrorFloat::qudratic(s(0.0), e(1.0, 1.0, 1.0), e(2.0, 2.0, 2.0)).is_some());
}

#[test]
fn quadratic_orders_its_roots_by_value() {
    let (t0, t1) = ErrorFloat::qudratic(s(4.0), e(3.0, 2.9, 3.1), e(1.0, 0.9, 1.1)).unwrap();
    assert_eq!(ef(t0), (1.0, 0.9, 1.1));
    assert_eq!(ef(t1), (3.0, 2.9, 3.1));
    let (t0, t1) = ErrorFloat::qudratic(s(4.0), e(1.0, 0.9, 1.1), e(3.0, 2.9, 3.1)).unwrap();
    assert_eq!(ef(t0), (1.0, 0.9, 1.1));
    assert_eq!(ef(t1), (3.0, 2.9, 3.1));
}

#[test]
fn identity_matrix_has_ones_on_the_diagonal() {
    let m = Matrix4x4::default();
    for i in 0..4 {
        for j in 0..4 {
            assert_eq!(f(m.m[i][j]), if i == j { 1.0 } else { 0.0 });
        }
    }
}

#[test]
fn from_parts_fills_row_by_row() {
    let m = Matrix4x4::from_parts(
        s(1.0), s(2.0), s(3.0), s(4.0),
        s(5.0), s(6.0), s(7.0), s(8.0),
        s(9.0), s(10.0), s(11.0), s(12.0),
        s(13.0), s(14.0), s(15.0), s(16.0),
    );
    for i in 0..4 {
        for j in 0..4 {
            assert_eq!(f(m.m[i][j]), (i * 4 + j + 1) as f64);
        }
    }
    let n = Matrix4x4::new(m.m);
    assert_eq!(f(n.m[2][1]), 10.0);
}

#[test]
fn transpose_exchanges_rows_and_columns() {
    let m = Matrix4x4::from_parts(
        s(1.0), s(2.0), s(3.0), s(4.0),
        s(5.0), s(6.0), s(7.0), s(8.0),
        s(9.0), s(10.0), s(11.0), s(12.0),
        s(13.0), s(14.0), s(15.0), s(16.0),
    );
    let t = Matrix4x4::transpose(m.m);
    for i in 0..4 {
        for j in 0..4 {
            assert_eq!(f(t.m[i][j]), f(m.m[j][i]));
        }
    }
    let back = Matrix4x4::transpose(t.m);
    for i in 0..4 {
        for j in 0..4 {
            assert_eq!(f(back.m[i][j]), f(m.m[i][j]));
        }
    }
}

#[test]
fn translation_moves_by_delta_and_back() {
    let t = Transform::translate(v(1.0, -2.0, 3.0));
    let expected = [[1.0, 0.0, 0.0, 1.0], [0.0, 1.0, 0.0, -2.0], [0.0, 0.0, 1.0, 3.0], [0.0, 0.0, 0.0, 1.0]];
    for i in 0..4 {
        for j in 0..4 {
            assert_eq!(f(t.matrix.m[i][j]), expected[i][j]);
            let back = if j == 3 && i < 3 { -expected[i][j] } else { expected[i][j] };
            assert_eq!(f(t.inverse.m[i][j]), back);
        }
    }
}

#[test]
fn inverse_exchanges_the_two_matrices() {
    let t = Transform::translate(v(1.0, -2.0, 3.0));
    let i = t.inverse();
    assert_eq!(f(i.matrix.m[0][3]), -1.0);
    assert_eq!(f(i.inverse.m[0][3]), 1.0);
    let twice = i.inverse();
    assert_eq!(f(twice.matrix.m[1][3]), -2.0);
    assert_eq!(f(twice.inverse.m[1][3]), 2.0);
    let made = Transform::new(t.matrix, t.inverse);
    assert_eq!(f(made.matrix.m[2][3]), 3.0);
    let id = Transform::default();
    assert_eq!(f(id.matrix.m[3][3]), 1.0);
    assert_eq!(f(id.inverse.m[0][1]), 0.0);
}

#[test]
fn default_intersection_is_all_zero() {
    let i = Intersection::default();
    assert_eq!(pf(i.point), (0.0, 0.0, 0.0));
    assert_eq!(f(i.distance), 0.0);
    assert_eq!(f(i.normal.z), 0.0);
    assert_eq!(f(i.error.x), 0.0);
}

#[test]
fn points_vectors_and_normals_convert_into_each_other() {
    let w: Vector3 = Vector3::from(p(1.0, 2.0, 3.0));
    assert_eq!((f(w.x), f(w.y), f(w.z)), (1.0, 2.0, 3.0));
    let q: Point3 = Point3::from(v(4.0, 5.0, 6.0));
    assert_eq!(pf(q), (4.0, 5.0, 6.0));
    let n: Normal3 = v(0.0, 1.0, 0.0).into();
    assert_eq!(f(n.y), 1.0);
    let back: Vector3 = n.into();
    assert_eq!((f(back.x), f(back.y), f(back.z)), (0.0, 1.0, 0.0));
    let flat: Vector2<i32> = Point2::new(-3, 4).into();
    assert_eq!((flat.x, flat.y), (-3, 4));
    let film: Point2 = Point2::new(1000u32, 300u32).into();
    assert_eq!((f(film.x), f(film.y)), (1000.0, 300.0));
}

#[test]
fn defaults_are_zero() {
    let origin: Point3 = Default::default();
    assert_eq!((origin.x.to_bits(), origin.y.to_bits(), origin.z.to_bits()), (0, 0, 0));
    let nothing: Vector3 = Default::default();
    assert_eq!(f(nothing.y), 0.0);
    let flat: Normal3 = Default::default();
    assert_eq!(f(flat.z), 0.0);
    let pixel: Point2<i32> = Default::default();
    assert_eq!((pixel.x, pixel.y), (0, 0));
    let point: Bounds3 = Default::default();
    assert_eq!(pf(point.min), pf(point.max));
    let exact: ErrorFloat = Default::default();
    assert_eq!(ef(exact), (0.0, 0.0, 0.0));
    assert_eq!(Scalar::default().to_bits(), 0);
    let id: Matrix4x4 = Default::default();
    assert_eq!(f(id.m[1][1]), 1.0);
    let still: Transform = Default::default();
    assert_eq!(f(still.inverse.m[2][2]), 1.0);
}

#[test]
fn interval_ends_are_the_extremes_of_four() {
    let (lo, hi) = ErrorFloat::extremes([s(3.0), s(-1.0), s(2.0), s(-4.0)]);
    assert_eq!((f(lo), f(hi)), (-4.0, 3.0));
    let (lo, hi) = ErrorFloat::extremes([s(1.0), s(1.0), s(1.0), s(1.0)]);
    assert_eq!((f(lo), f(hi)), (1.0, 1.0));
    let (lo, hi) = ErrorFloat::extremes([s(f64::NAN), s(5.0), s(f64::NEG_INFINITY), s(2.0)]);
    assert_eq!((f(lo), f(hi)), (f64::NEG_INFINITY, 5.0));
    assert!(e(0.1, -0.1, 0.3).straddles_zero());
    assert!(!e(0.1, 0.0, 0.3).straddles_zero());
    assert!(!e(-0.2, -0.3, 0.0).straddles_zero());
    assert!(!e(-0.2, -0.3, -0.1).straddles_zero());
}
