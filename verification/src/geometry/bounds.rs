//! Axis-aligned boxes, and the row-major walk over a pixel rectangle.
use vstd::prelude::*;
use crate::scalar::{lemma_min_max, lemma_order_laws, Scalar, INFINITY_BITS, NEG_INFINITY_BITS};
use crate::geometry::point::{Point2, Point3};
use crate::geometry::vector::Vector3;

verus! {

/// The box `[min, max]`.
#[derive(Clone, Copy, Debug, Default)]
pub struct Bounds3<T = Scalar> {
    pub min: Point3<T>,
    pub max: Point3<T>,
}

impl<T> Bounds3<T> {
    pub fn new(min: Point3<T>, max: Point3<T>) -> (r: Self)
        ensures
            r.min == min,
            r.max == max,
    {
        Bounds3 { min, max }
    }
}

/// The axis of the largest of three extents: 0 where x is larger than both
/// others, else 1 where y is larger than z, else 2.
pub open spec fn widest_axis(extent: Vector3) -> u8 {
    if extent.y.lt_spec(extent.x) {
        if extent.z.lt_spec(extent.x) {
            0
        } else {
            2
        }
    } else if extent.z.lt_spec(extent.y) {
        1
    } else {
        2
    }
}

/// The three parameter intervals in which a ray is between the two planes
/// of a box on each axis overlap each other and the ray's own interval
/// `(0, time_max)`. `near` holds the three entry parameters, `far` the three
/// exit parameters, already widened against rounding.
pub open spec fn slabs_overlap(near: Vector3, far: Vector3, time_max: Scalar) -> bool {
    let entry_xy = near.x.max_spec(near.y);
    let exit_xy = far.x.min_spec(far.y);
    let entry = entry_xy.max_spec(near.z);
    let exit = exit_xy.min_spec(far.z);
    &&& !far.y.lt_spec(near.x)
    &&& !far.x.lt_spec(near.y)
    &&& !far.z.lt_spec(entry_xy)
    &&& !exit_xy.lt_spec(near.z)
    &&& entry.lt_spec(time_max)
    &&& Scalar::zero_spec().lt_spec(exit)
}

/// The parameter at which a ray enters the last of the three slabs.
pub open spec fn slab_entry(near: Vector3) -> Scalar {
    near.x.max_spec(near.y).max_spec(near.z)
}

impl Bounds3 {
    /// The box that holds nothing: every union with it gives the other box.
    pub open spec fn empty_spec() -> Self {
        Bounds3 {
            min: Point3 {
                x: Scalar { bits: INFINITY_BITS },
                y: Scalar { bits: INFINITY_BITS },
                z: Scalar { bits: INFINITY_BITS },
            },
            max: Point3 {
                x: Scalar { bits: NEG_INFINITY_BITS },
                y: Scalar { bits: NEG_INFINITY_BITS },
                z: Scalar { bits: NEG_INFINITY_BITS },
            },
        }
    }

    pub open spec fn union_spec(self, other: Self) -> Self {
        Bounds3 { min: self.min.min_spec(other.min), max: self.max.max_spec(other.max) }
    }

    pub open spec fn encompass_spec(self, other: Point3) -> Self {
        Bounds3 { min: self.min.min_spec(other), max: self.max.max_spec(other) }
    }

    /// `min <= max` on every axis, with no NaN among the six.
    pub open spec fn ordered(self) -> bool {
        &&& self.min.x.le_spec(self.max.x)
        &&& self.min.y.le_spec(self.max.y)
        &&& self.min.z.le_spec(self.max.z)
    }

    /// Whether the point lies in the box, its faces included.
    pub open spec fn contains(self, p: Point3) -> bool {
        &&& self.min.x.le_spec(p.x) && p.x.le_spec(self.max.x)
        &&& self.min.y.le_spec(p.y) && p.y.le_spec(self.max.y)
        &&& self.min.z.le_spec(p.z) && p.z.le_spec(self.max.z)
    }

    /// The plane of the box on axis `axis` that a ray enters through, given
    /// the sign of its direction on that axis (1 for negative): the far end
    /// for a negative direction.
    pub open spec fn near_plane(self, axis: int, is_neg: usize) -> Scalar {
        if is_neg == 0 {
            self.min.component(axis)
        } else {
            self.max.component(axis)
        }
    }

    pub fn empty() -> (r: Self)
        ensures
            r == Self::empty_spec(),
    {
        Bounds3 {
            min: Point3 { x: Scalar::infinity(), y: Scalar::infinity(), z: Scalar::infinity() },
            max: Point3 {
                x: Scalar::neg_infinity(),
                y: Scalar::neg_infinity(),
                z: Scalar::neg_infinity(),
            },
        }
    }

    /// The smallest box around both.
    pub fn union(&self, other: &Self) -> (r: Self)
        ensures
            r == self.union_spec(*other),
    {
        Bounds3 { min: self.min.min(&other.min), max: self.max.max(&other.max) }
    }

    /// The smallest box around this one and the point.
    pub fn encompass(&self, other: Point3) -> (r: Self)
        ensures
            r == self.encompass_spec(other),
    {
        Bounds3 { min: self.min.min(&other), max: self.max.max(&other) }
    }

    /// The axis along which the box is longest, from its diagonal
    /// `max - min`.
    pub fn maximum_dimension(extent: Vector3) -> (r: u8)
        ensures
            r == widest_axis(extent),
            r < 3,
    {
        if extent.x.gt(extent.y) {
            if extent.x.gt(extent.z) {
                0
            } else {
                2
            }
        } else if extent.y.gt(extent.z) {
            1
        } else {
            2
        }
    }

    /// The corner through whose planes a ray enters and the corner through
    /// whose planes it leaves, from the signs of its direction (1 for a
    /// negative component).
    pub fn slab_planes(&self, is_neg: [usize; 3]) -> (r: (Point3, Point3))
        requires
            is_neg[0] <= 1,
            is_neg[1] <= 1,
            is_neg[2] <= 1,
        ensures
            r.0.x == self.near_plane(0, is_neg[0]),
            r.0.y == self.near_plane(1, is_neg[1]),
            r.0.z == self.near_plane(2, is_neg[2]),
            r.1.x == self.near_plane(0, (1 - is_neg[0]) as usize),
            r.1.y == self.near_plane(1, (1 - is_neg[1]) as usize),
            r.1.z == self.near_plane(2, (1 - is_neg[2]) as usize),
    {
        let bounds = [self.min, self.max];
        (
            Point3 { x: bounds[is_neg[0]].x, y: bounds[is_neg[1]].y, z: bounds[is_neg[2]].z },
            Point3 {
                x: bounds[1 - is_neg[0]].x,
                y: bounds[1 - is_neg[1]].y,
                z: bounds[1 - is_neg[2]].z,
            },
        )
    }

    /// The slab test on the six plane parameters of a ray: whether the ray
    /// is inside all three slabs at once somewhere on `(0, time_max)`.
    pub fn any_intersect_precomputed(near: Vector3, far: Vector3, time_max: Scalar) -> (r: bool)
        ensures
            r == slabs_overlap(near, far, time_max),
            time_max.lt_spec(slab_entry(near)) ==> !r,
    {
        if near.x.gt(far.y) || near.y.gt(far.x) {
            return false;
        }
        let t_min = near.x.max(near.y);
        let t_max = far.x.min(far.y);
        if t_min.gt(far.z) || near.z.gt(t_max) {
            return false;
        }
        let t_min = t_min.max(near.z);
        let t_max = t_max.min(far.z);
        t_min.lt(time_max) && t_max.gt(Scalar::zero_value())
    }
}

/// The slab test rejects no ray that is inside the box somewhere on its
/// extent: where some parameter in `(0, time_max)` lies between the entry
/// and the exit parameter on every axis, the test passes.
pub proof fn lemma_slab_test_is_conservative(near: Vector3, far: Vector3, time_max: Scalar, t: Scalar)
    requires
        near.x.le_spec(t) && t.le_spec(far.x),
        near.y.le_spec(t) && t.le_spec(far.y),
        near.z.le_spec(t) && t.le_spec(far.z),
        Scalar::zero_spec().lt_spec(t),
        t.lt_spec(time_max),
    ensures
        slabs_overlap(near, far, time_max),
{
    let entry_xy = near.x.max_spec(near.y);
    let exit_xy = far.x.min_spec(far.y);
    lemma_min_max(near.x, near.y);
    lemma_min_max(far.x, far.y);
    lemma_min_max(entry_xy, near.z);
    lemma_min_max(exit_xy, far.z);
    lemma_order_laws(near.x, t, far.y);
    lemma_order_laws(near.y, t, far.x);
    lemma_order_laws(entry_xy, t, far.z);
    lemma_order_laws(near.z, t, exit_xy);
    lemma_order_laws(entry_xy.max_spec(near.z), t, time_max);
    lemma_order_laws(Scalar::zero_spec(), t, exit_xy.min_spec(far.z));
}

/// The union with the empty box changes nothing, whichever side the empty
/// box is on, for a box without NaN.
pub proof fn lemma_union_with_empty(x: Bounds3)
    requires
        !x.min.has_nan(),
        !x.max.has_nan(),
    ensures
        x.union_spec(Bounds3::empty_spec()) == x,
        Bounds3::empty_spec().union_spec(x) == x,
{
}

/// A union holds both of its boxes: it is ordered where they are, and every
/// point of either lies in it.
pub proof fn lemma_union_contains(a: Bounds3, b: Bounds3, p: Point3)
    requires
        a.ordered(),
        b.ordered(),
        a.contains(p) || b.contains(p),
    ensures
        a.union_spec(b).ordered(),
        a.union_spec(b).contains(p),
{
}

/// A box grown around a point holds that point and all it held before.
pub proof fn lemma_encompass_contains(a: Bounds3, q: Point3, p: Point3)
    requires
        a.ordered(),
        !q.has_nan(),
        a.contains(p) || p == q,
    ensures
        a.encompass_spec(q).ordered(),
        a.encompass_spec(q).contains(p),
{
}

/// The axis that `maximum_dimension` picks has an extent no smaller than
/// the other two.
pub proof fn lemma_widest_axis_is_widest(extent: Vector3)
    requires
        !extent.has_nan(),
    ensures
        extent.x.le_spec(extent.component(widest_axis(extent) as int)),
        extent.y.le_spec(extent.component(widest_axis(extent) as int)),
        extent.z.le_spec(extent.component(widest_axis(extent) as int)),
{
}

/// A rectangle `[min, max)` of the plane.
#[derive(Clone, Copy, Debug, Default)]
pub struct Bounds2<T> {
    pub min: Point2<T>,
    pub max: Point2<T>,
}

/// The walk over the pixels of a rectangle, row by row.
pub struct PixelIterator {
    pub bounds: Bounds2<i32>,
    pub curr: Point2<i32>,
}

impl PixelIterator {
    /// The position after one step: one pixel to the right, or the start of
    /// the next row once the right edge is reached.
    pub open spec fn advanced(self) -> Point2<i32> {
        if self.curr.x + 1 == self.bounds.max.x {
            Point2 { x: self.bounds.min.x, y: (self.curr.y + 1) as i32 }
        } else {
            Point2 { x: (self.curr.x + 1) as i32, y: self.curr.y }
        }
    }

    /// The place of the current pixel in row-major order, counted from the
    /// first pixel of the rectangle.
    pub open spec fn ordinal(self) -> int {
        (self.curr.y - self.bounds.min.y) * (self.bounds.max.x - self.bounds.min.x) + (self.curr.x
            - self.bounds.min.x)
    }

    /// The walk has not left its row: the position is on the rectangle's
    /// columns, or one before the first for a walk that has not started.
    pub open spec fn in_row(self) -> bool {
        &&& self.bounds.min.x < self.bounds.max.x
        &&& self.bounds.min.x - 1 <= self.curr.x < self.bounds.max.x
    }

    /// Steps to the next pixel and returns it, or `None` once the walk is
    /// below the last row.
    pub fn next(&mut self) -> (r: Option<Point2<i32>>)
        requires
            old(self).curr.x < i32::MAX,
            old(self).curr.x + 1 == old(self).bounds.max.x ==> old(self).curr.y < i32::MAX,
        ensures
            final(self).bounds == old(self).bounds,
            final(self).curr == old(self).advanced(),
            r == if final(self).curr.y >= final(self).bounds.max.y {
                None
            } else {
                Some(final(self).curr)
            },
    {
        self.curr.x += 1;
        if self.curr.x == self.bounds.max.x {
            self.curr.x = self.bounds.min.x;
            self.curr.y += 1;
        }
        if self.curr.y >= self.bounds.max.y {
            None
        } else {
            Some(self.curr)
        }
    }
}

impl Bounds2<i32> {
    /// The walk over this rectangle, placed one step before its first pixel.
    pub fn into_iter(self) -> (r: PixelIterator)
        requires
            self.min.x > i32::MIN,
        ensures
            r.bounds == self,
            r.curr.x == self.min.x - 1,
            r.curr.y == self.min.y,
    {
        PixelIterator { bounds: self, curr: Point2 { x: self.min.x - 1, y: self.min.y } }
    }
}

/// Pixels come in row-major order: each step of a walk on a rectangle of
/// positive width moves to the pixel with the next ordinal and stays on the
/// rectangle's columns; a fresh walk stands at ordinal -1.
pub proof fn lemma_pixels_are_row_major(it: PixelIterator)
    requires
        it.in_row(),
        it.curr.y < i32::MAX,
    ensures
        (PixelIterator { bounds: it.bounds, curr: it.advanced() }).ordinal() == it.ordinal() + 1,
        (PixelIterator { bounds: it.bounds, curr: it.advanced() }).in_row(),
        it.bounds.min.x <= it.advanced().x < it.bounds.max.x,
        it.curr.x == it.bounds.min.x - 1 && it.curr.y == it.bounds.min.y ==> it.ordinal() == -1,
{
    let w = it.bounds.max.x - it.bounds.min.x;
    let row = it.curr.y - it.bounds.min.y;
    assert((row + 1) * w == row * w + w) by (nonlinear_arith);
    assert(0 * w == 0) by (nonlinear_arith);
}

} // verus!
