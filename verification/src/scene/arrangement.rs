//! How the primitives of a range are arranged: what it means that a range
//! was rearranged, divided or partitioned, and what survives rearranging.
use vstd::prelude::*;
use crate::scalar::Scalar;
use crate::geometry::bounds::{widest_axis, Bounds3};
use crate::geometry::vector::Vector3;
use crate::scene::primitive::{PrimitiveInfo, SplitMethod};

verus! {

/// The centre of a primitive's box along an axis.
pub open spec fn centroid_key(p: PrimitiveInfo, axis: u8) -> Scalar {
    p.centroid.component(axis as int)
}

/// The seats `[start, end)` of `after` hold what they held in `before`, in
/// some order, and every other seat holds what it held.
pub open spec fn rearranged(
    before: Seq<PrimitiveInfo>,
    after: Seq<PrimitiveInfo>,
    start: usize,
    end: usize,
) -> bool {
    &&& after.len() == before.len()
    &&& after.subrange(start as int, end as int).to_multiset() == before.subrange(
        start as int,
        end as int,
    ).to_multiset()
    &&& forall|i: int| 0 <= i < start ==> #[trigger] after[i] == before[i]
    &&& forall|i: int| end <= i < after.len() ==> #[trigger] after[i] == before[i]
}

/// The centres of the primitives on the seats `[first, first + count)`
/// coincide along `axis`.
pub open spec fn coincide(info: Seq<PrimitiveInfo>, first: int, count: int, axis: u8) -> bool {
    forall|i: int, j: int|
        #![trigger info[i], info[j]]
        first <= i < first + count && first <= j < first + count && i < info.len() && j
            < info.len() ==> centroid_key(info[i], axis).eq_spec(centroid_key(info[j], axis))
}

/// Along `axis`, no centre on the seats `[first, mid)` is beyond a centre on
/// the seats `[mid, end)`.
pub open spec fn divided(info: Seq<PrimitiveInfo>, first: int, mid: int, end: int, axis: u8) -> bool {
    forall|i: int, j: int|
        #![trigger info[i], info[j]]
        first <= i < mid && mid <= j < end && 0 <= i && j < info.len() ==> centroid_key(
            info[i],
            axis,
        ).le_spec(centroid_key(info[j], axis))
}

/// Some centre on the seats `[a, b)` has the coordinate `value` along `axis`.
pub open spec fn attains(info: Seq<PrimitiveInfo>, a: int, b: int, axis: u8, value: Scalar) -> bool {
    exists|i: int|
        a <= i < b && 0 <= i < info.len() && centroid_key(#[trigger] info[i], axis) == value
}

/// `cb` is the smallest box around the centres on the seats `[a, b)`: it
/// holds them all, and each of its six faces passes through one of them.
pub open spec fn centre_box(info: Seq<PrimitiveInfo>, a: int, b: int, cb: Bounds3) -> bool {
    &&& forall|i: int| a <= i < b && 0 <= i < info.len() ==> cb.contains((#[trigger] info[i]).centroid)
    &&& attains(info, a, b, 0, cb.min.x)
    &&& attains(info, a, b, 1, cb.min.y)
    &&& attains(info, a, b, 2, cb.min.z)
    &&& attains(info, a, b, 0, cb.max.x)
    &&& attains(info, a, b, 1, cb.max.y)
    &&& attains(info, a, b, 2, cb.max.z)
}

/// The box has no extent along `axis`.
pub open spec fn flat(cb: Bounds3, axis: u8) -> bool {
    cb.max.component(axis as int).eq_spec(cb.min.component(axis as int))
}

/// Along `axis`, the centres on the seats `[first, mid)` are below
/// `threshold` and those on the seats `[mid, end)` are not.
pub open spec fn partitioned_at(
    info: Seq<PrimitiveInfo>,
    first: int,
    mid: int,
    end: int,
    axis: u8,
    threshold: Scalar,
) -> bool {
    &&& forall|i: int|
        first <= i < mid && 0 <= i < info.len() ==> centroid_key(#[trigger] info[i], axis).lt_spec(
            threshold,
        )
    &&& forall|i: int|
        mid <= i < end && 0 <= i < info.len() ==> !centroid_key(#[trigger] info[i], axis).lt_spec(
            threshold,
        )
}

/// What the method `Middle` asks of the place `mid` at which the seats
/// `[first, end)` are split along `axis`. Where some centres are below
/// `threshold` and some are not, the first part holds exactly those below
/// it. Where all of them are below it, or none is, such a partition would
/// leave one part empty, and the range is halved instead.
pub open spec fn middle_rule(
    info: Seq<PrimitiveInfo>,
    first: int,
    mid: int,
    end: int,
    axis: u8,
    threshold: Scalar,
) -> bool {
    ||| first < mid < end && partitioned_at(info, first, mid, end, axis, threshold)
    ||| mid == first + (end - first) / 2 && (partitioned_at(info, first, end, end, axis, threshold)
        || partitioned_at(info, first, first, end, axis, threshold))
}

/// How the seats `[first, end)` came to be split at `mid` along `axis`: the
/// axis is the one on which the box of their centres is widest, going by the
/// diagonal that `extent` gave for that box, and the box is not flat along
/// it. For the method `Middle` the first part holds the centres below the
/// mean of the box's two ends, as `midpoint` gave it, unless that would
/// leave a part empty, in which case the range is halved; for every other
/// method the range is halved.
pub open spec fn split_rule<E: Fn(&Bounds3) -> Vector3, M: Fn(Scalar, Scalar) -> Scalar>(
    info: Seq<PrimitiveInfo>,
    first: int,
    mid: int,
    end: int,
    axis: u8,
    method: SplitMethod,
    extent: E,
    midpoint: M,
) -> bool {
    exists|cb: Bounds3, ext: Vector3, threshold: Scalar|
        #![trigger
            call_ensures(extent, (&cb,), ext),
            call_ensures(
                midpoint,
                (cb.min.component(axis as int), cb.max.component(axis as int)),
                threshold,
            )
        ]
        {
            &&& centre_box(info, first, end, cb)
            &&& call_ensures(extent, (&cb,), ext)
            &&& axis == widest_axis(ext)
            &&& !flat(cb, axis)
            &&& call_ensures(
                midpoint,
                (cb.min.component(axis as int), cb.max.component(axis as int)),
                threshold,
            )
            &&& (method is Middle) ==> middle_rule(info, first, mid, end, axis, threshold)
            &&& !(method is Middle) ==> mid == first + (end - first) / 2
        }
}

/// Why the seats `[first, end)` were not split: they are a single seat, or
/// the box of their centres is flat along the axis on which it is widest,
/// going by the diagonal that `extent` gave for it.
pub open spec fn leaf_rule<E: Fn(&Bounds3) -> Vector3>(
    info: Seq<PrimitiveInfo>,
    first: int,
    end: int,
    extent: E,
) -> bool {
    end == first + 1 || exists|cb: Bounds3, ext: Vector3|
        #![trigger call_ensures(extent, (&cb,), ext)]
        centre_box(info, first, end, cb) && call_ensures(extent, (&cb,), ext) && flat(
            cb,
            widest_axis(ext),
        )
}

/// The outer box holds the inner one: on every axis its lower end is not
/// above and its upper end not below.
pub open spec fn encloses(outer: Bounds3, inner: Bounds3) -> bool {
    &&& outer.min.x.le_spec(inner.min.x) && inner.max.x.le_spec(outer.max.x)
    &&& outer.min.y.le_spec(inner.min.y) && inner.max.y.le_spec(outer.max.y)
    &&& outer.min.z.le_spec(inner.min.z) && inner.max.z.le_spec(outer.max.z)
}

/// The box has no NaN among its six numbers.
pub open spec fn numeric(b: Bounds3) -> bool {
    !b.min.has_nan() && !b.max.has_nan()
}

/// The union of the `count` boxes from seat `first` on, taken from left to
/// right.
pub open spec fn union_of(boxes: Seq<Bounds3>, first: int, count: int) -> Bounds3
    decreases count,
{
    if count <= 1 {
        boxes[first]
    } else {
        union_of(boxes, first, count - 1).union_spec(boxes[first + count - 1])
    }
}

/// The union of the boxes of a range is the same in every sequence that
/// agrees on the range.
pub proof fn lemma_union_of_frame(b1: Seq<Bounds3>, b2: Seq<Bounds3>, first: int, count: int)
    requires
        0 <= first,
        1 <= count,
        first + count <= b1.len(),
        b2.len() == b1.len(),
        forall|i: int| first <= i < first + count ==> b2[i] == b1[i],
    ensures
        union_of(b2, first, count) == union_of(b1, first, count),
    decreases count,
{
    if count > 1 {
        lemma_union_of_frame(b1, b2, first, count - 1);
    }
}

/// The boxes of a sequence of primitives.
pub open spec fn boxes_of(info: Seq<PrimitiveInfo>) -> Seq<Bounds3> {
    Seq::new(info.len(), |i: int| info[i].bounds)
}

/// Every box and every centre is free of NaN.
pub open spec fn all_numeric(info: Seq<PrimitiveInfo>) -> bool {
    forall|i: int|
        0 <= i < info.len() ==> numeric((#[trigger] info[i]).bounds) && !info[i].centroid.has_nan()
}

/// A division of a range survives rearranging each of its two parts.
pub proof fn lemma_divided_survives(
    a: Seq<PrimitiveInfo>,
    b: Seq<PrimitiveInfo>,
    c: Seq<PrimitiveInfo>,
    start: usize,
    mid: usize,
    end: usize,
    axis: u8,
)
    requires
        start <= mid <= end <= a.len(),
        divided(a, start as int, mid as int, end as int, axis),
        rearranged(a, b, start, mid),
        rearranged(b, c, mid, end),
    ensures
        divided(c, start as int, mid as int, end as int, axis),
{
    assert forall|i: int, j: int|
        #![trigger c[i], c[j]]
        start <= i < mid && mid <= j < end && 0 <= i && j < c.len() implies centroid_key(
        c[i],
        axis,
    ).le_spec(centroid_key(c[j], axis)) by {
        assert(c[i] == b[i]);
        lemma_rearranged_source(a, b, start, mid, i);
        let i0 = choose|k: int| start <= k < mid && a[k] == b[i];
        lemma_rearranged_source(b, c, mid, end, j);
        let j0 = choose|k: int| mid <= k < end && b[k] == c[j];
        assert(b[j0] == a[j0]);
        assert(centroid_key(a[i0], axis).le_spec(centroid_key(a[j0], axis)));
    }
}

/// Rearranging can be undone: what was rearranged into something is a
/// rearrangement of it.
pub proof fn lemma_rearranged_back(
    a: Seq<PrimitiveInfo>,
    b: Seq<PrimitiveInfo>,
    start: usize,
    end: usize,
)
    requires
        rearranged(a, b, start, end),
    ensures
        rearranged(b, a, start, end),
{
}

/// Rearranging a part of a range is rearranging the range.
pub proof fn lemma_rearranged_wider(
    a: Seq<PrimitiveInfo>,
    b: Seq<PrimitiveInfo>,
    start: usize,
    mid_start: usize,
    mid_end: usize,
    end: usize,
)
    requires
        start <= mid_start <= mid_end <= end <= a.len(),
        rearranged(a, b, mid_start, mid_end),
    ensures
        rearranged(a, b, start, end),
{
    assert(rearranged(a, a, start, end));
    lemma_rearranged_twice(a, a, b, start, mid_start, mid_end, end);
}

/// Some centre still has the coordinate after the seats are rearranged.
pub proof fn lemma_attains_rearranged(
    a: Seq<PrimitiveInfo>,
    b: Seq<PrimitiveInfo>,
    start: usize,
    end: usize,
    axis: u8,
    value: Scalar,
)
    requires
        start <= end <= a.len(),
        rearranged(a, b, start, end),
        attains(a, start as int, end as int, axis, value),
    ensures
        attains(b, start as int, end as int, axis, value),
{
    let i = choose|i: int|
        start <= i < end && 0 <= i < a.len() && centroid_key(#[trigger] a[i], axis) == value;
    lemma_rearranged_back(a, b, start, end);
    lemma_rearranged_source(b, a, start, end, i);
    let j = choose|j: int| start <= j < end && b[j] == a[i];
    assert(centroid_key(b[j], axis) == value);
}

/// The box of the centres of a range stays their box when the range is
/// rearranged.
pub proof fn lemma_centre_box_rearranged(
    a: Seq<PrimitiveInfo>,
    b: Seq<PrimitiveInfo>,
    start: usize,
    end: usize,
    cb: Bounds3,
)
    requires
        start <= end <= a.len(),
        rearranged(a, b, start, end),
        centre_box(a, start as int, end as int, cb),
    ensures
        centre_box(b, start as int, end as int, cb),
{
    assert forall|i: int| start <= i < end && 0 <= i < b.len() implies cb.contains(
        (#[trigger] b[i]).centroid,
    ) by {
        lemma_rearranged_source(a, b, start, end, i);
        let j = choose|j: int| start <= j < end && a[j] == b[i];
        assert(cb.contains(a[j].centroid));
    }
    lemma_attains_rearranged(a, b, start, end, 0, cb.min.x);
    lemma_attains_rearranged(a, b, start, end, 1, cb.min.y);
    lemma_attains_rearranged(a, b, start, end, 2, cb.min.z);
    lemma_attains_rearranged(a, b, start, end, 0, cb.max.x);
    lemma_attains_rearranged(a, b, start, end, 1, cb.max.y);
    lemma_attains_rearranged(a, b, start, end, 2, cb.max.z);
}

/// A partition of a range at a threshold survives rearranging each of its
/// two parts.
pub proof fn lemma_partitioned_survives(
    a: Seq<PrimitiveInfo>,
    b: Seq<PrimitiveInfo>,
    c: Seq<PrimitiveInfo>,
    start: usize,
    mid: usize,
    end: usize,
    axis: u8,
    threshold: Scalar,
)
    requires
        start <= mid <= end <= a.len(),
        partitioned_at(a, start as int, mid as int, end as int, axis, threshold),
        rearranged(a, b, start, mid),
        rearranged(b, c, mid, end),
    ensures
        partitioned_at(c, start as int, mid as int, end as int, axis, threshold),
{
    assert forall|i: int| start <= i < mid && 0 <= i < c.len() implies centroid_key(
        #[trigger] c[i],
        axis,
    ).lt_spec(threshold) by {
        assert(c[i] == b[i]);
        lemma_rearranged_source(a, b, start, mid, i);
        let i0 = choose|k: int| start <= k < mid && a[k] == b[i];
        assert(centroid_key(a[i0], axis).lt_spec(threshold));
    }
    assert forall|i: int| mid <= i < end && 0 <= i < c.len() implies !centroid_key(
        #[trigger] c[i],
        axis,
    ).lt_spec(threshold) by {
        lemma_rearranged_source(b, c, mid, end, i);
        let i0 = choose|k: int| mid <= k < end && b[k] == c[i];
        assert(b[i0] == a[i0]);
        assert(!centroid_key(a[i0], axis).lt_spec(threshold));
    }
}

/// What `Middle` asks of a split still holds after each of the two parts
/// was rearranged.
pub proof fn lemma_middle_rule_survives(
    a: Seq<PrimitiveInfo>,
    b: Seq<PrimitiveInfo>,
    c: Seq<PrimitiveInfo>,
    start: usize,
    mid: usize,
    end: usize,
    axis: u8,
    threshold: Scalar,
)
    requires
        start <= mid <= end <= a.len(),
        middle_rule(a, start as int, mid as int, end as int, axis, threshold),
        rearranged(a, b, start, mid),
        rearranged(b, c, mid, end),
    ensures
        middle_rule(c, start as int, mid as int, end as int, axis, threshold),
{
    lemma_rearranged_wider(a, b, start, start, mid, end);
    lemma_rearranged_wider(b, c, start, mid, end, end);
    lemma_rearranged_twice(a, b, c, start, start, end, end);
    if start < mid < end && partitioned_at(a, start as int, mid as int, end as int, axis, threshold) {
        lemma_partitioned_survives(a, b, c, start, mid, end, axis, threshold);
    } else if partitioned_at(a, start as int, end as int, end as int, axis, threshold) {
        assert(rearranged(c, c, end, end)) by {
            assert(c.subrange(end as int, end as int) =~= c.subrange(end as int, end as int));
        }
        lemma_partitioned_survives(a, c, c, start, end, end, axis, threshold);
    } else {
        assert(rearranged(a, a, start, start));
        lemma_partitioned_survives(a, a, c, start, start, end, axis, threshold);
    }
}

/// What `Middle` asks of a split holds in every sequence that agrees on the
/// range.
pub proof fn lemma_middle_rule_frame(
    i1: Seq<PrimitiveInfo>,
    i2: Seq<PrimitiveInfo>,
    first: int,
    mid: int,
    last: int,
    axis: u8,
    threshold: Scalar,
)
    requires
        0 <= first <= mid <= last <= i1.len(),
        i2.len() == i1.len(),
        forall|k: int| first <= k < last ==> i2[k] == i1[k],
        middle_rule(i1, first, mid, last, axis, threshold),
    ensures
        middle_rule(i2, first, mid, last, axis, threshold),
{
    assert forall|i: int| first <= i < last implies centroid_key(#[trigger] i2[i], axis)
        == centroid_key(i1[i], axis) by {
        assert(i2[i] == i1[i]);
    }
}

/// The rule by which a range was split still describes it after each of its
/// two parts was rearranged.
pub proof fn lemma_split_rule_survives<E: Fn(&Bounds3) -> Vector3, M: Fn(Scalar, Scalar) -> Scalar>(
    a: Seq<PrimitiveInfo>,
    b: Seq<PrimitiveInfo>,
    c: Seq<PrimitiveInfo>,
    start: usize,
    mid: usize,
    end: usize,
    axis: u8,
    method: SplitMethod,
    extent: E,
    midpoint: M,
)
    requires
        start <= mid <= end <= a.len(),
        split_rule(a, start as int, mid as int, end as int, axis, method, extent, midpoint),
        rearranged(a, b, start, mid),
        rearranged(b, c, mid, end),
    ensures
        split_rule(c, start as int, mid as int, end as int, axis, method, extent, midpoint),
{
    let (cb, ext, threshold) = choose|cb: Bounds3, ext: Vector3, threshold: Scalar|
        #![trigger
            call_ensures(extent, (&cb,), ext),
            call_ensures(
                midpoint,
                (cb.min.component(axis as int), cb.max.component(axis as int)),
                threshold,
            )
        ]
        {
            &&& centre_box(a, start as int, end as int, cb)
            &&& call_ensures(extent, (&cb,), ext)
            &&& axis == widest_axis(ext)
            &&& !flat(cb, axis)
            &&& call_ensures(
                midpoint,
                (cb.min.component(axis as int), cb.max.component(axis as int)),
                threshold,
            )
            &&& (method is Middle) ==> middle_rule(
                a,
                start as int,
                mid as int,
                end as int,
                axis,
                threshold,
            )
            &&& !(method is Middle) ==> mid == start + (end - start) / 2
        };
    lemma_rearranged_wider(a, b, start, start, mid, end);
    lemma_rearranged_wider(b, c, start, mid, end, end);
    lemma_centre_box_rearranged(a, b, start, end, cb);
    lemma_centre_box_rearranged(b, c, start, end, cb);
    if method is Middle {
        lemma_middle_rule_survives(a, b, c, start, mid, end, axis, threshold);
    }
}

/// A coordinate that is either one that a centre of the seats `[a, i)` has
/// or that of the centre on seat `i` is one that a centre of the seats
/// `[a, i + 1)` has.
pub proof fn lemma_attains_grows(
    info: Seq<PrimitiveInfo>,
    a: int,
    i: int,
    axis: u8,
    before: Scalar,
    added: PrimitiveInfo,
    after: Scalar,
)
    requires
        0 <= a <= i < info.len(),
        info[i] == added,
        attains(info, a, i, axis, before),
        after == before || after == centroid_key(added, axis),
    ensures
        attains(info, a, i + 1, axis, after),
{
    if after == before {
        let k = choose|k: int|
            a <= k < i && 0 <= k < info.len() && centroid_key(#[trigger] info[k], axis) == before;
        assert(centroid_key(info[k], axis) == after);
    } else {
        assert(centroid_key(info[i], axis) == after);
    }
}

/// The box of the centres of a range is their box in every sequence that
/// agrees on the range.
pub proof fn lemma_centre_box_frame(
    i1: Seq<PrimitiveInfo>,
    i2: Seq<PrimitiveInfo>,
    a: int,
    b: int,
    cb: Bounds3,
)
    requires
        0 <= a <= b <= i1.len(),
        i2.len() == i1.len(),
        forall|k: int| a <= k < b ==> i2[k] == i1[k],
        centre_box(i1, a, b, cb),
    ensures
        centre_box(i2, a, b, cb),
{
    assert forall|i: int| a <= i < b && 0 <= i < i2.len() implies cb.contains(
        (#[trigger] i2[i]).centroid,
    ) by {
        assert(i2[i] == i1[i]);
    }
    lemma_attains_frame(i1, i2, a, b, 0, cb.min.x);
    lemma_attains_frame(i1, i2, a, b, 1, cb.min.y);
    lemma_attains_frame(i1, i2, a, b, 2, cb.min.z);
    lemma_attains_frame(i1, i2, a, b, 0, cb.max.x);
    lemma_attains_frame(i1, i2, a, b, 1, cb.max.y);
    lemma_attains_frame(i1, i2, a, b, 2, cb.max.z);
}

/// A coordinate that a centre of a range has, a centre has in every
/// sequence that agrees on the range.
pub proof fn lemma_attains_frame(
    i1: Seq<PrimitiveInfo>,
    i2: Seq<PrimitiveInfo>,
    a: int,
    b: int,
    axis: u8,
    value: Scalar,
)
    requires
        0 <= a <= b <= i1.len(),
        i2.len() == i1.len(),
        forall|k: int| a <= k < b ==> i2[k] == i1[k],
        attains(i1, a, b, axis, value),
    ensures
        attains(i2, a, b, axis, value),
{
    let i = choose|i: int|
        a <= i < b && 0 <= i < i1.len() && centroid_key(#[trigger] i1[i], axis) == value;
    assert(i2[i] == i1[i]);
    assert(centroid_key(i2[i], axis) == value);
}

/// What sits on a rearranged seat sat on one of the rearranged seats before.
pub proof fn lemma_rearranged_source(
    before: Seq<PrimitiveInfo>,
    after: Seq<PrimitiveInfo>,
    start: usize,
    end: usize,
    i: int,
)
    requires
        rearranged(before, after, start, end),
        start <= end <= before.len(),
        start <= i < end,
    ensures
        exists|j: int| start <= j < end && before[j] == after[i],
{
    broadcast use vstd::multiset::group_multiset_axioms;

    let a = after.subrange(start as int, end as int);
    let b = before.subrange(start as int, end as int);
    a.to_multiset_ensures();
    b.to_multiset_ensures();
    assert(a[i - start] == after[i]);
    assert(a.contains(after[i]));
    assert(b.to_multiset().count(after[i]) > 0);
    assert(b.contains(after[i]));
    let k = choose|k: int| 0 <= k < b.len() && b[k] == after[i];
    assert(before[k + start] == after[i]);
}

/// Rearranging keeps every box and centre free of NaN.
pub proof fn lemma_rearranged_numeric(
    before: Seq<PrimitiveInfo>,
    after: Seq<PrimitiveInfo>,
    start: usize,
    end: usize,
)
    requires
        rearranged(before, after, start, end),
        start <= end <= before.len(),
        all_numeric(before),
    ensures
        all_numeric(after),
{
    assert forall|i: int| 0 <= i < after.len() implies numeric((#[trigger] after[i]).bounds)
        && !after[i].centroid.has_nan() by {
        if start <= i < end {
            lemma_rearranged_source(before, after, start, end, i);
        }
    }
}

/// Rearranging twice, the second time within the seats of the first, is
/// rearranging once.
pub proof fn lemma_rearranged_twice(
    a: Seq<PrimitiveInfo>,
    b: Seq<PrimitiveInfo>,
    c: Seq<PrimitiveInfo>,
    start: usize,
    mid_start: usize,
    mid_end: usize,
    end: usize,
)
    requires
        start <= mid_start <= mid_end <= end <= a.len(),
        rearranged(a, b, start, end),
        rearranged(b, c, mid_start, mid_end),
    ensures
        rearranged(a, c, start, end),
{
    broadcast use vstd::multiset::group_multiset_axioms;

    let bs = b.subrange(start as int, end as int);
    let cs = c.subrange(start as int, end as int);
    let b0 = b.subrange(start as int, mid_start as int);
    let b1 = b.subrange(mid_start as int, mid_end as int);
    let b2 = b.subrange(mid_end as int, end as int);
    let c0 = c.subrange(start as int, mid_start as int);
    let c1 = c.subrange(mid_start as int, mid_end as int);
    let c2 = c.subrange(mid_end as int, end as int);
    assert(bs =~= b0 + b1 + b2);
    assert(cs =~= c0 + c1 + c2);
    assert(c0 =~= b0);
    assert(c2 =~= b2);
    vstd::seq_lib::lemma_multiset_commutative(b0, b1);
    vstd::seq_lib::lemma_multiset_commutative(b0 + b1, b2);
    vstd::seq_lib::lemma_multiset_commutative(c0, c1);
    vstd::seq_lib::lemma_multiset_commutative(c0 + c1, c2);
}

/// After a build the places noted in the primitives name every place of the
/// input once, and each primitive still carries what was computed for its
/// place.
pub proof fn lemma_order_is_permutation(before: Seq<PrimitiveInfo>, after: Seq<PrimitiveInfo>)
    requires
        before.len() <= usize::MAX,
        rearranged(before, after, 0, before.len() as usize),
        forall|i: int| 0 <= i < before.len() ==> (#[trigger] before[i]).index == i,
    ensures
        forall|i: int|
            0 <= i < after.len() ==> (#[trigger] after[i]).index < before.len() && after[i]
                == before[after[i].index as int],
        forall|i: int, j: int| 0 <= i < j < after.len() ==> after[i].index != after[j].index,
{
    let n = before.len() as usize;
    assert forall|i: int| 0 <= i < after.len() implies (#[trigger] after[i]).index < before.len()
        && after[i] == before[after[i].index as int] by {
        lemma_rearranged_source(before, after, 0, n, i);
    }
    let b = before.subrange(0, n as int);
    let a = after.subrange(0, n as int);
    assert(b =~= before);
    assert(a =~= after);
    assert(before.no_duplicates());
    before.lemma_multiset_has_no_duplicates();
    after.lemma_multiset_has_no_duplicates_conv();
}

} // verus!
