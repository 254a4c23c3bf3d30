//! Building the hierarchy of boxes.
use vstd::prelude::*;
use std::sync::Arc;
use crate::scalar::Scalar;
use crate::geometry::bounds::{widest_axis, Bounds3};
use crate::geometry::vector::Vector3;
use crate::scene::arrangement::{
    all_numeric,
    boxes_of,
    centre_box,
    centroid_key,
    coincide,
    divided,
    encloses,
    flat,
    leaf_rule,
    lemma_attains_grows,
    lemma_centre_box_frame,
    lemma_centre_box_rearranged,
    lemma_divided_survives,
    lemma_middle_rule_frame,
    lemma_order_is_permutation,
    lemma_partitioned_survives,
    lemma_rearranged_numeric,
    lemma_rearranged_twice,
    lemma_split_rule_survives,
    lemma_union_of_frame,
    middle_rule,
    numeric,
    partitioned_at,
    rearranged,
    split_rule,
    union_of,
};
use crate::scene::primitive::{
    fails,
    holds,
    partition_index,
    BVHAggregate,
    BVHNode,
    BuildNode,
    NullPrimitive,
    PrimitiveInfo,
    PrimitiveInstance,
    SplitMethod,
};
use crate::scene::selection::select_nth_centroid;

verus! {

/// A layout of a tree stays one when the array changes outside the tree's
/// nodes.
pub proof fn lemma_mirrors_frame(tree: BuildNode, n1: Seq<BVHNode>, n2: Seq<BVHNode>, base: int)
    requires
        tree.mirrors(n1, base),
        base + tree.size() <= n2.len(),
        forall|i: int| base <= i < base + tree.size() ==> n2[i] == n1[i],
    ensures
        tree.mirrors(n2, base),
    decreases tree,
{
    if tree is Interior {
        let l = tree.left_child();
        let r = tree.right_child();
        lemma_mirrors_frame(l, n1, n2, base + 1);
        lemma_mirrors_frame(r, n1, n2, base + 1 + l.size());
    }
}

/// A tree stays boxed when boxes of primitives outside its leaves change.
pub proof fn lemma_boxed_frame(tree: BuildNode, b1: Seq<Bounds3>, b2: Seq<Bounds3>, first: int)
    requires
        tree.covers(first),
        0 <= first,
        tree.boxed(b1),
        b2.len() == b1.len(),
        forall|i: int| first <= i < first + tree.span() && i < b1.len() ==> b2[i] == b1[i],
    ensures
        tree.boxed(b2),
    decreases tree,
{
    if tree is Interior {
        let l = tree.left_child();
        let r = tree.right_child();
        lemma_boxed_frame(l, b1, b2, first);
        lemma_boxed_frame(r, b1, b2, first + l.span());
    } else if first + tree.span() <= b1.len() {
        lemma_union_of_frame(b1, b2, first, tree.span() as int);
    }
}

/// A tree stays arranged when primitives outside its leaves change.
pub proof fn lemma_arranged_frame(
    tree: BuildNode,
    i1: Seq<PrimitiveInfo>,
    i2: Seq<PrimitiveInfo>,
    first: int,
    ordered: bool,
)
    requires
        tree.covers(first),
        0 <= first,
        tree.arranged(i1, ordered),
        i2.len() == i1.len(),
        forall|k: int| first <= k < first + tree.span() && k < i1.len() ==> i2[k] == i1[k],
    ensures
        tree.arranged(i2, ordered),
        tree.first() == first,
    decreases tree,
{
    if tree is Interior {
        let l = tree.left_child();
        let r = tree.right_child();
        lemma_arranged_frame(l, i1, i2, first, ordered);
        lemma_arranged_frame(r, i1, i2, first + l.span(), ordered);
        if ordered {
            let axis = tree->split_axis;
            let mid = first + l.span();
            let end = mid + r.span();
            assert(divided(i1, first, mid, end, axis));
            assert forall|i: int, j: int|
                #![trigger i2[i], i2[j]]
                first <= i < mid && mid <= j < end && 0 <= i && j < i2.len() implies centroid_key(
                i2[i],
                axis,
            ).le_spec(centroid_key(i2[j], axis)) by {
                assert(i2[i] == i1[i]);
                assert(i2[j] == i1[j]);
            }
        }
    } else {
        let f = tree->first_primitive as int;
        let c = tree->primitive_count as int;
        if c != 1 {
            let axis = choose|axis: u8| axis < 3 && #[trigger] coincide(i1, f, c, axis);
            assert forall|i: int, j: int|
                #![trigger i2[i], i2[j]]
                f <= i < f + c && f <= j < f + c && i < i2.len() && j < i2.len() implies centroid_key(
                i2[i],
                axis,
            ).eq_spec(centroid_key(i2[j], axis)) by {
                assert(i2[i] == i1[i]);
                assert(i2[j] == i1[j]);
            }
            assert(coincide(i2, f, c, axis));
        }
    }
}

/// Primitives whose centres coincide along an axis make an arranged leaf.
pub proof fn lemma_leaf_arranged(
    info: Seq<PrimitiveInfo>,
    first: usize,
    count: usize,
    bounds: Bounds3,
    axis: u8,
    ordered: bool,
)
    requires
        axis < 3,
        coincide(info, first as int, count as int, axis),
    ensures
        (BuildNode::Leaf { bounds, first_primitive: first, primitive_count: count }).arranged(
            info,
            ordered,
        ),
{
    let leaf = BuildNode::Leaf { bounds, first_primitive: first, primitive_count: count };
    assert(count == 1 || exists|a: u8|
        a < 3 && #[trigger] coincide(info, first as int, count as int, a));
    assert(leaf is Leaf);
    assert(leaf->first_primitive == first);
    assert(leaf->primitive_count == count);
    assert(leaf.arranged(info, ordered) == (count == 1 || exists|a: u8|
        a < 3 && #[trigger] coincide(info, first as int, count as int, a)));
}

/// The rule by which a range was split describes it in every sequence that
/// agrees on the range.
pub proof fn lemma_split_rule_frame<E: Fn(&Bounds3) -> Vector3, M: Fn(Scalar, Scalar) -> Scalar>(
    i1: Seq<PrimitiveInfo>,
    i2: Seq<PrimitiveInfo>,
    first: int,
    mid: int,
    last: int,
    axis: u8,
    method: SplitMethod,
    extent: E,
    midpoint: M,
)
    requires
        0 <= first <= mid <= last <= i1.len(),
        i2.len() == i1.len(),
        forall|k: int| first <= k < last ==> i2[k] == i1[k],
        split_rule(i1, first, mid, last, axis, method, extent, midpoint),
    ensures
        split_rule(i2, first, mid, last, axis, method, extent, midpoint),
{
    let (cb, ext, threshold) = choose|cb: Bounds3, ext: Vector3, threshold: Scalar|
        #![trigger
            call_ensures(extent, (&cb,), ext),
            call_ensures(
                midpoint,
                (cb.min.component(axis as int), cb.max.component(axis as int)),
                threshold,
            )
        ]
        {
            &&& centre_box(i1, first, last, cb)
            &&& call_ensures(extent, (&cb,), ext)
            &&& axis == widest_axis(ext)
            &&& !flat(cb, axis)
            &&& call_ensures(
                midpoint,
                (cb.min.component(axis as int), cb.max.component(axis as int)),
                threshold,
            )
            &&& (method is Middle) ==> middle_rule(i1, first, mid, last, axis, threshold)
            &&& !(method is Middle) ==> mid == first + (last - first) / 2
        };
    lemma_centre_box_frame(i1, i2, first, last, cb);
    if method is Middle {
        lemma_middle_rule_frame(i1, i2, first, mid, last, axis, threshold);
    }
}

/// The rule by which a range was left whole describes it in every sequence
/// that agrees on the range.
pub proof fn lemma_leaf_rule_frame<E: Fn(&Bounds3) -> Vector3>(
    i1: Seq<PrimitiveInfo>,
    i2: Seq<PrimitiveInfo>,
    first: int,
    last: int,
    extent: E,
)
    requires
        0 <= first <= last <= i1.len(),
        i2.len() == i1.len(),
        forall|k: int| first <= k < last ==> i2[k] == i1[k],
        leaf_rule(i1, first, last, extent),
    ensures
        leaf_rule(i2, first, last, extent),
{
    if last != first + 1 {
        let (cb, ext) = choose|cb: Bounds3, ext: Vector3|
            #![trigger call_ensures(extent, (&cb,), ext)]
            centre_box(i1, first, last, cb) && call_ensures(extent, (&cb,), ext) && flat(
                cb,
                widest_axis(ext),
            );
        lemma_centre_box_frame(i1, i2, first, last, cb);
    }
}

/// A tree stays what the build rules make of its primitives when
/// primitives outside its leaves change.
pub proof fn lemma_chosen_frame<E: Fn(&Bounds3) -> Vector3, M: Fn(Scalar, Scalar) -> Scalar>(
    tree: BuildNode,
    i1: Seq<PrimitiveInfo>,
    i2: Seq<PrimitiveInfo>,
    first: int,
    method: SplitMethod,
    extent: E,
    midpoint: M,
)
    requires
        tree.covers(first),
        0 <= first,
        first + tree.span() <= i1.len(),
        tree.chosen(i1, method, extent, midpoint),
        i2.len() == i1.len(),
        forall|k: int| first <= k < first + tree.span() ==> i2[k] == i1[k],
    ensures
        tree.chosen(i2, method, extent, midpoint),
    decreases tree,
{
    let last = first + tree.span();
    if tree is Interior {
        let l = tree.left_child();
        let r = tree.right_child();
        let mid = first + l.span();
        lemma_chosen_frame(l, i1, i2, first, method, extent, midpoint);
        lemma_chosen_frame(r, i1, i2, mid, method, extent, midpoint);
        lemma_first_of_cover(l, first);
        lemma_first_of_cover(r, mid);
        lemma_split_rule_frame(i1, i2, first, mid, last, tree->split_axis, method, extent, midpoint);
    } else {
        lemma_leaf_rule_frame(i1, i2, first, last, extent);
    }
}

/// Primitives whose centres have a flat box along its widest axis make a
/// leaf that the build rules allow.
pub proof fn lemma_flat_leaf_built<E: Fn(&Bounds3) -> Vector3>(
    info: Seq<PrimitiveInfo>,
    first: usize,
    count: usize,
    bounds: Bounds3,
    cb: Bounds3,
    spread: Vector3,
    ordered: bool,
    extent: E,
)
    requires
        first + count <= info.len(),
        centre_box(info, first as int, first + count, cb),
        call_ensures(extent, (&cb,), spread),
        flat(cb, widest_axis(spread)),
    ensures
        (BuildNode::Leaf { bounds, first_primitive: first, primitive_count: count }).arranged(
            info,
            ordered,
        ),
        leaf_rule(info, first as int, first + count, extent),
{
    let axis = widest_axis(spread);
    assert forall|a: int, b: int|
        #![trigger info[a], info[b]]
        first <= a < first + count && first <= b < first + count && a < info.len() && b
            < info.len() implies centroid_key(info[a], axis).eq_spec(centroid_key(info[b], axis)) by {
        assert(cb.contains(info[a].centroid));
        assert(cb.contains(info[b].centroid));
    }
    lemma_leaf_arranged(info, first, count, bounds, axis, ordered);
}

/// A range that was split on the widest axis of the box of its centres, at
/// the place that `split_range` gave, was split by the rule.
pub proof fn lemma_split_rule_holds<E: Fn(&Bounds3) -> Vector3, M: Fn(Scalar, Scalar) -> Scalar>(
    before: Seq<PrimitiveInfo>,
    after: Seq<PrimitiveInfo>,
    start: usize,
    mid: usize,
    end: usize,
    cb: Bounds3,
    spread: Vector3,
    threshold: Scalar,
    method: SplitMethod,
    extent: E,
    midpoint: M,
)
    requires
        start <= mid <= end <= before.len(),
        rearranged(before, after, start, end),
        centre_box(before, start as int, end as int, cb),
        call_ensures(extent, (&cb,), spread),
        !flat(cb, widest_axis(spread)),
        call_ensures(
            midpoint,
            (
                cb.min.component(widest_axis(spread) as int),
                cb.max.component(widest_axis(spread) as int),
            ),
            threshold,
        ),
        (method is Middle) ==> middle_rule(
            after,
            start as int,
            mid as int,
            end as int,
            widest_axis(spread),
            threshold,
        ),
        !(method is Middle) ==> mid == start + (end - start) / 2,
    ensures
        split_rule(
            after,
            start as int,
            mid as int,
            end as int,
            widest_axis(spread),
            method,
            extent,
            midpoint,
        ),
{
    lemma_centre_box_rearranged(before, after, start, end, cb);
}

/// The node above two subtrees that were built over the two parts of a
/// range is what the build promises of the range.
pub proof fn lemma_interior_built<E: Fn(&Bounds3) -> Vector3, M: Fn(Scalar, Scalar) -> Scalar>(
    before: Seq<PrimitiveInfo>,
    after_split: Seq<PrimitiveInfo>,
    after_left: Seq<PrimitiveInfo>,
    after: Seq<PrimitiveInfo>,
    start: usize,
    mid: usize,
    end: usize,
    node: BuildNode,
    method: SplitMethod,
    extent: E,
    midpoint: M,
)
    requires
        start < mid < end <= before.len(),
        node is Interior,
        node.bounds_spec() == node.left_child().bounds_spec().union_spec(
            node.right_child().bounds_spec(),
        ),
        node->split_axis < 3,
        rearranged(before, after_split, start, end),
        rearranged(after_split, after_left, start, mid),
        rearranged(after_left, after, mid, end),
        node.left_child().covers(start as int),
        node.left_child().span() == mid - start,
        node.left_child().boxed(boxes_of(after_left)),
        node.left_child().arranged(after_left, !(method is SurfaceArea)),
        node.left_child().chosen(after_left, method, extent, midpoint),
        numeric(node.left_child().bounds_spec()),
        node.right_child().covers(mid as int),
        node.right_child().span() == end - mid,
        node.right_child().boxed(boxes_of(after)),
        node.right_child().arranged(after, !(method is SurfaceArea)),
        node.right_child().chosen(after, method, extent, midpoint),
        numeric(node.right_child().bounds_spec()),
        !(method is SurfaceArea) ==> divided(
            after_split,
            start as int,
            mid as int,
            end as int,
            node->split_axis,
        ),
        split_rule(
            after_split,
            start as int,
            mid as int,
            end as int,
            node->split_axis,
            method,
            extent,
            midpoint,
        ),
    ensures
        rearranged(before, after, start, end),
        node.covers(start as int),
        node.span() == end - start,
        node.size() == 1 + node.left_child().size() + node.right_child().size(),
        node.boxed(boxes_of(after)),
        node.arranged(after, !(method is SurfaceArea)),
        node.chosen(after, method, extent, midpoint),
        numeric(node.bounds_spec()),
{
    let left = node.left_child();
    let right = node.right_child();
    let axis = node->split_axis;
    let ordered = !(method is SurfaceArea);
    lemma_rearranged_twice(before, after_split, after_left, start, start, mid, end);
    lemma_rearranged_twice(before, after_left, after, start, mid, end, end);
    lemma_boxed_frame(left, boxes_of(after_left), boxes_of(after), start as int);
    lemma_arranged_frame(left, after_left, after, start as int, ordered);
    lemma_first_of_cover(right, mid as int);
    lemma_first_of_cover(left, start as int);
    lemma_chosen_frame(left, after_left, after, start as int, method, extent, midpoint);
    lemma_split_rule_survives(
        after_split,
        after_left,
        after,
        start,
        mid,
        end,
        axis,
        method,
        extent,
        midpoint,
    );
    if ordered {
        lemma_divided_survives(after_split, after_left, after, start, mid, end, axis);
    }
}

/// The first primitive of a tree that covers the primitives from `first` on
/// is `first`.
pub proof fn lemma_first_of_cover(tree: BuildNode, first: int)
    requires
        tree.covers(first),
    ensures
        tree.first() == first,
    decreases tree,
{
    if tree is Interior {
        lemma_first_of_cover(tree.left_child(), first);
    }
}

/// `core::mem::replace`: puts `src` into the place and returns what was
/// there.
pub assume_specification<Elem>[ core::mem::replace::<Elem> ](dest: &mut Elem, src: Elem) -> (res:
    Elem)
    ensures
        *final(dest) == src,
        res == *old(dest),
;

impl BVHAggregate {
    /// Lays a tree out behind the nodes that are there.
    pub fn flatten_build_tree(root: &BuildNode, nodes: &mut Vec<BVHNode>)
        requires
            old(nodes)@.len() + root.size() <= u32::MAX,
            root.span() <= u32::MAX,
        ensures
            final(nodes)@.len() == old(nodes)@.len() + root.size(),
            root.mirrors(final(nodes)@, old(nodes)@.len() as int),
            forall|i: int| 0 <= i < old(nodes)@.len() ==> final(nodes)@[i] == old(nodes)@[i],
        decreases *root,
    {
        match root {
            BuildNode::Leaf { bounds, first_primitive, primitive_count } => {
                nodes.push(
                    BVHNode::Leaf {
                        bounds: *bounds,
                        offset: *first_primitive,
                        primitives: *primitive_count as u32,
                    },
                );
            },
            BuildNode::Interior { bounds, left, right, split_axis } => {
                // Reserve the node's place in the array
                let idx: usize = nodes.len();
                nodes.push(BVHNode::Placeholder);
                Self::flatten_build_tree(left, nodes);
                let ghost after_left = nodes@;
                let second_child: u32 = nodes.len() as u32;
                Self::flatten_build_tree(right, nodes);
                let ghost after_right = nodes@;
                proof {
                    lemma_mirrors_frame(root.left_child(), after_left, after_right, idx + 1);
                }
                nodes[idx] = BVHNode::Interior { bounds: *bounds, axis: *split_axis, second_child };
                proof {
                    let l = root.left_child();
                    lemma_mirrors_frame(l, after_right, nodes@, idx + 1);
                    lemma_mirrors_frame(root.right_child(), after_right, nodes@, idx + 1 + l.size());
                }
            },
        }
    }

    /// Builds the tree over the seats `[start, end)` of `primitive_info`,
    /// rearranging them on the way, and notes in `ordered_primitives` the
    /// input places of the primitives in the order in which they became
    /// leaves. Returns the tree and the number of its nodes.
    ///
    /// A single primitive is a leaf. So are primitives whose centres
    /// coincide along the axis on which the centres spread widest. Any
    /// other range is split on that axis: `Middle` puts the primitives
    /// whose centre is below the midpoint of the spread first; where that
    /// leaves one side empty, and for `EqualCounts`, the median takes the
    /// middle seat with nothing larger before it and nothing smaller after
    /// it; `SurfaceArea` halves the range as it stands. `extent` gives the
    /// diagonal of a box, `midpoint` the mean of two numbers.
    pub fn recursive_build<E, M>(
        primitive_info: &mut Vec<PrimitiveInfo>,
        start: usize,
        end: usize,
        ordered_primitives: &mut Vec<usize>,
        split_method: &SplitMethod,
        extent: &E,
        midpoint: &M,
    ) -> (r: (BuildNode, usize)) where E: Fn(&Bounds3) -> Vector3, M: Fn(Scalar, Scalar) -> Scalar
        requires
            start < end <= old(primitive_info)@.len(),
            old(primitive_info)@.len() <= 0x3fff_ffff,
            old(ordered_primitives)@.len() == start,
            !(*split_method is Linear),
            all_numeric(old(primitive_info)@),
            forall|b: &Bounds3| call_requires(*extent, (b,)),
            forall|a: Scalar, b: Scalar| call_requires(*midpoint, (a, b)),
        ensures
            rearranged(old(primitive_info)@, final(primitive_info)@, start, end),
            all_numeric(final(primitive_info)@),
            final(ordered_primitives)@.len() == end,
            forall|i: int|
                0 <= i < start ==> final(ordered_primitives)@[i] == old(ordered_primitives)@[i],
            forall|i: int|
                start <= i < end ==> final(ordered_primitives)@[i] == final(primitive_info)@[i].index,
            r.0.covers(start as int),
            r.0.span() == end - start,
            r.1 == r.0.size(),
            r.0.size() <= 2 * (end - start) - 1,
            r.0.boxed(boxes_of(final(primitive_info)@)),
            r.0.arranged(final(primitive_info)@, !(*split_method is SurfaceArea)),
            r.0.chosen(final(primitive_info)@, *split_method, *extent, *midpoint),
            numeric(r.0.bounds_spec()),
            *split_method is SurfaceArea ==> final(primitive_info)@ == old(primitive_info)@,
        decreases end - start,
    {
        let primitive_count: usize = end - start;
        if primitive_count == 1 {
            let bounds = primitive_info[start].bounds;
            proof {
                assert(primitive_info@.subrange(start as int, end as int) =~= old(
                    primitive_info,
                )@.subrange(start as int, end as int));
                assert(boxes_of(primitive_info@)[start as int] == bounds);
            }
            return (Self::emit_leaf(primitive_info, start, end, ordered_primitives, bounds), 1);
        }
        // The box of the whole range, and the box of the centres, whose
        // spread decides the axis
        let bounds = Self::range_bounds(primitive_info, start, end);
        let centroid_bounds = Self::centroid_bounds(primitive_info, start, end);
        let spread = extent(&centroid_bounds);
        let split_axis: u8 = Bounds3::maximum_dimension(spread);

        // Centres that coincide cannot be told apart: they share a leaf
        if centroid_bounds.max.index(split_axis).equals(*centroid_bounds.min.index(split_axis)) {
            proof {
                assert(primitive_info@.subrange(start as int, end as int) =~= old(
                    primitive_info,
                )@.subrange(start as int, end as int));
                lemma_flat_leaf_built(
                    primitive_info@,
                    start,
                    primitive_count,
                    bounds,
                    centroid_bounds,
                    spread,
                    !(*split_method is SurfaceArea),
                    *extent,
                );
            }
            return (Self::emit_leaf(primitive_info, start, end, ordered_primitives, bounds), 1);
        }
        // Otherwise divide the range as the split method says
        let split_point = midpoint(
            *centroid_bounds.min.index(split_axis),
            *centroid_bounds.max.index(split_axis),
        );
        let mid: usize = Self::split_range(
            primitive_info,
            start,
            end,
            split_method,
            split_axis,
            split_point,
        );
        let ghost after_split = primitive_info@;
        let ghost ordered = !(*split_method is SurfaceArea);
        proof {
            lemma_split_rule_holds(
                old(primitive_info)@,
                after_split,
                start,
                mid,
                end,
                centroid_bounds,
                spread,
                split_point,
                *split_method,
                *extent,
                *midpoint,
            );
        }

        let (left, left_count) = Self::recursive_build(
            primitive_info,
            start,
            mid,
            ordered_primitives,
            split_method,
            extent,
            midpoint,
        );
        let ghost after_left = primitive_info@;
        let ghost ordered_left = ordered_primitives@;
        let (right, right_count) = Self::recursive_build(
            primitive_info,
            mid,
            end,
            ordered_primitives,
            split_method,
            extent,
            midpoint,
        );
        let node = BuildNode::new_interior(split_axis, Arc::new(left), Arc::new(right));
        proof {
            lemma_interior_built(
                old(primitive_info)@,
                after_split,
                after_left,
                primitive_info@,
                start,
                mid,
                end,
                node,
                *split_method,
                *extent,
                *midpoint,
            );
            assert forall|i: int| start <= i < end implies ordered_primitives@[i]
                == primitive_info@[i].index by {
                if i < mid {
                    assert(ordered_primitives@[i] == ordered_left[i]);
                    assert(primitive_info@[i] == after_left[i]);
                }
            }
        }
        (node, left_count + right_count + 1)
    }

    /// The union of the boxes on the seats `[start, end)`.
    fn range_bounds(primitive_info: &Vec<PrimitiveInfo>, start: usize, end: usize) -> (bounds: Bounds3)
        requires
            start < end <= primitive_info@.len(),
            all_numeric(primitive_info@),
        ensures
            numeric(bounds),
            bounds == union_of(boxes_of(primitive_info@), start as int, end - start),
            forall|j: int| start <= j < end ==> encloses(bounds, (#[trigger] primitive_info@[j]).bounds),
    {
        let mut bounds = primitive_info[start].bounds;
        let mut i: usize = start + 1;
        while i < end
            invariant
                start < i <= end <= primitive_info@.len(),
                all_numeric(primitive_info@),
                numeric(bounds),
                bounds == union_of(boxes_of(primitive_info@), start as int, i - start),
                forall|j: int| start <= j < i ==> encloses(bounds, (#[trigger] primitive_info@[j]).bounds),
            decreases end - i,
        {
            let ghost before = bounds;
            bounds = bounds.union(&primitive_info[i].bounds);
            assert(boxes_of(primitive_info@)[i as int] == primitive_info@[i as int].bounds);
            assert forall|j: int| start <= j < i + 1 implies encloses(
                bounds,
                (#[trigger] primitive_info@[j]).bounds,
            ) by {
                if j < i {
                    assert(encloses(before, primitive_info@[j].bounds));
                }
            }
            i += 1;
        }
        bounds
    }

    /// The smallest box around the centres on the seats `[start, end)`.
    fn centroid_bounds(primitive_info: &Vec<PrimitiveInfo>, start: usize, end: usize) -> (r: Bounds3)
        requires
            start < end <= primitive_info@.len(),
            all_numeric(primitive_info@),
        ensures
            r.ordered(),
            centre_box(primitive_info@, start as int, end as int, r),
    {
        let mut centroid_bounds = Bounds3::new(primitive_info[start].centroid, primitive_info[start].centroid);
        let mut i: usize = start + 1;
        proof {
            let first = primitive_info@[start as int];
            assert(centroid_key(first, 0) == centroid_bounds.min.x);
            assert(centroid_key(first, 1) == centroid_bounds.min.y);
            assert(centroid_key(first, 2) == centroid_bounds.min.z);
        }
        while i < end
            invariant
                start < i <= end <= primitive_info@.len(),
                all_numeric(primitive_info@),
                centroid_bounds.ordered(),
                centre_box(primitive_info@, start as int, i as int, centroid_bounds),
            decreases end - i,
        {
            let ghost before = centroid_bounds;
            let ghost info = primitive_info@;
            centroid_bounds = centroid_bounds.encompass(primitive_info[i].centroid);
            proof {
                assert forall|j: int| start <= j < i + 1 && 0 <= j < info.len() implies centroid_bounds.contains(
                    (#[trigger] info[j]).centroid,
                ) by {
                    if j < i {
                        assert(before.contains(info[j].centroid));
                    }
                }
                let added = info[i as int];
                lemma_attains_grows(info, start as int, i as int, 0, before.min.x, added, centroid_bounds.min.x);
                lemma_attains_grows(info, start as int, i as int, 1, before.min.y, added, centroid_bounds.min.y);
                lemma_attains_grows(info, start as int, i as int, 2, before.min.z, added, centroid_bounds.min.z);
                lemma_attains_grows(info, start as int, i as int, 0, before.max.x, added, centroid_bounds.max.x);
                lemma_attains_grows(info, start as int, i as int, 1, before.max.y, added, centroid_bounds.max.y);
                lemma_attains_grows(info, start as int, i as int, 2, before.max.z, added, centroid_bounds.max.z);
            }
            i += 1;
        }
        centroid_bounds
    }

    /// Makes the seats `[start, end)` one leaf with the box `bounds`, and
    /// notes their primitives.
    fn emit_leaf(
        primitive_info: &Vec<PrimitiveInfo>,
        start: usize,
        end: usize,
        ordered_primitives: &mut Vec<usize>,
        bounds: Bounds3,
    ) -> (r: BuildNode)
        requires
            start < end <= primitive_info@.len(),
            old(ordered_primitives)@.len() == start,
        ensures
            r == (BuildNode::Leaf {
                bounds,
                first_primitive: start,
                primitive_count: (end - start) as usize,
            }),
            final(ordered_primitives)@.len() == end,
            forall|i: int|
                0 <= i < start ==> final(ordered_primitives)@[i] == old(ordered_primitives)@[i],
            forall|i: int|
                start <= i < end ==> final(ordered_primitives)@[i] == primitive_info@[i].index,
    {
        let first_primitive: usize = ordered_primitives.len();
        let mut idx: usize = start;
        while idx < end
            invariant
                start <= idx <= end <= primitive_info@.len(),
                ordered_primitives@.len() == idx,
                forall|j: int|
                    0 <= j < start ==> ordered_primitives@[j] == old(ordered_primitives)@[j],
                forall|j: int| start <= j < idx ==> ordered_primitives@[j] == primitive_info@[j].index,
            decreases end - idx,
        {
            ordered_primitives.push(primitive_info[idx].index);
            idx += 1;
        }
        BuildNode::new_leaf(first_primitive, end - start, bounds)
    }

    /// Divides the seats `[start, end)` in two as the split method says and
    /// returns the first seat of the second part, which is strictly inside
    /// the range.
    fn split_range(
        primitive_info: &mut Vec<PrimitiveInfo>,
        start: usize,
        end: usize,
        split_method: &SplitMethod,
        split_axis: u8,
        split_point: Scalar,
    ) -> (mid: usize)
        requires
            start + 1 < end <= old(primitive_info)@.len(),
            all_numeric(old(primitive_info)@),
            split_axis < 3,
            !(*split_method is Linear),
        ensures
            start < mid < end,
            rearranged(old(primitive_info)@, final(primitive_info)@, start, end),
            all_numeric(final(primitive_info)@),
            !(*split_method is SurfaceArea) ==> divided(
                final(primitive_info)@,
                start as int,
                mid as int,
                end as int,
                split_axis,
            ),
            *split_method is SurfaceArea ==> final(primitive_info)@ == old(primitive_info)@ && mid
                == start + (end - start) / 2,
            (*split_method is Middle) ==> middle_rule(
                final(primitive_info)@,
                start as int,
                mid as int,
                end as int,
                split_axis,
                split_point,
            ),
            !(*split_method is Middle) ==> mid == start + (end - start) / 2,
    {
        let mut mid: usize = start + (end - start) / 2;
        if let SplitMethod::Middle = split_method {
            mid = start + Self::partition_range(primitive_info, start, end, split_axis, split_point);
        }
        let ghost after_partition = primitive_info@;
        proof {
            if !(*split_method is Middle) {
                assert(primitive_info@.subrange(start as int, end as int) =~= old(
                    primitive_info,
                )@.subrange(start as int, end as int));
            }
            lemma_rearranged_numeric(old(primitive_info)@, after_partition, start, end);
        }
        let finished = mid != start && mid != end;
        let equal_counts = match split_method {
            SplitMethod::EqualCounts => true,
            _ => false,
        };
        let surface_area = match split_method {
            SplitMethod::SurfaceArea => true,
            _ => false,
        };
        if !surface_area && (equal_counts || !finished) {
            mid = start + (end - start) / 2;
            select_nth_centroid(primitive_info, start, end, mid - start, split_axis);
        }
        let ghost after_split = primitive_info@;
        proof {
            if *split_method is Middle && !finished {
                let lo = start as int;
                let hi = end as int;
                if partitioned_at(after_partition, lo, lo, hi, split_axis, split_point) {
                    assert(rearranged(after_partition, after_partition, start, start));
                    lemma_partitioned_survives(
                        after_partition,
                        after_partition,
                        after_split,
                        start,
                        start,
                        end,
                        split_axis,
                        split_point,
                    );
                } else {
                    assert(partitioned_at(after_partition, lo, hi, hi, split_axis, split_point));
                    assert(rearranged(after_split, after_split, end, end));
                    lemma_partitioned_survives(
                        after_partition,
                        after_split,
                        after_split,
                        start,
                        end,
                        end,
                        split_axis,
                        split_point,
                    );
                }
            }
            if !surface_area && (equal_counts || !finished) {
                lemma_rearranged_twice(
                    old(primitive_info)@,
                    after_partition,
                    after_split,
                    start,
                    start,
                    end,
                    end,
                );
            }
            lemma_rearranged_numeric(old(primitive_info)@, after_split, start, end);
            if !surface_area {
                assert forall|a: int, b: int|
                    #![trigger after_split[a], after_split[b]]
                    start <= a < mid && mid <= b < end && 0 <= a && b
                        < after_split.len() implies centroid_key(after_split[a], split_axis).le_spec(
                    centroid_key(after_split[b], split_axis),
                ) by {
                    assert(!after_split[a].centroid.has_nan());
                    assert(!after_split[b].centroid.has_nan());
                    if equal_counts || !finished {
                        assert(!after_split[mid as int].centroid.has_nan());
                        assert(centroid_key(after_split[a], split_axis).le_spec(
                            centroid_key(after_split[mid as int], split_axis),
                        ));
                        if b > mid {
                            assert(centroid_key(after_split[mid as int], split_axis).le_spec(
                                centroid_key(after_split[b], split_axis),
                            ));
                        }
                    } else {
                        assert(*split_method is Middle);
                        assert(after_split == after_partition);
                        assert(centroid_key(after_split[a], split_axis).lt_spec(split_point));
                        assert(!centroid_key(after_split[b], split_axis).lt_spec(split_point));
                    }
                }
            }
        }
        mid
    }

    /// Puts the primitives of the seats `[start, end)` whose centre along
    /// `axis` is below `split_point` first, and returns how many they are.
    fn partition_range(
        primitive_info: &mut Vec<PrimitiveInfo>,
        start: usize,
        end: usize,
        axis: u8,
        split_point: Scalar,
    ) -> (r: usize)
        requires
            start <= end <= old(primitive_info)@.len(),
            axis < 3,
        ensures
            r <= end - start,
            rearranged(old(primitive_info)@, final(primitive_info)@, start, end),
            forall|i: int|
                start <= i < start + r ==> centroid_key(
                    #[trigger] final(primitive_info)@[i],
                    axis,
                ).lt_spec(split_point),
            forall|i: int|
                start + r <= i < end ==> !centroid_key(
                    #[trigger] final(primitive_info)@[i],
                    axis,
                ).lt_spec(split_point),
    {
        let below = |p: &PrimitiveInfo| -> (b: bool)
            ensures
                b == centroid_key(*p, axis).lt_spec(split_point),
            { p.centroid.index(axis).lt(split_point) };
        let slice = primitive_info.as_mut_slice();
        let (head, rest) = slice.split_at_mut(start);
        let (range, tail) = rest.split_at_mut(end - start);
        let ghost range_before = range@;
        let r = partition_index(range, below);
        proof {
            let after = primitive_info@;
            assert(after.subrange(start as int, end as int) =~= range@);
            assert(old(primitive_info)@.subrange(start as int, end as int) =~= range_before);
            assert forall|i: int| start <= i < start + r implies centroid_key(
                #[trigger] after[i],
                axis,
            ).lt_spec(split_point) by {
                assert(holds(below, range@[i - start]));
            }
            assert forall|i: int| start + r <= i < end implies !centroid_key(
                #[trigger] after[i],
                axis,
            ).lt_spec(split_point) by {
                assert(fails(below, range@[i - start]));
            }
        }
        r
    }
}

impl BVHAggregate {
    /// The nodes lay out a tree whose leaves hold the primitives in order,
    /// each box enclosing what is below it; an aggregate without primitives
    /// has no node.
    pub open spec fn wf(&self) -> bool {
        &&& self.order@.len() == self.primitives@.len()
        &&& self.info@.len() == self.primitives@.len()
        &&& self.primitives@.len() <= 0x3fff_ffff
        &&& if self.primitives@.len() == 0 {
            self.nodes@.len() == 0
        } else {
            &&& self.tree@.mirrors(self.nodes@, 0)
            &&& self.nodes@.len() == self.tree@.size()
            &&& self.tree@.covers(0)
            &&& self.tree@.span() == self.primitives@.len()
            &&& self.tree@.boxed(boxes_of(self.info@))
            &&& self.tree@.arranged(self.info@, !(self.split_method is SurfaceArea))
        }
    }

    /// `order` names every place of the input once.
    pub open spec fn order_is_permutation(&self) -> bool {
        &&& forall|j: int| 0 <= j < self.order@.len() ==> (#[trigger] self.order@[j]) < self.order@.len()
        &&& forall|j: int, k: int|
            0 <= j < k < self.order@.len() ==> self.order@[j] != self.order@[k]
    }

    /// Builds the hierarchy over the primitives. `primitive_info` holds,
    /// for each primitive, its place, its box and the centre of its box;
    /// `extent` gives the diagonal of a box and `midpoint` the mean of two
    /// numbers. The linear split method is not available.
    pub fn new<E, M>(
        primitives: Vec<PrimitiveInstance>,
        primitive_info: Vec<PrimitiveInfo>,
        max_node_size: usize,
        split_method: SplitMethod,
        extent: E,
        midpoint: M,
    ) -> (r: BVHAggregate) where E: Fn(&Bounds3) -> Vector3, M: Fn(Scalar, Scalar) -> Scalar
        requires
            primitive_info@.len() == primitives@.len(),
            primitives@.len() <= 0x3fff_ffff,
            !(split_method is Linear),
            all_numeric(primitive_info@),
            forall|i: int| 0 <= i < primitive_info@.len() ==> (#[trigger] primitive_info@[i]).index == i,
            forall|b: &Bounds3| call_requires(extent, (b,)),
            forall|a: Scalar, b: Scalar| call_requires(midpoint, (a, b)),
        ensures
            r.wf(),
            r.max_node_size == max_node_size,
            r.split_method == split_method,
            r.primitives@.len() == primitives@.len(),
            r.order_is_permutation(),
            forall|j: int|
                0 <= j < r.primitives@.len() ==> #[trigger] r.primitives@[j] == primitives@[r.order@[j] as int],
            forall|j: int|
                0 <= j < r.primitives@.len() ==> #[trigger] r.info@[j] == primitive_info@[r.order@[j] as int],
            r.primitives@.len() > 0 ==> r.tree@.chosen(r.info@, split_method, extent, midpoint),
            split_method is SurfaceArea ==> forall|j: int|
                0 <= j < r.order@.len() ==> #[trigger] r.order@[j] == j,
    {
        let mut primitives = primitives;
        let mut primitive_info = primitive_info;
        let ghost source = primitives@;
        let ghost info_source = primitive_info@;
        let primitive_count: usize = primitives.len();
        if primitive_count == 0 {
            return BVHAggregate {
                max_node_size,
                split_method,
                primitives,
                nodes: Vec::new(),
                order: Vec::new(),
                tree: Ghost(BuildNode::Leaf { bounds: Bounds3::empty_spec(), first_primitive: 0, primitive_count: 0 }),
                info: Ghost(Seq::empty()),
            };
        }
        let mut order: Vec<usize> = Vec::new();
        let (root, count) = Self::recursive_build(
            &mut primitive_info,
            0,
            primitive_count,
            &mut order,
            &split_method,
            &extent,
            &midpoint,
        );
        proof {
            lemma_order_is_permutation(info_source, primitive_info@);
        }
        // Lay the tree out for traversal
        let mut nodes: Vec<BVHNode> = Vec::new();
        Self::flatten_build_tree(&root, &mut nodes);

        // Bring the primitives into the order of the leaves
        let mut ordered_primitives: Vec<PrimitiveInstance> = Vec::new();
        let mut j: usize = 0;
        while j < primitive_count
            invariant
                j <= primitive_count,
                primitive_count == source.len(),
                primitives@.len() == primitive_count,
                order@.len() == primitive_count,
                ordered_primitives@.len() == j,
                forall|k: int| 0 <= k < primitive_count ==> (#[trigger] order@[k]) < primitive_count,
                forall|a: int, b: int| 0 <= a < b < primitive_count ==> order@[a] != order@[b],
                forall|k: int| 0 <= k < j ==> #[trigger] ordered_primitives@[k] == source[order@[k] as int],
                forall|k: int| j <= k < primitive_count ==> primitives@[order@[k] as int] == source[#[trigger] order@[k] as int],
            decreases primitive_count - j,
        {
            let idx: usize = order[j];
            let primitive = core::mem::replace(
                &mut primitives[idx],
                PrimitiveInstance::NullPrimitive(NullPrimitive {  }),
            );
            ordered_primitives.push(primitive);
            j += 1;
        }
        BVHAggregate {
            max_node_size,
            nodes,
            primitives: ordered_primitives,
            split_method,
            order,
            tree: Ghost(root),
            info: Ghost(primitive_info@),
        }
    }
}

} // verus!
