//! Primitives, and the nodes of the hierarchy of boxes over them.
use vstd::prelude::*;
use std::sync::Arc;
use crate::scalar::{lemma_min_max, lemma_order_laws, Scalar};
use crate::geometry::bounds::Bounds3;
use crate::geometry::interaction::{Interaction, Intersection};
use crate::geometry::point::Point3;
use crate::geometry::vector::Vector3;
use crate::scene::arrangement::{coincide, divided, encloses, leaf_rule, split_rule, union_of};
use crate::scene::light::AreaLight;
use crate::scene::material::MaterialInstance;
use crate::scene::shape::ShapeInstance;

verus! {

/// The primitive that is nowhere.
pub struct NullPrimitive {}

/// A shape with what it is made of and what it emits.
pub struct GeometricPrimitive {
    pub shape: ShapeInstance,
    pub material: Option<MaterialInstance>,
    pub emission: Option<AreaLight>,
}

/// Primitives that are tested one after the other.
pub struct PrimitiveList {
    pub primitives: Vec<PrimitiveInstance>,
}

pub enum PrimitiveInstance {
    NullPrimitive(NullPrimitive),
    GeometricPrimitive(GeometricPrimitive),
    PrimitiveList(PrimitiveList),
    BVHAggregate(BVHAggregate),
}

/// The hierarchy of boxes over a set of primitives, laid out for traversal.
pub struct BVHAggregate {
    pub max_node_size: usize,
    pub split_method: SplitMethod,
    /// The primitives in the order of the leaves.
    pub primitives: Vec<PrimitiveInstance>,
    /// The nodes, depth first.
    pub nodes: Vec<BVHNode>,
    /// For each primitive, its place in the input.
    pub order: Vec<usize>,
    /// The tree that `nodes` lays out.
    pub tree: Ghost<BuildNode>,
    /// What the build knew of the primitives, in the order of the leaves.
    pub info: Ghost<Seq<PrimitiveInfo>>,
}

/// How a range of primitives is divided between the two children of a node.
#[derive(Clone, Copy, Debug, PartialEq, Eq, Structural)]
pub enum SplitMethod {
    SurfaceArea,
    Linear,
    Middle,
    EqualCounts,
}

/// A node of the hierarchy as traversal reads it. The first child of an
/// interior node is the next node of the array, its second child is at
/// `second_child`; a leaf holds `primitives` primitives from `offset` on.
#[derive(Clone, Copy, Debug)]
pub enum BVHNode {
    Interior { bounds: Bounds3, second_child: u32, axis: u8 },
    Leaf { bounds: Bounds3, offset: usize, primitives: u32 },
    Placeholder,
}

impl BVHNode {
    /// The box of the node; a placeholder has the box that holds nothing.
    pub open spec fn bounds_spec(self) -> Bounds3 {
        match self {
            BVHNode::Interior { bounds, .. } => bounds,
            BVHNode::Leaf { bounds, .. } => bounds,
            BVHNode::Placeholder => Bounds3::empty_spec(),
        }
    }

    /// The box of a node of a finished hierarchy.
    pub fn bounds(&self) -> (r: Bounds3)
        requires
            !(*self is Placeholder),
        ensures
            r == self.bounds_spec(),
    {
        match self {
            BVHNode::Interior { bounds, .. } => *bounds,
            BVHNode::Leaf { bounds, .. } => *bounds,
            BVHNode::Placeholder => Bounds3::empty(),
        }
    }
}

/// A node of the hierarchy as it is built.
pub enum BuildNode {
    Interior { bounds: Bounds3, left: Arc<BuildNode>, right: Arc<BuildNode>, split_axis: u8 },
    Leaf { bounds: Bounds3, first_primitive: usize, primitive_count: usize },
}

/// What the build knows of one primitive: its place in the input, its box
/// and the centre of its box.
#[derive(Clone, Copy, Debug)]
pub struct PrimitiveInfo {
    pub index: usize,
    pub bounds: Bounds3,
    pub centroid: Point3,
}

impl BuildNode {
    pub open spec fn bounds_spec(self) -> Bounds3 {
        match self {
            BuildNode::Interior { bounds, .. } => bounds,
            BuildNode::Leaf { bounds, .. } => bounds,
        }
    }

    /// The left subtree of an interior node (the node itself for a leaf).
    pub open spec fn left_child(self) -> BuildNode {
        match self {
            BuildNode::Interior { left, .. } => *left,
            BuildNode::Leaf { .. } => self,
        }
    }

    /// The right subtree of an interior node (the node itself for a leaf).
    pub open spec fn right_child(self) -> BuildNode {
        match self {
            BuildNode::Interior { right, .. } => *right,
            BuildNode::Leaf { .. } => self,
        }
    }

    /// How many nodes the tree has.
    pub open spec fn size(self) -> nat
        decreases self,
    {
        match self {
            BuildNode::Interior { left, right, .. } => 1 + left.size() + right.size(),
            BuildNode::Leaf { .. } => 1,
        }
    }

    /// How many primitives the leaves of the tree hold.
    pub open spec fn span(self) -> nat
        decreases self,
    {
        match self {
            BuildNode::Interior { left, right, .. } => left.span() + right.span(),
            BuildNode::Leaf { primitive_count, .. } => primitive_count as nat,
        }
    }

    /// The leaves, from left to right, hold the primitives from `first` on
    /// without gap or overlap; no leaf is empty and every split axis is one
    /// of the three.
    pub open spec fn covers(self, first: int) -> bool
        decreases self,
    {
        match self {
            BuildNode::Interior { left, right, split_axis, .. } => {
                &&& split_axis < 3
                &&& left.covers(first)
                &&& right.covers(first + left.span())
            },
            BuildNode::Leaf { first_primitive, primitive_count, .. } => {
                &&& first_primitive == first
                &&& primitive_count >= 1
            },
        }
    }

    /// Every leaf's box is the union of the boxes of its primitives and
    /// every interior node's box the union of the boxes of its two children;
    /// so each box encloses what is below it. `boxes` holds the primitives'
    /// boxes in the order of the leaves.
    pub open spec fn boxed(self, boxes: Seq<Bounds3>) -> bool
        decreases self,
    {
        match self {
            BuildNode::Interior { bounds, left, right, .. } => {
                &&& left.boxed(boxes)
                &&& right.boxed(boxes)
                &&& bounds == left.bounds_spec().union_spec(right.bounds_spec())
                &&& encloses(bounds, left.bounds_spec())
                &&& encloses(bounds, right.bounds_spec())
            },
            BuildNode::Leaf { bounds, first_primitive, primitive_count } => {
                &&& first_primitive + primitive_count <= boxes.len() ==> bounds == union_of(
                    boxes,
                    first_primitive as int,
                    primitive_count as int,
                )
                &&& forall|i: int|
                    first_primitive <= i < first_primitive + primitive_count && i < boxes.len()
                        ==> encloses(bounds, #[trigger] boxes[i])
            },
        }
    }

    /// The place of the first primitive of the leftmost leaf.
    pub open spec fn first(self) -> int
        decreases self,
    {
        match self {
            BuildNode::Interior { left, .. } => left.first(),
            BuildNode::Leaf { first_primitive, .. } => first_primitive as int,
        }
    }

    /// The primitives are where the build rules put them. A leaf holds one
    /// primitive, or primitives whose centres coincide along an axis. The
    /// two children of an interior node are arranged themselves, and, for a
    /// split method that orders (`ordered`), no primitive of the left child
    /// has its centre beyond that of a primitive of the right child along
    /// the node's axis. `info` holds what is known of the primitives in the
    /// order of the leaves.
    pub open spec fn arranged(self, info: Seq<PrimitiveInfo>, ordered: bool) -> bool
        decreases self,
    {
        match self {
            BuildNode::Interior { left, right, split_axis, .. } => {
                &&& left.arranged(info, ordered)
                &&& right.arranged(info, ordered)
                &&& ordered ==> divided(
                    info,
                    left.first(),
                    right.first(),
                    right.first() + right.span(),
                    split_axis,
                )
            },
            BuildNode::Leaf { first_primitive, primitive_count, .. } => {
                primitive_count == 1 || exists|axis: u8|
                    axis < 3 && #[trigger] coincide(
                        info,
                        first_primitive as int,
                        primitive_count as int,
                        axis,
                    )
            },
        }
    }

    /// Every node is what the build rules make of its primitives: every
    /// interior node was split by `split_rule`, every leaf was left whole by
    /// `leaf_rule`.
    pub open spec fn chosen<E: Fn(&Bounds3) -> Vector3, M: Fn(Scalar, Scalar) -> Scalar>(
        self,
        info: Seq<PrimitiveInfo>,
        method: SplitMethod,
        extent: E,
        midpoint: M,
    ) -> bool
        decreases self,
    {
        match self {
            BuildNode::Interior { left, right, split_axis, .. } => {
                &&& left.chosen(info, method, extent, midpoint)
                &&& right.chosen(info, method, extent, midpoint)
                &&& split_rule(
                    info,
                    left.first(),
                    right.first(),
                    right.first() + right.span(),
                    split_axis,
                    method,
                    extent,
                    midpoint,
                )
            },
            BuildNode::Leaf { first_primitive, primitive_count, .. } => leaf_rule(
                info,
                first_primitive as int,
                first_primitive + primitive_count,
                extent,
            ),
        }
    }

    /// `nodes[base..base + size)` is this tree laid out depth first: each
    /// node, then its left subtree, then its right subtree, with the place
    /// of the right child recorded in the node.
    pub open spec fn mirrors(self, nodes: Seq<BVHNode>, base: int) -> bool
        decreases self,
    {
        &&& 0 <= base
        &&& base + self.size() <= nodes.len()
        &&& match self {
            BuildNode::Interior { bounds, left, right, split_axis } => {
                &&& nodes[base] == (BVHNode::Interior {
                    bounds,
                    second_child: (base + 1 + left.size()) as u32,
                    axis: split_axis,
                })
                &&& base + 1 + left.size() <= u32::MAX
                &&& left.mirrors(nodes, base + 1)
                &&& right.mirrors(nodes, base + 1 + left.size())
            },
            BuildNode::Leaf { bounds, first_primitive, primitive_count } => {
                &&& nodes[base] == (BVHNode::Leaf {
                    bounds,
                    offset: first_primitive,
                    primitives: primitive_count as u32,
                })
                &&& primitive_count <= u32::MAX
            },
        }
    }

    pub fn bounds(&self) -> (r: Bounds3)
        ensures
            r == self.bounds_spec(),
    {
        match self {
            BuildNode::Interior { bounds, .. } => *bounds,
            BuildNode::Leaf { bounds, .. } => *bounds,
        }
    }

    /// The node above two subtrees; its box is the union of theirs.
    pub fn new_interior(split_axis: u8, c0: Arc<BuildNode>, c1: Arc<BuildNode>) -> (r: BuildNode)
        ensures
            r == (BuildNode::Interior {
                bounds: c0.bounds_spec().union_spec(c1.bounds_spec()),
                left: c0,
                right: c1,
                split_axis,
            }),
    {
        let bounds = c0.bounds().union(&c1.bounds());
        BuildNode::Interior { bounds, left: c0, right: c1, split_axis }
    }

    pub fn new_leaf(first_primitive: usize, primitive_count: usize, bounds: Bounds3) -> (r: BuildNode)
        ensures
            r == (BuildNode::Leaf { bounds, first_primitive, primitive_count }),
    {
        BuildNode::Leaf { bounds, first_primitive, primitive_count }
    }
}

/// `<[T]>::swap`: exchanges the elements at the two places, which must both
/// be in the slice.
pub assume_specification<Elem>[ <[Elem]>::swap ](slice: &mut [Elem], a: usize, b: usize)
    requires
        a < old(slice)@.len(),
        b < old(slice)@.len(),
    ensures
        final(slice)@ == old(slice)@.update(a as int, old(slice)@[b as int]).update(
            b as int,
            old(slice)@[a as int],
        ),
;

/// Exchanging two elements of a sequence leaves the same elements.
pub proof fn lemma_swap_keeps_multiset<T>(s: Seq<T>, a: int, b: int)
    requires
        0 <= a < s.len(),
        0 <= b < s.len(),
    ensures
        s.update(a, s[b]).update(b, s[a]).to_multiset() == s.to_multiset(),
{
    broadcast use vstd::multiset::group_multiset_axioms;

    let s1 = s.update(a, s[b]);
    vstd::seq_lib::to_multiset_update(s, a, s[b]);
    vstd::seq_lib::to_multiset_update(s1, b, s[a]);
    s.to_multiset_ensures();
    assert(s.to_multiset().count(s[a]) > 0) by {
        assert(s.contains(s[a]));
    }
    assert(s.to_multiset().count(s[b]) > 0) by {
        assert(s.contains(s[b]));
    }
    assert(s1.update(b, s[a]).to_multiset() =~= s.to_multiset());
}

/// Whether the predicate holds of an element: whatever it returns for it is
/// `true`.
pub open spec fn holds<T, P: Fn(&T) -> bool>(predicate: P, x: T) -> bool {
    call_ensures(predicate, (&x,), true)
}

/// Whether the predicate fails of an element.
pub open spec fn fails<T, P: Fn(&T) -> bool>(predicate: P, x: T) -> bool {
    call_ensures(predicate, (&x,), false)
}

/// Of how many of the first `n` elements the predicate holds.
pub open spec fn count_holding<T, P: Fn(&T) -> bool>(s: Seq<T>, predicate: P, n: int) -> nat
    decreases n,
{
    if n <= 0 {
        0
    } else {
        count_holding(s, predicate, n - 1) + if holds(predicate, s[n - 1]) {
            1nat
        } else {
            0nat
        }
    }
}

/// Exchanging two elements changes the count among the first `n` only where
/// exactly one of the two places is among them.
pub proof fn lemma_swap_keeps_count<T, P: Fn(&T) -> bool>(s: Seq<T>, predicate: P, a: int, b: int, n: int)
    requires
        0 <= a < b < s.len(),
        0 <= n <= s.len(),
    ensures
        count_holding(s.update(a, s[b]).update(b, s[a]), predicate, n) == count_holding(s, predicate, n)
            + if a < n <= b {
            (if holds(predicate, s[b]) {
                1int
            } else {
                0int
            }) - (if holds(predicate, s[a]) {
                1int
            } else {
                0int
            })
        } else {
            0int
        },
    decreases n,
{
    if n > 0 {
        lemma_swap_keeps_count(s, predicate, a, b, n - 1);
    }
}

/// Where the elements of which the predicate holds are the first `r`, the
/// predicate holds of `r` elements.
pub proof fn lemma_count_of_arranged<T, P: Fn(&T) -> bool>(s: Seq<T>, predicate: P, r: int, n: int)
    requires
        0 <= r <= s.len(),
        0 <= n <= s.len(),
        forall|i: int| 0 <= i < r ==> holds(predicate, #[trigger] s[i]),
        forall|i: int| r <= i < s.len() ==> fails(predicate, #[trigger] s[i]),
        forall|x: &T| !(call_ensures(predicate, (x,), true) && call_ensures(predicate, (x,), false)),
    ensures
        count_holding(s, predicate, n) == if n < r {
            n
        } else {
            r
        },
    decreases n,
{
    if n > 0 {
        lemma_count_of_arranged(s, predicate, r, n - 1);
        if n - 1 >= r {
            assert(fails(predicate, s[n - 1]));
            assert(!holds(predicate, s[n - 1]));
        }
    }
}

/// No element of which the predicate fails stands before one of which it
/// holds.
pub open spec fn sorted_by<T, P: Fn(&T) -> bool>(s: Seq<T>, predicate: P) -> bool {
    forall|i: int, j: int|
        #![trigger s[i], s[j]]
        0 <= i < j < s.len() ==> !(fails(predicate, s[i]) && holds(predicate, s[j]))
}

/// Rearranges the slice so that the elements of which the predicate holds
/// come first, and returns how many they are. A slice whose elements are
/// already so arranged, as one is of whose elements the predicate holds of
/// all or of none, is left as it was. The predicate must accept every
/// element and give one answer for each.
pub fn partition_index<T, P>(data: &mut [T], predicate: P) -> (r: usize) where P: Fn(&T) -> bool
    requires
        forall|x: &T| call_requires(predicate, (x,)),
        forall|x: &T| !(call_ensures(predicate, (x,), true) && call_ensures(predicate, (x,), false)),
    ensures
        r <= final(data)@.len(),
        final(data)@.len() == old(data)@.len(),
        final(data)@.to_multiset() == old(data)@.to_multiset(),
        forall|i: int| 0 <= i < r ==> holds(predicate, #[trigger] final(data)@[i]),
        forall|i: int| r <= i < final(data)@.len() ==> fails(predicate, #[trigger] final(data)@[i]),
        r == count_holding(old(data)@, predicate, old(data)@.len() as int),
        sorted_by(old(data)@, predicate) ==> final(data)@ == old(data)@,
        (forall|i: int| 0 <= i < old(data)@.len() ==> holds(predicate, #[trigger] old(data)@[i]))
            ==> final(data)@ == old(data)@ && r == old(data)@.len(),
        (forall|i: int| 0 <= i < old(data)@.len() ==> fails(predicate, #[trigger] old(data)@[i]))
            ==> final(data)@ == old(data)@ && r == 0,
{
    let len: usize = data.len();
    if len == 0 {
        return 0;
    }
    let mut l: usize = 0;
    let mut r: usize = len - 1;
    loop
        invariant
            len == data@.len(),
            len == old(data)@.len(),
            l <= len,
            r < len,
            l <= r + 1,
            data@.to_multiset() == old(data)@.to_multiset(),
            forall|x: &T| call_requires(predicate, (x,)),
            forall|x: &T|
                !(call_ensures(predicate, (x,), true) && call_ensures(predicate, (x,), false)),
            forall|i: int| 0 <= i < l ==> holds(predicate, #[trigger] data@[i]),
            forall|i: int| r < i < len ==> fails(predicate, #[trigger] data@[i]),
            sorted_by(old(data)@, predicate) ==> data@ == old(data)@,
            count_holding(data@, predicate, len as int) == count_holding(
                old(data)@,
                predicate,
                len as int,
            ),
        decreases
                2 * (r + 1 - l) - (if l < len && holds(predicate, data@[l as int]) {
                    1int
                } else {
                    0int
                }),
    {
        let ghost l_head = l;
        let ghost r_head = r;
        while l < len && predicate(&data[l])
            invariant
                len == data@.len(),
                l_head <= l <= len,
                forall|x: &T| call_requires(predicate, (x,)),
                forall|i: int| 0 <= i < l ==> holds(predicate, #[trigger] data@[i]),
            ensures
                l_head <= l <= len,
                l < len ==> fails(predicate, data@[l as int]),
                forall|i: int| 0 <= i < l ==> holds(predicate, #[trigger] data@[i]),
            decreases len - l,
        {
            l += 1;
        }
        while r > 0 && !predicate(&data[r])
            invariant
                len == data@.len(),
                r <= r_head,
                r < len,
                forall|x: &T| call_requires(predicate, (x,)),
                forall|i: int| r < i < len ==> fails(predicate, #[trigger] data@[i]),
            ensures
                r <= r_head,
                r < len,
                r > 0 ==> holds(predicate, data@[r as int]),
                forall|i: int| r < i < len ==> fails(predicate, #[trigger] data@[i]),
            decreases r,
        {
            r -= 1;
        }
        if l >= r {
            proof {
                if l > 0 && data@ == old(data)@ {
                    assert(holds(predicate, old(data)@[0]));
                }
                lemma_count_of_arranged(data@, predicate, l as int, len as int);
            }
            return l;
        }
        proof {
            // an element of which the predicate fails stands before one of
            // which it holds: the slice was not yet arranged
            assert(fails(predicate, data@[l as int]));
            assert(holds(predicate, data@[r as int]));
            lemma_swap_keeps_multiset(data@, l as int, r as int);
            lemma_swap_keeps_count(data@, predicate, l as int, r as int, len as int);
        }
        data.swap(l, r);
    }
}

impl NullPrimitive {
    /// The box of a single point at the origin.
    pub fn world_bounds(&self) -> (r: Bounds3)
        ensures
            r == (Bounds3 { min: Point3::origin(), max: Point3::origin() }),
    {
        Bounds3 { min: Point3::zero(), max: Point3::zero() }
    }
}

impl GeometricPrimitive {
    /// The hit of this primitive: what its shape found, with what the
    /// primitive emits and is made of.
    pub fn intersect(&self, intersection: Option<Intersection>) -> (r: Option<Interaction>)
        ensures
            (r is None) == (intersection is None),
            r matches Some(i) ==> i.intersection == intersection->0 && i.emission == self.emission
                && i.material == self.material,
    {
        match intersection {
            Some(intersection) => Some(
                Interaction { intersection, emission: self.emission, material: self.material },
            ),
            None => None,
        }
    }
}

impl PrimitiveList {
    /// The winner among the first `n` hit distances: the first hit, and
    /// after it every hit that is strictly nearer than the winner so far (or
    /// that follows a winner at a negative distance).
    pub open spec fn closest_spec(distances: Seq<Option<Scalar>>, n: int) -> Option<int>
        decreases n,
    {
        if n <= 0 {
            None
        } else {
            let before = Self::closest_spec(distances, n - 1);
            match distances[n - 1] {
                None => before,
                Some(d) => match before {
                    None => Some(n - 1),
                    Some(w) => {
                        let best = distances[w].unwrap();
                        if best.lt_spec(Scalar::zero_spec()) || d.lt_spec(best) {
                            Some(n - 1)
                        } else {
                            before
                        }
                    },
                },
            }
        }
    }

    /// Every hit distance is a number and not negative, as the distances
    /// along a ray are.
    pub open spec fn along_a_ray(distances: Seq<Option<Scalar>>) -> bool {
        forall|i: int|
            0 <= i < distances.len() && (#[trigger] distances[i]) is Some ==> !distances[i].unwrap().nan()
                && !distances[i].unwrap().lt_spec(Scalar::zero_spec())
    }

    /// Among the first `n` places, `w` holds the first of the nearest hits:
    /// no hit is strictly nearer, and every hit before it is strictly
    /// farther.
    pub open spec fn first_nearest(distances: Seq<Option<Scalar>>, n: int, w: int) -> bool {
        &&& 0 <= w < n
        &&& distances[w] is Some
        &&& forall|i: int|
            0 <= i < n && (#[trigger] distances[i]) is Some ==> !distances[i].unwrap().lt_spec(
                distances[w].unwrap(),
            )
        &&& forall|i: int|
            0 <= i < w && (#[trigger] distances[i]) is Some ==> distances[w].unwrap().lt_spec(
                distances[i].unwrap(),
            )
    }

    /// Of distances along a ray the scan keeps the first of the nearest
    /// hits, and it keeps none only where there is none.
    pub proof fn lemma_closest_is_first_nearest(distances: Seq<Option<Scalar>>, n: int)
        requires
            0 <= n <= distances.len(),
            Self::along_a_ray(distances),
        ensures
            match Self::closest_spec(distances, n) {
                Some(w) => Self::first_nearest(distances, n, w),
                None => forall|i: int| 0 <= i < n ==> distances[i] is None,
            },
        decreases n,
    {
        if n > 0 {
            Self::lemma_closest_is_first_nearest(distances, n - 1);
            let before = Self::closest_spec(distances, n - 1);
            if let (Some(d), Some(w)) = (distances[n - 1], before) {
                let best = distances[w].unwrap();
                assert(!best.lt_spec(Scalar::zero_spec()));
                if d.lt_spec(best) {
                    assert forall|i: int| 0 <= i < n && (#[trigger] distances[i]) is Some implies {
                        &&& !distances[i].unwrap().lt_spec(d)
                        &&& i < n - 1 ==> d.lt_spec(distances[i].unwrap())
                    } by {
                        let e = distances[i].unwrap();
                        lemma_order_laws(e, d, best);
                        lemma_order_laws(d, best, e);
                        if i < n - 1 {
                            assert(!e.lt_spec(best));
                            lemma_min_max(best, e);
                        }
                    }
                }
            }
        }
    }

    /// The exhaustive scan: from the distance at which the ray hits each
    /// primitive, if it does, the place of the primitive whose hit is kept.
    /// Of distances along a ray that is the first of the nearest hits.
    pub fn intersect(distances: &[Option<Scalar>]) -> (r: Option<usize>)
        ensures
            match r {
                Some(w) => Self::closest_spec(distances@, distances@.len() as int) == Some(w as int),
                None => Self::closest_spec(distances@, distances@.len() as int) is None,
            },
            r matches Some(w) ==> w < distances@.len() && distances@[w as int] is Some,
            (r is None) <==> (forall|i: int| 0 <= i < distances@.len() ==> distances@[i] is None),
            Self::along_a_ray(distances@) && r is Some ==> Self::first_nearest(
                distances@,
                distances@.len() as int,
                r.unwrap() as int,
            ),
    {
        proof {
            if Self::along_a_ray(distances@) {
                Self::lemma_closest_is_first_nearest(distances@, distances@.len() as int);
            }
        }
        let mut min_interaction: Option<usize> = None;
        let mut min_dist = Scalar::one().neg();
        let mut i: usize = 0;
        while i < distances.len()
            invariant
                i <= distances@.len(),
                match min_interaction {
                    Some(w) => Self::closest_spec(distances@, i as int) == Some(w as int) && w < i
                        && distances@[w as int] == Some(min_dist),
                    None => Self::closest_spec(distances@, i as int) is None && min_dist.lt_spec(
                        Scalar::zero_spec(),
                    ),
                },
                (min_interaction is None) <==> (forall|j: int|
                    0 <= j < i ==> distances@[j] is None),
            decreases distances@.len() - i,
        {
            match distances[i] {
                Some(d) => {
                    if min_dist.lt(Scalar::zero_value()) || d.lt(min_dist) {
                        min_dist = d;
                        min_interaction = Some(i);
                    }
                },
                None => {},
            }
            i += 1;
        }
        min_interaction
    }
}

} // verus!
