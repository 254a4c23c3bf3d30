//! Walking the hierarchy of boxes along a ray.
use vstd::prelude::*;
use crate::geometry::bounds::Bounds3;
use crate::scene::primitive::{BVHAggregate, BVHNode, BuildNode};

verus! {

/// What traversal does after the box of a node was tested.
#[derive(Clone, Copy, Debug, PartialEq, Eq, Structural)]
pub enum TraversalStep {
    /// The box of this node is to be tested next.
    Descend(usize),
    /// The primitives `[start, end)` are to be tested against the ray, and
    /// after them the box of node `next`; with no `next` the traversal is
    /// over.
    Leaf { start: usize, end: usize, next: Option<usize> },
    /// No node is left.
    Finished,
}

/// The step after the box of `node`, which sits at `curr`, was tested with
/// the result `hit`, and the nodes that are left for later after it. A box
/// that is missed, or a leaf, is followed by the node noted last; an
/// interior node that is hit is followed by the child that the ray enters
/// first, which is the second child where the ray runs against the node's
/// axis, and the other child is noted for later.
pub open spec fn step_spec(
    node: BVHNode,
    curr: usize,
    hit: bool,
    is_neg: [usize; 3],
    pending: Seq<usize>,
) -> (TraversalStep, Seq<usize>) {
    let next = if pending.len() == 0 {
        None
    } else {
        Some(pending.last())
    };
    let rest = if pending.len() == 0 {
        pending
    } else {
        pending.drop_last()
    };
    if !hit {
        (
            match next {
                Some(n) => TraversalStep::Descend(n),
                None => TraversalStep::Finished,
            },
            rest,
        )
    } else {
        match node {
            BVHNode::Interior { second_child, axis, .. } => {
                if is_neg[axis as int] == 1 {
                    (TraversalStep::Descend(second_child as usize), pending.push((curr + 1) as usize))
                } else {
                    (TraversalStep::Descend((curr + 1) as usize), pending.push(second_child as usize))
                }
            },
            BVHNode::Leaf { offset, primitives, .. } => (
                TraversalStep::Leaf { start: offset, end: (offset + primitives) as usize, next },
                rest,
            ),
            BVHNode::Placeholder => (TraversalStep::Finished, pending),
        }
    }
}

impl BuildNode {
    /// The ranges of primitives that a traversal of this tree tests, in
    /// their order, when the box of node `i` is hit exactly where `hits[i]`
    /// says. The tree's root sits at `base`.
    pub open spec fn visit(self, base: int, hits: Seq<bool>, is_neg: [usize; 3]) -> Seq<(usize, usize)>
        decreases self,
    {
        if !hits[base] {
            Seq::empty()
        } else {
            match self {
                BuildNode::Leaf { first_primitive, primitive_count, .. } => seq![
                    (first_primitive, (first_primitive + primitive_count) as usize),
                ],
                BuildNode::Interior { left, right, split_axis, .. } => {
                    if is_neg[split_axis as int] == 1 {
                        right.visit(base + 1 + left.size(), hits, is_neg) + left.visit(
                            base + 1,
                            hits,
                            is_neg,
                        )
                    } else {
                        left.visit(base + 1, hits, is_neg) + right.visit(
                            base + 1 + left.size(),
                            hits,
                            is_neg,
                        )
                    }
                },
            }
        }
    }
}

/// In how many of the ranges the primitive `p` lies.
pub open spec fn containing(ranges: Seq<(usize, usize)>, p: int) -> nat
    decreases ranges.len(),
{
    if ranges.len() == 0 {
        0
    } else {
        containing(ranges.drop_last(), p) + if ranges.last().0 <= p < ranges.last().1 {
            1nat
        } else {
            0nat
        }
    }
}

/// Ranges after ranges contain a primitive as often as both together.
pub proof fn lemma_containing_concat(a: Seq<(usize, usize)>, b: Seq<(usize, usize)>, p: int)
    ensures
        containing(a + b, p) == containing(a, p) + containing(b, p),
    decreases b.len(),
{
    if b.len() == 0 {
        assert(a + b =~= a);
    } else {
        assert((a + b).drop_last() =~= a + b.drop_last());
        assert((a + b).last() == b.last());
        lemma_containing_concat(a, b.drop_last(), p);
    }
}

/// A traversal in which no box is missed tests every primitive of the tree
/// exactly once, and no other: it is an exhaustive scan, whatever the
/// direction of the ray.
pub proof fn lemma_unculled_traversal_is_exhaustive(
    tree: BuildNode,
    base: int,
    first: int,
    hits: Seq<bool>,
    is_neg: [usize; 3],
    p: int,
)
    requires
        tree.covers(first),
        0 <= first,
        first + tree.span() <= usize::MAX,
        0 <= base,
        base + tree.size() <= hits.len(),
        forall|i: int| base <= i < base + tree.size() ==> hits[i],
    ensures
        containing(tree.visit(base, hits, is_neg), p) == if first <= p < first + tree.span() {
            1nat
        } else {
            0nat
        },
    decreases tree,
{
    if tree is Interior {
        let l = tree.left_child();
        let r = tree.right_child();
        lemma_unculled_traversal_is_exhaustive(l, base + 1, first, hits, is_neg, p);
        lemma_unculled_traversal_is_exhaustive(
            r,
            base + 1 + l.size(),
            first + l.span(),
            hits,
            is_neg,
            p,
        );
        lemma_containing_concat(
            r.visit(base + 1 + l.size(), hits, is_neg),
            l.visit(base + 1, hits, is_neg),
            p,
        );
        lemma_containing_concat(
            l.visit(base + 1, hits, is_neg),
            r.visit(base + 1 + l.size(), hits, is_neg),
            p,
        );
    } else {
        let v = tree.visit(base, hits, is_neg);
        assert(v.drop_last() =~= Seq::<(usize, usize)>::empty());
        assert(containing(v.drop_last(), p) == 0);
    }
}

/// The box of every node between the root and the leaf that holds the
/// primitive `p` is hit. The tree's root sits at `base` and its first
/// primitive is `first`.
pub open spec fn path_is_hit(tree: BuildNode, base: int, first: int, hits: Seq<bool>, p: int) -> bool
    decreases tree,
{
    &&& hits[base]
    &&& match tree {
        BuildNode::Leaf { .. } => true,
        BuildNode::Interior { left, right, .. } => {
            if p < first + left.span() {
                path_is_hit(*left, base + 1, first, hits, p)
            } else {
                path_is_hit(*right, base + 1 + left.size(), first + left.span(), hits, p)
            }
        },
    }
}

/// A traversal tests no primitive twice and none outside the tree, whatever
/// boxes are hit.
pub proof fn lemma_traversal_tests_once(
    tree: BuildNode,
    base: int,
    first: int,
    hits: Seq<bool>,
    is_neg: [usize; 3],
    p: int,
)
    requires
        tree.covers(first),
        0 <= first,
        first + tree.span() <= usize::MAX,
    ensures
        containing(tree.visit(base, hits, is_neg), p) <= 1,
        !(first <= p < first + tree.span()) ==> containing(tree.visit(base, hits, is_neg), p) == 0,
    decreases tree,
{
    if !hits[base] {
        assert(tree.visit(base, hits, is_neg) =~= Seq::<(usize, usize)>::empty());
    } else if tree is Interior {
        let l = tree.left_child();
        let r = tree.right_child();
        lemma_traversal_tests_once(l, base + 1, first, hits, is_neg, p);
        lemma_traversal_tests_once(r, base + 1 + l.size(), first + l.span(), hits, is_neg, p);
        lemma_containing_concat(
            r.visit(base + 1 + l.size(), hits, is_neg),
            l.visit(base + 1, hits, is_neg),
            p,
        );
        lemma_containing_concat(
            l.visit(base + 1, hits, is_neg),
            r.visit(base + 1 + l.size(), hits, is_neg),
            p,
        );
    } else {
        let v = tree.visit(base, hits, is_neg);
        assert(v.drop_last() =~= Seq::<(usize, usize)>::empty());
        assert(containing(v.drop_last(), p) == 0);
    }
}

/// A traversal tests every primitive all of whose boxes are hit: culling by
/// boxes that are hit whenever something in them is hit loses no hit, so the
/// traversal finds what an exhaustive scan finds.
pub proof fn lemma_hit_path_is_tested(
    tree: BuildNode,
    base: int,
    first: int,
    hits: Seq<bool>,
    is_neg: [usize; 3],
    p: int,
)
    requires
        tree.covers(first),
        0 <= first,
        first + tree.span() <= usize::MAX,
        first <= p < first + tree.span(),
        path_is_hit(tree, base, first, hits, p),
    ensures
        containing(tree.visit(base, hits, is_neg), p) == 1,
    decreases tree,
{
    if tree is Interior {
        let l = tree.left_child();
        let r = tree.right_child();
        if p < first + l.span() {
            lemma_hit_path_is_tested(l, base + 1, first, hits, is_neg, p);
            lemma_traversal_tests_once(r, base + 1 + l.size(), first + l.span(), hits, is_neg, p);
        } else {
            lemma_hit_path_is_tested(r, base + 1 + l.size(), first + l.span(), hits, is_neg, p);
            lemma_traversal_tests_once(l, base + 1, first, hits, is_neg, p);
        }
        lemma_containing_concat(
            r.visit(base + 1 + l.size(), hits, is_neg),
            l.visit(base + 1, hits, is_neg),
            p,
        );
        lemma_containing_concat(
            l.visit(base + 1, hits, is_neg),
            r.visit(base + 1 + l.size(), hits, is_neg),
            p,
        );
    } else {
        let v = tree.visit(base, hits, is_neg);
        assert(v.drop_last() =~= Seq::<(usize, usize)>::empty());
        assert(containing(v.drop_last(), p) == 0);
    }
}

/// What the layout says of the node at place `idx` of a tree laid out at
/// `base`: it is no placeholder; the children of an interior node are inside
/// the tree and its axis is one of the three; the primitives of a leaf are
/// primitives of the tree.
pub open spec fn node_ok(node: BVHNode, idx: int, end: int, first: int, last: int) -> bool {
    match node {
        BVHNode::Interior { second_child, axis, .. } => idx + 1 < second_child < end && axis < 3,
        BVHNode::Leaf { offset, primitives, .. } => first <= offset && offset + primitives <= last
            && primitives >= 1,
        BVHNode::Placeholder => false,
    }
}

/// Every node of a laid-out tree is well placed.
pub proof fn lemma_node_at(tree: BuildNode, nodes: Seq<BVHNode>, base: int, first: int, idx: int)
    requires
        tree.mirrors(nodes, base),
        tree.covers(first),
        base <= idx < base + tree.size(),
    ensures
        node_ok(nodes[idx], idx, base + tree.size(), first, first + tree.span()),
    decreases tree,
{
    if tree is Interior {
        let l = tree.left_child();
        let r = tree.right_child();
        lemma_size_positive(l);
        lemma_size_positive(r);
        if idx == base {
        } else if idx < base + 1 + l.size() {
            lemma_node_at(l, nodes, base + 1, first, idx);
        } else {
            lemma_node_at(r, nodes, base + 1 + l.size(), first + l.span(), idx);
        }
    }
}

/// A tree has at least one node.
pub proof fn lemma_size_positive(tree: BuildNode)
    ensures
        tree.size() >= 1,
    decreases tree,
{
}

/// The ranges that the subtrees noted for later will give, the one noted
/// last first.
pub open spec fn pending_visit(
    pending: Seq<(BuildNode, int)>,
    hits: Seq<bool>,
    is_neg: [usize; 3],
) -> Seq<(usize, usize)>
    decreases pending.len(),
{
    if pending.len() == 0 {
        Seq::empty()
    } else {
        pending.last().0.visit(pending.last().1, hits, is_neg) + pending_visit(
            pending.drop_last(),
            hits,
            is_neg,
        )
    }
}

/// How many nodes the subtrees noted for later have.
pub open spec fn pending_size(pending: Seq<(BuildNode, int)>) -> nat
    decreases pending.len(),
{
    if pending.len() == 0 {
        0
    } else {
        pending.last().0.size() + pending_size(pending.drop_last())
    }
}

impl BVHAggregate {
    /// The box around everything.
    pub fn world_bounds(&self) -> (r: Bounds3)
        requires
            self.wf(),
            self.primitives@.len() > 0,
        ensures
            r == self.tree@.bounds_spec(),
    {
        proof {
            lemma_size_positive(self.tree@);
            lemma_node_at(self.tree@, self.nodes@, 0, 0, 0);
        }
        self.nodes[0].bounds()
    }

    /// The node whose box a traversal tests first; none in an aggregate
    /// without primitives.
    pub fn root(&self) -> (r: Option<usize>)
        requires
            self.wf(),
        ensures
            (r is None) <==> self.primitives@.len() == 0,
            r matches Some(i) ==> i == 0 && i < self.nodes@.len(),
    {
        proof {
            if self.primitives@.len() > 0 {
                lemma_size_positive(self.tree@);
            }
        }
        if self.nodes.len() == 0 {
            None
        } else {
            Some(0)
        }
    }

    /// One step of the traversal that finds what a ray hits: says what to
    /// do after the box of the node at `curr` was tested with the result
    /// `hit`. `is_neg` holds, for each axis, 1 where the ray runs against
    /// it; `nodes_to_visit` holds the nodes noted for later.
    pub fn intersect(
        &self,
        curr: usize,
        hit: bool,
        is_neg: [usize; 3],
        nodes_to_visit: &mut Vec<usize>,
    ) -> (r: TraversalStep)
        requires
            self.wf(),
            curr < self.nodes@.len(),
        ensures
            (r, final(nodes_to_visit)@) == step_spec(
                self.nodes@[curr as int],
                curr,
                hit,
                is_neg,
                old(nodes_to_visit)@,
            ),
            !(self.nodes@[curr as int] is Placeholder),
            r matches TraversalStep::Leaf { start, end, .. } ==> start < end <= self.primitives@.len(),
            hit ==> (r matches TraversalStep::Descend(n) ==> n < self.nodes@.len()),
    {
        proof {
            lemma_node_at(self.tree@, self.nodes@, 0, 0, curr as int);
        }
        if hit {
            match self.nodes[curr] {
                BVHNode::Interior { axis, second_child, .. } => {
                    let (next, later) = if is_neg[axis as usize] == 1 {
                        (second_child as usize, curr + 1)
                    } else {
                        (curr + 1, second_child as usize)
                    };
                    nodes_to_visit.push(later);
                    TraversalStep::Descend(next)
                },
                BVHNode::Leaf { offset, primitives, .. } => {
                    let start: usize = offset;
                    let end: usize = offset + primitives as usize;
                    let next = nodes_to_visit.pop();
                    TraversalStep::Leaf { start, end, next }
                },
                BVHNode::Placeholder => TraversalStep::Finished,
            }
        } else {
            match nodes_to_visit.pop() {
                Some(next) => TraversalStep::Descend(next),
                None => TraversalStep::Finished,
            }
        }
    }

    /// The ranges of primitives that a traversal tests, in their order,
    /// when the box of node `i` is hit exactly where `hits[i]` says.
    pub fn leaves_hit(&self, is_neg: [usize; 3], hits: &[bool]) -> (r: Vec<(usize, usize)>)
        requires
            self.wf(),
            hits@.len() == self.nodes@.len(),
        ensures
            self.primitives@.len() == 0 ==> r@.len() == 0,
            self.primitives@.len() > 0 ==> r@ == self.tree@.visit(0, hits@, is_neg),
    {
        let mut result: Vec<(usize, usize)> = Vec::new();
        let mut nodes_to_visit: Vec<usize> = Vec::new();
        let mut curr: usize = match self.root() {
            Some(c) => c,
            None => {
                return result;
            },
        };
        let ghost mut at: (BuildNode, int) = (self.tree@, 0);
        let ghost mut pending: Seq<(BuildNode, int)> = Seq::empty();
        let ghost total = self.tree@.visit(0, hits@, is_neg);
        proof {
            assert(result@ + at.0.visit(at.1, hits@, is_neg) + pending_visit(pending, hits@, is_neg)
                =~= total);
        }
        loop
            invariant_except_break
                result@ + at.0.visit(at.1, hits@, is_neg) + pending_visit(pending, hits@, is_neg)
                    == total,
            invariant
                self.wf(),
                self.primitives@.len() > 0,
                hits@.len() == self.nodes@.len(),
                total == self.tree@.visit(0, hits@, is_neg),
                curr == at.1,
                at.0.mirrors(self.nodes@, at.1),
                pending.len() == nodes_to_visit@.len(),
                forall|i: int|
                    0 <= i < pending.len() ==> (#[trigger] pending[i]).1 == nodes_to_visit@[i]
                        && pending[i].0.mirrors(self.nodes@, pending[i].1),
            ensures
                result@ == total,
            decreases at.0.size() + pending_size(pending),
        {
            proof {
                lemma_size_positive(at.0);
            }
            let hit = hits[curr];
            let ghost before = nodes_to_visit@;
            let ghost seen = result@;
            let step = self.intersect(curr, hit, is_neg, &mut nodes_to_visit);
            proof {
                if pending.len() > 0 {
                    assert(pending.drop_last().len() == before.drop_last().len());
                }
            }
            match step {
                TraversalStep::Descend(next) => {
                    proof {
                        if hit {
                            let l = at.0.left_child();
                            let r = at.0.right_child();
                            lemma_size_positive(l);
                            lemma_size_positive(r);
                            let near_first = !(is_neg[at.0->split_axis as int] == 1);
                            let (near, far) = if near_first {
                                ((l, at.1 + 1), (r, at.1 + 1 + l.size()))
                            } else {
                                ((r, at.1 + 1 + l.size()), (l, at.1 + 1))
                            };
                            let grown = pending.push(far);
                            assert(grown.drop_last() =~= pending);
                            assert(pending_visit(grown, hits@, is_neg) == far.0.visit(
                                far.1,
                                hits@,
                                is_neg,
                            ) + pending_visit(pending, hits@, is_neg));
                            assert(seen + near.0.visit(near.1, hits@, is_neg) + pending_visit(
                                grown,
                                hits@,
                                is_neg,
                            ) =~= seen + at.0.visit(at.1, hits@, is_neg) + pending_visit(
                                pending,
                                hits@,
                                is_neg,
                            ));
                            at = near;
                            pending = grown;
                        } else {
                            assert(at.0.visit(at.1, hits@, is_neg) =~= Seq::<(usize, usize)>::empty());
                            let top = pending.last();
                            assert(seen + top.0.visit(top.1, hits@, is_neg) + pending_visit(
                                pending.drop_last(),
                                hits@,
                                is_neg,
                            ) =~= seen + at.0.visit(at.1, hits@, is_neg) + pending_visit(
                                pending,
                                hits@,
                                is_neg,
                            ));
                            at = top;
                            pending = pending.drop_last();
                        }
                    }
                    curr = next;
                },
                TraversalStep::Leaf { start, end, next } => {
                    result.push((start, end));
                    proof {
                        assert(at.0.visit(at.1, hits@, is_neg) =~= seq![(start, end)]);
                    }
                    match next {
                        Some(n) => {
                            proof {
                                let top = pending.last();
                                assert(result@ + top.0.visit(top.1, hits@, is_neg) + pending_visit(
                                    pending.drop_last(),
                                    hits@,
                                    is_neg,
                                ) =~= seen + at.0.visit(at.1, hits@, is_neg) + pending_visit(
                                    pending,
                                    hits@,
                                    is_neg,
                                ));
                                at = top;
                                pending = pending.drop_last();
                            }
                            curr = n;
                        },
                        None => {
                            proof {
                                assert(pending_visit(pending, hits@, is_neg) =~= Seq::<
                                    (usize, usize),
                                >::empty());
                                assert(result@ =~= total);
                            }
                            break;
                        },
                    }
                },
                TraversalStep::Finished => {
                    proof {
                        assert(at.0.visit(at.1, hits@, is_neg) =~= Seq::<(usize, usize)>::empty());
                        assert(pending_visit(pending, hits@, is_neg) =~= Seq::<
                            (usize, usize),
                        >::empty());
                        assert(result@ =~= total);
                    }
                    break;
                },
            }
        }
        result
    }
}

} // verus!
