//! The nearest hit of a ray in the hierarchy of boxes.
//!
//! The search tests boxes and primitives against a ray that grows shorter
//! with every hit. The two tests are the caller's; what is shown here is
//! that the search returns the nearest hit of all primitives whenever the
//! box test never rejects a box with a hit inside the ray's extent.
use vstd::prelude::*;
use crate::scalar::{lemma_min_max, lemma_order_laws, Scalar};
use crate::scene::primitive::{BVHAggregate, BuildNode, PrimitiveList};
use crate::scene::traversal::{lemma_size_positive, TraversalStep};

verus! {

/// What a test under the limit `t` reports of a primitive that the ray meets
/// at the distance `d`, or not at all: the hit, unless it lies beyond `t`.
pub open spec fn within(d: Option<Scalar>, t: Scalar) -> Option<Scalar> {
    match d {
        Some(x) => if x.le_spec(t) {
            d
        } else {
            None
        },
        None => None,
    }
}

/// Every distance is a number and not beyond `limit`.
pub open spec fn bounded(distances: Seq<Option<Scalar>>, limit: Scalar) -> bool {
    forall|p: int|
        0 <= p < distances.len() && (#[trigger] distances[p]) is Some ==> !distances[p].unwrap().nan()
            && distances[p].unwrap().le_spec(limit)
}

/// `primitive_test` reports the hits that `distances` holds: under any limit
/// up to `limit` it answers, for the primitive `p`, with `distances[p]`
/// unless that lies beyond the limit it was asked under.
pub open spec fn reports<P: Fn(usize, Scalar) -> Option<Scalar>>(
    primitive_test: P,
    distances: Seq<Option<Scalar>>,
    limit: Scalar,
) -> bool {
    &&& bounded(distances, limit)
    &&& forall|p: usize, t: Scalar, r: Option<Scalar>|
        p < distances.len() && t.le_spec(limit) && #[trigger] call_ensures(primitive_test, (p, t), r)
            ==> r == within(distances[p as int], t)
}

impl BuildNode {
    /// The box test loses no hit below this node: it rejects neither the
    /// node, which sits at `base` and whose first primitive is `first`, nor
    /// a node below it, under a limit within which one of the node's
    /// primitives is hit.
    pub open spec fn kept<B: Fn(usize, Scalar) -> bool>(
        self,
        box_test: B,
        distances: Seq<Option<Scalar>>,
        base: int,
        first: int,
    ) -> bool
        decreases self,
    {
        &&& forall|t: Scalar, p: int|
            #![trigger call_ensures(box_test, (base as usize, t), false), distances[p]]
            first <= p < first + self.span() && 0 <= p < distances.len() && distances[p] is Some
                && distances[p].unwrap().le_spec(t) ==> !call_ensures(
                box_test,
                (base as usize, t),
                false,
            )
        &&& match self {
            BuildNode::Leaf { .. } => true,
            BuildNode::Interior { left, right, .. } => {
                &&& left.kept(box_test, distances, base + 1, first)
                &&& right.kept(box_test, distances, base + 1 + left.size(), first + left.span())
            },
        }
    }
}

/// `found` is a nearest hit: the place and the distance of a primitive that
/// is hit, with no primitive hit strictly nearer; or nothing, where no
/// primitive is hit.
pub open spec fn nearest(distances: Seq<Option<Scalar>>, found: Option<(usize, Scalar)>) -> bool {
    match found {
        Some((w, d)) => {
            &&& w < distances.len()
            &&& distances[w as int] == Some(d)
            &&& forall|p: int|
                0 <= p < distances.len() && (#[trigger] distances[p]) is Some
                    ==> !distances[p].unwrap().lt_spec(d)
        },
        None => forall|p: int| 0 <= p < distances.len() ==> distances[p] is None,
    }
}

/// The primitive `p` is below one of the subtrees noted for later. Each is
/// noted with the place of its root and with its first primitive.
pub open spec fn waiting(pending: Seq<(BuildNode, int, int)>, p: int) -> bool {
    exists|i: int|
        0 <= i < pending.len() && (#[trigger] pending[i]).2 <= p < pending[i].2 + pending[i].0.span()
}

/// How many nodes the subtrees noted for later have.
pub open spec fn waiting_nodes(pending: Seq<(BuildNode, int, int)>) -> nat
    decreases pending.len(),
{
    if pending.len() == 0 {
        0
    } else {
        pending.last().0.size() + waiting_nodes(pending.drop_last())
    }
}

/// Where a search stands: `best` is a nearest hit among the primitives that
/// are neither in `[lo, hi)` nor below a subtree noted for later, `limit` is
/// its distance, or the ray's own limit `limit0` before the first hit, and
/// the box test loses no hit below the subtrees noted for later.
pub open spec fn decided<B: Fn(usize, Scalar) -> bool>(
    distances: Seq<Option<Scalar>>,
    box_test: B,
    limit0: Scalar,
    best: Option<(usize, Scalar)>,
    limit: Scalar,
    lo: int,
    hi: int,
    pending: Seq<(BuildNode, int, int)>,
) -> bool {
    &&& limit == match best {
        Some((_, d)) => d,
        None => limit0,
    }
    &&& best matches Some((w, d)) ==> w < distances.len() && distances[w as int] == Some(d)
    &&& forall|p: int|
        0 <= p < distances.len() && (#[trigger] distances[p]) is Some && !(lo <= p < hi) && !waiting(
            pending,
            p,
        ) ==> best is Some && !distances[p].unwrap().lt_spec(limit)
    &&& forall|i: int|
        0 <= i < pending.len() ==> (#[trigger] pending[i]).0.kept(
            box_test,
            distances,
            pending[i].1,
            pending[i].2,
        )
}

/// A node whose box the ray misses within its limit holds no hit that is
/// nearer than the best one.
pub proof fn lemma_missed_box_holds_nothing_nearer<B: Fn(usize, Scalar) -> bool>(
    distances: Seq<Option<Scalar>>,
    box_test: B,
    limit0: Scalar,
    best: Option<(usize, Scalar)>,
    limit: Scalar,
    node: BuildNode,
    base: int,
    first: int,
    pending: Seq<(BuildNode, int, int)>,
)
    requires
        bounded(distances, limit0),
        !limit0.nan(),
        decided(distances, box_test, limit0, best, limit, first, first + node.span(), pending),
        node.kept(box_test, distances, base, first),
        call_ensures(box_test, (base as usize, limit), false),
    ensures
        decided(distances, box_test, limit0, best, limit, first, first, pending),
{
    assert forall|p: int|
        0 <= p < distances.len() && (#[trigger] distances[p]) is Some && !(first <= p < first)
            && !waiting(pending, p) implies best is Some && !distances[p].unwrap().lt_spec(limit) by {
        if first <= p < first + node.span() {
            let e = distances[p].unwrap();
            assert(!e.le_spec(limit));
            lemma_order_laws(e, limit, limit0);
            lemma_min_max(e, limit);
        }
    }
}

/// With nothing left of the current node, the search goes on with the
/// subtree noted last.
pub proof fn lemma_next_subtree<B: Fn(usize, Scalar) -> bool>(
    distances: Seq<Option<Scalar>>,
    box_test: B,
    limit0: Scalar,
    best: Option<(usize, Scalar)>,
    limit: Scalar,
    done: int,
    pending: Seq<(BuildNode, int, int)>,
)
    requires
        pending.len() > 0,
        decided(distances, box_test, limit0, best, limit, done, done, pending),
    ensures
        decided(
            distances,
            box_test,
            limit0,
            best,
            limit,
            pending.last().2,
            pending.last().2 + pending.last().0.span(),
            pending.drop_last(),
        ),
        pending.last().0.kept(box_test, distances, pending.last().1, pending.last().2),
{
    let top = pending.last();
    let rest = pending.drop_last();
    assert forall|p: int|
        0 <= p < distances.len() && (#[trigger] distances[p]) is Some && !(top.2 <= p < top.2
            + top.0.span()) && !waiting(rest, p) implies best is Some && !distances[p].unwrap().lt_spec(
        limit,
    ) by {
        if waiting(pending, p) {
            let i = choose|i: int|
                0 <= i < pending.len() && (#[trigger] pending[i]).2 <= p < pending[i].2
                    + pending[i].0.span();
            assert(rest[i] == pending[i]);
        }
    }
    assert forall|i: int| 0 <= i < rest.len() implies (#[trigger] rest[i]).0.kept(
        box_test,
        distances,
        rest[i].1,
        rest[i].2,
    ) by {
        assert(rest[i] == pending[i]);
    }
}

/// Below an interior node the search goes on with one child and notes the
/// other for later.
pub proof fn lemma_descend<B: Fn(usize, Scalar) -> bool>(
    distances: Seq<Option<Scalar>>,
    box_test: B,
    limit0: Scalar,
    best: Option<(usize, Scalar)>,
    limit: Scalar,
    node: BuildNode,
    base: int,
    first: int,
    left_first: bool,
    pending: Seq<(BuildNode, int, int)>,
)
    requires
        node is Interior,
        decided(distances, box_test, limit0, best, limit, first, first + node.span(), pending),
        node.kept(box_test, distances, base, first),
    ensures
        ({
            let l = (node.left_child(), base + 1, first);
            let r = (
                node.right_child(),
                base + 1 + node.left_child().size(),
                first + node.left_child().span(),
            );
            let (near, far) = if left_first {
                (l, r)
            } else {
                (r, l)
            };
            &&& decided(
                distances,
                box_test,
                limit0,
                best,
                limit,
                near.2,
                near.2 + near.0.span(),
                pending.push(far),
            )
            &&& near.0.kept(box_test, distances, near.1, near.2)
        }),
{
    let l = (node.left_child(), base + 1, first);
    let r = (node.right_child(), base + 1 + node.left_child().size(), first + node.left_child().span());
    let (near, far) = if left_first {
        (l, r)
    } else {
        (r, l)
    };
    let grown = pending.push(far);
    assert(node.span() == l.0.span() + r.0.span());
    assert forall|p: int|
        0 <= p < distances.len() && (#[trigger] distances[p]) is Some && !(near.2 <= p < near.2
            + near.0.span()) && !waiting(grown, p) implies best is Some && !distances[p].unwrap().lt_spec(
        limit,
    ) by {
        if far.2 <= p < far.2 + far.0.span() {
            assert(grown[pending.len() as int] == far);
            assert(waiting(grown, p));
        }
        if waiting(pending, p) {
            let i = choose|i: int|
                0 <= i < pending.len() && (#[trigger] pending[i]).2 <= p < pending[i].2
                    + pending[i].0.span();
            assert(grown[i] == pending[i]);
            assert(waiting(grown, p));
        }
    }
    assert forall|i: int| 0 <= i < grown.len() implies (#[trigger] grown[i]).0.kept(
        box_test,
        distances,
        grown[i].1,
        grown[i].2,
    ) by {
        if i < pending.len() {
            assert(grown[i] == pending[i]);
        }
    }
}

/// After the primitive `k` was tested under the limit, the best hit is the
/// nearest among one primitive more.
pub proof fn lemma_primitive_tested<B: Fn(usize, Scalar) -> bool>(
    distances: Seq<Option<Scalar>>,
    box_test: B,
    limit0: Scalar,
    best: Option<(usize, Scalar)>,
    limit: Scalar,
    k: usize,
    end: int,
    pending: Seq<(BuildNode, int, int)>,
    answer: Option<Scalar>,
)
    requires
        bounded(distances, limit0),
        !limit0.nan(),
        k < end <= distances.len(),
        decided(distances, box_test, limit0, best, limit, k as int, end, pending),
        answer == within(distances[k as int], limit),
    ensures
        decided(
            distances,
            box_test,
            limit0,
            match answer {
                Some(d) => Some((k, d)),
                None => best,
            },
            match answer {
                Some(d) => d,
                None => limit,
            },
            k + 1,
            end,
            pending,
        ),
{
    let new_best = match answer {
        Some(d) => Some((k, d)),
        None => best,
    };
    let new_limit = match answer {
        Some(d) => d,
        None => limit,
    };
    assert forall|p: int|
        0 <= p < distances.len() && (#[trigger] distances[p]) is Some && !(k + 1 <= p < end)
            && !waiting(pending, p) implies new_best is Some && !distances[p].unwrap().lt_spec(
        new_limit,
    ) by {
        let e = distances[p].unwrap();
        lemma_order_laws(e, new_limit, limit);
        lemma_order_laws(e, limit, limit0);
        if p == k {
            if answer is None {
                lemma_min_max(e, limit);
            }
        }
    }
}

/// When nothing is left to search, the best hit is a nearest hit of all.
pub proof fn lemma_search_is_over<B: Fn(usize, Scalar) -> bool>(
    distances: Seq<Option<Scalar>>,
    box_test: B,
    limit0: Scalar,
    best: Option<(usize, Scalar)>,
    limit: Scalar,
    done: int,
)
    requires
        decided(distances, box_test, limit0, best, limit, done, done, Seq::empty()),
    ensures
        nearest(distances, best),
{
    assert forall|p: int| 0 <= p < distances.len() && (#[trigger] distances[p]) is Some implies best
        is Some && !distances[p].unwrap().lt_spec(limit) by {
        assert(!waiting(Seq::<(BuildNode, int, int)>::empty(), p));
    }
}

/// A box test that rejects nothing loses no hit: with it the search is an
/// exhaustive scan.
pub proof fn lemma_nothing_rejected_keeps_all<B: Fn(usize, Scalar) -> bool>(
    node: BuildNode,
    box_test: B,
    distances: Seq<Option<Scalar>>,
    base: int,
    first: int,
)
    requires
        forall|i: usize, t: Scalar| !call_ensures(box_test, (i, t), false),
    ensures
        node.kept(box_test, distances, base, first),
    decreases node,
{
    if node is Interior {
        let l = node.left_child();
        let r = node.right_child();
        lemma_nothing_rejected_keeps_all(l, box_test, distances, base + 1, first);
        lemma_nothing_rejected_keeps_all(r, box_test, distances, base + 1 + l.size(), first + l.span());
    }
}

/// The hierarchy finds what the exhaustive scan finds. Where the scan of a
/// list and the search of a hierarchy run over the same hits, in whatever
/// order the hierarchy holds them, either both find nothing or both find a
/// hit, and at the same distance.
pub proof fn lemma_hierarchy_finds_what_the_scan_finds(
    listed: Seq<Option<Scalar>>,
    arranged: Seq<Option<Scalar>>,
    found: Option<(usize, Scalar)>,
)
    requires
        PrimitiveList::along_a_ray(listed),
        arranged.to_multiset() == listed.to_multiset(),
        nearest(arranged, found),
    ensures
        (found is None) <==> (PrimitiveList::closest_spec(listed, listed.len() as int) is None),
        found matches Some((_, d)) ==> PrimitiveList::closest_spec(listed, listed.len() as int)
            matches Some(w) && listed[w] matches Some(e) && e.eq_spec(d),
{
    broadcast use vstd::multiset::group_multiset_axioms;

    PrimitiveList::lemma_closest_is_first_nearest(listed, listed.len() as int);
    listed.to_multiset_ensures();
    arranged.to_multiset_ensures();
    let scanned = PrimitiveList::closest_spec(listed, listed.len() as int);
    match found {
        Some((v, d)) => {
            // the hit that the search found is one of the list's
            assert(arranged.contains(arranged[v as int]));
            assert(arranged.to_multiset().count(Some(d)) > 0);
            assert(listed.to_multiset().count(Some(d)) > 0);
            assert(listed.contains(Some(d)));
            let j = choose|j: int| 0 <= j < listed.len() && listed[j] == Some(d);
            assert(listed[j] is Some);
            let w = scanned.unwrap();
            let e = listed[w].unwrap();
            // and the hit that the scan found is one of the hierarchy's
            assert(listed.contains(listed[w]));
            assert(listed.to_multiset().count(Some(e)) > 0);
            assert(arranged.to_multiset().count(Some(e)) > 0);
            assert(arranged.contains(Some(e)));
            let i = choose|i: int| 0 <= i < arranged.len() && arranged[i] == Some(e);
            assert(arranged[i] is Some);
            assert(!d.lt_spec(e));
            assert(!e.lt_spec(d));
            lemma_min_max(d, e);
        },
        None => {
            if let Some(w) = scanned {
                assert(listed.contains(listed[w]));
                assert(listed.to_multiset().count(listed[w]) > 0);
                assert(arranged.to_multiset().count(listed[w]) > 0);
                assert(arranged.contains(listed[w]));
                let i = choose|i: int| 0 <= i < arranged.len() && arranged[i] == listed[w];
                assert(arranged[i] is None);
            }
        },
    }
}

impl BVHAggregate {
    /// The two tests answer for the ray whose hits are `distances`: the
    /// primitive test reports them, and the box test loses none of them.
    pub open spec fn observes<B: Fn(usize, Scalar) -> bool, P: Fn(usize, Scalar) -> Option<Scalar>>(
        &self,
        distances: Seq<Option<Scalar>>,
        limit: Scalar,
        box_test: B,
        primitive_test: P,
    ) -> bool {
        &&& distances.len() == self.primitives@.len()
        &&& reports(primitive_test, distances, limit)
        &&& self.primitives@.len() > 0 ==> self.tree@.kept(box_test, distances, 0, 0)
    }

    /// The nearest hit of a ray with the primitives of the hierarchy: the
    /// place of the primitive and the distance of the hit. `box_test` says
    /// whether the ray meets the box of a node within a limit, and
    /// `primitive_test` where it meets a primitive within a limit, if it
    /// does; `time_max` is the ray's own limit, and `is_neg` holds, for each
    /// axis, 1 where the ray runs against it. Every hit shortens the limit
    /// for the tests that follow. Whatever hits the two tests answer for,
    /// the result is a nearest one of them.
    pub fn nearest_hit<B, P>(
        &self,
        is_neg: [usize; 3],
        time_max: Scalar,
        box_test: B,
        primitive_test: P,
    ) -> (r: Option<(usize, Scalar)>) where
        B: Fn(usize, Scalar) -> bool,
        P: Fn(usize, Scalar) -> Option<Scalar>,

        requires
            self.wf(),
            !time_max.nan(),
            forall|i: usize, t: Scalar| call_requires(box_test, (i, t)),
            forall|p: usize, t: Scalar| call_requires(primitive_test, (p, t)),
        ensures
            forall|distances: Seq<Option<Scalar>>| #[trigger]
                self.observes(distances, time_max, box_test, primitive_test) ==> nearest(distances, r),
            self.primitives@.len() == 0 ==> r is None,
            r matches Some((w, _)) ==> w < self.primitives@.len(),
    {
        let mut best: Option<(usize, Scalar)> = None;
        let mut limit = time_max;
        let mut nodes_to_visit: Vec<usize> = Vec::new();
        let mut curr: usize = match self.root() {
            Some(c) => c,
            None => {
                return None;
            },
        };
        let ghost mut at: (BuildNode, int, int) = (self.tree@, 0, 0);
        let ghost mut pending: Seq<(BuildNode, int, int)> = Seq::empty();
        proof {
            assert forall|distances: Seq<Option<Scalar>>| #[trigger]
                self.observes(distances, time_max, box_test, primitive_test) implies decided(
                distances,
                box_test,
                time_max,
                best,
                limit,
                at.2,
                at.2 + at.0.span(),
                pending,
            ) && at.0.kept(box_test, distances, at.1, at.2) by {}
        }
        loop
            invariant_except_break
                forall|distances: Seq<Option<Scalar>>| #[trigger]
                    self.observes(distances, time_max, box_test, primitive_test) ==> decided(
                        distances,
                        box_test,
                        time_max,
                        best,
                        limit,
                        at.2,
                        at.2 + at.0.span(),
                        pending,
                    ) && at.0.kept(box_test, distances, at.1, at.2),
            invariant
                self.wf(),
                self.primitives@.len() > 0,
                !time_max.nan(),
                forall|i: usize, t: Scalar| call_requires(box_test, (i, t)),
                forall|p: usize, t: Scalar| call_requires(primitive_test, (p, t)),
                best matches Some((w, _)) ==> w < self.primitives@.len(),
                curr == at.1,
                at.0.mirrors(self.nodes@, at.1),
                at.0.covers(at.2),
                0 <= at.2,
                at.2 + at.0.span() <= self.primitives@.len(),
                pending.len() == nodes_to_visit@.len(),
                forall|i: int|
                    0 <= i < pending.len() ==> {
                        &&& (#[trigger] pending[i]).1 == nodes_to_visit@[i]
                        &&& pending[i].0.mirrors(self.nodes@, pending[i].1)
                        &&& pending[i].0.covers(pending[i].2)
                        &&& 0 <= pending[i].2
                        &&& pending[i].2 + pending[i].0.span() <= self.primitives@.len()
                    },
            ensures
                forall|distances: Seq<Option<Scalar>>| #[trigger]
                    self.observes(distances, time_max, box_test, primitive_test) ==> nearest(
                        distances,
                        best,
                    ),
            decreases at.0.size() + waiting_nodes(pending),
        {
            proof {
                lemma_size_positive(at.0);
            }
            let hit = box_test(curr, limit);
            let ghost before = nodes_to_visit@;
            let ghost was_at = at;
            let ghost was_pending = pending;
            let step = self.intersect(curr, hit, is_neg, &mut nodes_to_visit);
            proof {
                if pending.len() > 0 {
                    assert(pending.drop_last().len() == before.drop_last().len());
                }
            }
            match step {
                TraversalStep::Descend(next) => {
                    proof {
                        if hit {
                            let l = at.0.left_child();
                            let r = at.0.right_child();
                            lemma_size_positive(l);
                            lemma_size_positive(r);
                            let left_first = !(is_neg[at.0->split_axis as int] == 1);
                            let (near, far) = if left_first {
                                ((l, at.1 + 1, at.2), (r, at.1 + 1 + l.size(), at.2 + l.span()))
                            } else {
                                ((r, at.1 + 1 + l.size(), at.2 + l.span()), (l, at.1 + 1, at.2))
                            };
                            let grown = pending.push(far);
                            assert(grown.drop_last() =~= pending);
                            assert forall|distances: Seq<Option<Scalar>>| #[trigger]
                                self.observes(
                                    distances,
                                    time_max,
                                    box_test,
                                    primitive_test,
                                ) implies decided(
                                distances,
                                box_test,
                                time_max,
                                best,
                                limit,
                                near.2,
                                near.2 + near.0.span(),
                                grown,
                            ) && near.0.kept(box_test, distances, near.1, near.2) by {
                                lemma_descend(
                                    distances,
                                    box_test,
                                    time_max,
                                    best,
                                    limit,
                                    was_at.0,
                                    was_at.1,
                                    was_at.2,
                                    left_first,
                                    was_pending,
                                );
                            }
                            at = near;
                            pending = grown;
                        } else {
                            let top = pending.last();
                            assert forall|distances: Seq<Option<Scalar>>| #[trigger]
                                self.observes(
                                    distances,
                                    time_max,
                                    box_test,
                                    primitive_test,
                                ) implies decided(
                                distances,
                                box_test,
                                time_max,
                                best,
                                limit,
                                top.2,
                                top.2 + top.0.span(),
                                was_pending.drop_last(),
                            ) && top.0.kept(box_test, distances, top.1, top.2) by {
                                lemma_missed_box_holds_nothing_nearer(
                                    distances,
                                    box_test,
                                    time_max,
                                    best,
                                    limit,
                                    was_at.0,
                                    was_at.1,
                                    was_at.2,
                                    was_pending,
                                );
                                lemma_next_subtree(
                                    distances,
                                    box_test,
                                    time_max,
                                    best,
                                    limit,
                                    was_at.2,
                                    was_pending,
                                );
                            }
                            at = top;
                            pending = pending.drop_last();
                        }
                    }
                    curr = next;
                },
                TraversalStep::Leaf { start, end, next } => {
                    let mut k: usize = start;
                    while k < end
                        invariant
                            start <= k <= end <= self.primitives@.len(),
                            !time_max.nan(),
                            forall|p: usize, t: Scalar| call_requires(primitive_test, (p, t)),
                            best matches Some((w, _)) ==> w < self.primitives@.len(),
                            forall|distances: Seq<Option<Scalar>>| #[trigger]
                                self.observes(distances, time_max, box_test, primitive_test) ==> decided(
                                    distances,
                                    box_test,
                                    time_max,
                                    best,
                                    limit,
                                    k as int,
                                    end as int,
                                    was_pending,
                                ),
                        decreases end - k,
                    {
                        let ghost was_best = best;
                        let ghost was_limit = limit;
                        let answer = primitive_test(k, limit);
                        match answer {
                            Some(d) => {
                                best = Some((k, d));
                                limit = d;
                            },
                            None => {},
                        }
                        proof {
                            assert forall|distances: Seq<Option<Scalar>>| #[trigger]
                                self.observes(
                                    distances,
                                    time_max,
                                    box_test,
                                    primitive_test,
                                ) implies decided(
                                distances,
                                box_test,
                                time_max,
                                best,
                                limit,
                                k + 1,
                                end as int,
                                was_pending,
                            ) by {
                                assert(decided(
                                    distances,
                                    box_test,
                                    time_max,
                                    was_best,
                                    was_limit,
                                    k as int,
                                    end as int,
                                    was_pending,
                                ));
                                lemma_order_laws(was_limit, time_max, time_max);
                                assert(was_limit.le_spec(time_max));
                                lemma_primitive_tested(
                                    distances,
                                    box_test,
                                    time_max,
                                    was_best,
                                    was_limit,
                                    k,
                                    end as int,
                                    was_pending,
                                    answer,
                                );
                            }
                        }
                        k += 1;
                    }
                    match next {
                        Some(n) => {
                            proof {
                                let top = was_pending.last();
                                assert forall|distances: Seq<Option<Scalar>>| #[trigger]
                                    self.observes(
                                        distances,
                                        time_max,
                                        box_test,
                                        primitive_test,
                                    ) implies decided(
                                    distances,
                                    box_test,
                                    time_max,
                                    best,
                                    limit,
                                    top.2,
                                    top.2 + top.0.span(),
                                    was_pending.drop_last(),
                                ) && top.0.kept(box_test, distances, top.1, top.2) by {
                                    lemma_next_subtree(
                                        distances,
                                        box_test,
                                        time_max,
                                        best,
                                        limit,
                                        end as int,
                                        was_pending,
                                    );
                                }
                                at = top;
                                pending = was_pending.drop_last();
                            }
                            curr = n;
                        },
                        None => {
                            proof {
                                assert(was_pending =~= Seq::<(BuildNode, int, int)>::empty());
                                assert forall|distances: Seq<Option<Scalar>>| #[trigger]
                                    self.observes(
                                        distances,
                                        time_max,
                                        box_test,
                                        primitive_test,
                                    ) implies nearest(distances, best) by {
                                    lemma_search_is_over(
                                        distances,
                                        box_test,
                                        time_max,
                                        best,
                                        limit,
                                        end as int,
                                    );
                                }
                            }
                            break;
                        },
                    }
                },
                TraversalStep::Finished => {
                    proof {
                        assert(was_pending =~= Seq::<(BuildNode, int, int)>::empty());
                        assert forall|distances: Seq<Option<Scalar>>| #[trigger]
                            self.observes(
                                distances,
                                time_max,
                                box_test,
                                primitive_test,
                            ) implies nearest(distances, best) by {
                            lemma_missed_box_holds_nothing_nearer(
                                distances,
                                box_test,
                                time_max,
                                best,
                                limit,
                                was_at.0,
                                was_at.1,
                                was_at.2,
                                was_pending,
                            );
                            lemma_search_is_over(
                                distances,
                                box_test,
                                time_max,
                                best,
                                limit,
                                was_at.2,
                            );
                        }
                    }
                    break;
                },
            }
        }
        best
    }
}

} // verus!
