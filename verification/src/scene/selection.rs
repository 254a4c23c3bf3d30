//! Ordering primitives by the centres of their boxes.
use vstd::prelude::*;
use std::cmp::Ordering;
use crate::scene::arrangement::{centroid_key, rearranged};
use crate::scene::primitive::PrimitiveInfo;

verus! {

/// The order of two primitives along an axis, by the centres of their
/// boxes.
pub fn compare_centroids(a: &PrimitiveInfo, b: &PrimitiveInfo, axis: u8) -> (r: Ordering)
    ensures
        centroid_key(*a, axis).lt_spec(centroid_key(*b, axis)) ==> r == Ordering::Less,
        centroid_key(*b, axis).lt_spec(centroid_key(*a, axis)) ==> r == Ordering::Greater,
        !centroid_key(*a, axis).lt_spec(centroid_key(*b, axis)) && !centroid_key(*b, axis).lt_spec(
            centroid_key(*a, axis),
        ) ==> r == Ordering::Equal,
{
    let axis = if axis < 3 {
        axis
    } else {
        2
    };
    let x = *a.centroid.index(axis);
    let y = *b.centroid.index(axis);
    if x.lt(y) {
        Ordering::Less
    } else if y.lt(x) {
        Ordering::Greater
    } else {
        Ordering::Equal
    }
}

/// `<[T]>::select_nth_unstable_by` on the seats `[start, end)`, ordered by
/// the centres along `axis`: rearranges those seats so that the seat `nth`
/// places after `start` holds what a sort would put there, nothing before
/// it is larger and nothing after it smaller. Which of several possible
/// arrangements results is not said.
#[verifier::external_body]
pub(crate) fn select_nth_centroid(
    info: &mut Vec<PrimitiveInfo>,
    start: usize,
    end: usize,
    nth: usize,
    axis: u8,
)
    requires
        start <= end <= old(info)@.len(),
        nth < end - start,
        axis < 3,
        forall|i: int| start <= i < end ==> !centroid_key(#[trigger] old(info)@[i], axis).nan(),
    ensures
        rearranged(old(info)@, final(info)@, start, end),
        forall|i: int|
            start <= i < start + nth ==> centroid_key(#[trigger] final(info)@[i], axis).le_spec(
                centroid_key(final(info)@[start + nth], axis),
            ),
        forall|i: int|
            start + nth < i < end ==> centroid_key(final(info)@[start + nth], axis).le_spec(
                centroid_key(#[trigger] final(info)@[i], axis),
            ),
{
    info[start..end].select_nth_unstable_by(nth, |a, b| compare_centroids(a, b, axis));
}

} // verus!
