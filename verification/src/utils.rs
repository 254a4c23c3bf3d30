//! Stepping to the neighbouring representable value, and sharing.
use vstd::prelude::*;
use std::sync::Arc;
use crate::scalar::{Scalar, INFINITY_BITS, NEG_INFINITY_BITS, SIGN_BIT};

verus! {

/// The value one step above `v`: the next pattern away from zero for a
/// positive number, the next pattern towards zero for a negative one.
/// Positive infinity stays where it is and either zero gives positive zero.
/// A NaN is not a number to step from; its pattern is decremented.
pub open spec fn next_up_spec(v: Scalar) -> Scalar {
    if v.bits == INFINITY_BITS {
        v
    } else if v.zero() {
        Scalar { bits: 0 }
    } else if !v.nan() && !v.sign_negative() {
        Scalar { bits: (v.bits + 1) as u64 }
    } else {
        Scalar { bits: (v.bits - 1) as u64 }
    }
}

/// The value one step below `v`. Negative infinity stays where it is and
/// either zero gives negative zero. A NaN is not a number to step from; its
/// pattern is incremented, and the all-ones pattern wraps to positive zero.
pub open spec fn next_down_spec(v: Scalar) -> Scalar {
    if v.bits == NEG_INFINITY_BITS {
        v
    } else if v.zero() {
        Scalar { bits: SIGN_BIT }
    } else if !v.nan() && !v.sign_negative() {
        Scalar { bits: (v.bits - 1) as u64 }
    } else if v.bits == u64::MAX {
        Scalar { bits: 0 }
    } else {
        Scalar { bits: (v.bits + 1) as u64 }
    }
}

pub fn next_up(v: Scalar) -> (r: Scalar)
    ensures
        r == next_up_spec(v),
{
    if v.is_infinite() && !v.is_sign_negative() {
        v
    } else if v.is_zero() {
        Scalar::zero_value()
    } else if !v.is_nan() && !v.is_sign_negative() {
        Scalar::from_bits(v.to_bits() + 1)
    } else {
        Scalar::from_bits(v.to_bits() - 1)
    }
}

pub fn next_down(v: Scalar) -> (r: Scalar)
    ensures
        r == next_down_spec(v),
{
    if v.is_infinite() && v.is_sign_negative() {
        v
    } else if v.is_zero() {
        Scalar::from_bits(SIGN_BIT)
    } else if !v.is_nan() && !v.is_sign_negative() {
        Scalar::from_bits(v.to_bits() - 1)
    } else if v.to_bits() == u64::MAX {
        Scalar::zero_value()
    } else {
        Scalar::from_bits(v.to_bits() + 1)
    }
}

/// From any number but zero and positive infinity, `next_up` moves exactly
/// one place up the number line, to a number of the same sign bit: nothing
/// representable lies between the two.
pub proof fn lemma_next_up_is_successor(v: Scalar)
    requires
        !v.nan(),
        !v.zero(),
        v.bits != INFINITY_BITS,
    ensures
        !next_up_spec(v).nan(),
        next_up_spec(v).rank() == v.rank() + 1,
        next_up_spec(v).sign_negative() == v.sign_negative(),
        v.lt_spec(next_up_spec(v)),
{
}

/// From any number but zero and negative infinity, `next_down` moves exactly
/// one place down the number line, to a number of the same sign bit.
pub proof fn lemma_next_down_is_predecessor(v: Scalar)
    requires
        !v.nan(),
        !v.zero(),
        v.bits != NEG_INFINITY_BITS,
    ensures
        !next_down_spec(v).nan(),
        next_down_spec(v).rank() == v.rank() - 1,
        next_down_spec(v).sign_negative() == v.sign_negative(),
        next_down_spec(v).lt_spec(v),
{
}

/// Nothing lies between a number and its neighbours: every value above `v`
/// is at or above `next_up(v)`, and every value below `v` is at or below
/// `next_down(v)`.
pub proof fn lemma_steps_are_nearest(v: Scalar, w: Scalar)
    requires
        !v.nan(),
        !v.zero(),
    ensures
        v.bits != INFINITY_BITS && v.lt_spec(w) ==> next_up_spec(v).le_spec(w),
        v.bits != NEG_INFINITY_BITS && w.lt_spec(v) ==> w.le_spec(next_down_spec(v)),
{
}

/// Stepping never passes a neighbour: for numbers, the result of `next_up`
/// is not below its argument and that of `next_down` not above it.
pub proof fn lemma_steps_are_monotone(v: Scalar)
    requires
        !v.nan(),
    ensures
        v.le_spec(next_up_spec(v)),
        next_down_spec(v).le_spec(v),
{
}

/// Away from zero and the infinities the two steps undo each other.
pub proof fn lemma_steps_round_trip(v: Scalar)
    requires
        !v.nan(),
        !v.infinite(),
        !v.zero(),
        !next_up_spec(v).zero(),
        !next_down_spec(v).zero(),
    ensures
        next_down_spec(next_up_spec(v)) == v,
        next_up_spec(next_down_spec(v)) == v,
{
}

/// `Arc::clone`: another pointer to the same allocation, so to the same
/// value.
#[verifier::external_body]
pub(crate) fn share<T>(pointer: &Arc<T>) -> (r: Arc<T>)
    ensures
        r == *pointer,
{
    pointer.clone()
}

} // verus!
