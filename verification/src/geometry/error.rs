//! Values that carry a conservative interval around them.
use vstd::prelude::*;
use crate::scalar::Scalar;

verus! {

/// A value with an interval `[low, high]` that is meant to hold what exact
/// arithmetic would have given.
#[derive(Clone, Copy, Debug, Default)]
pub struct ErrorFloat {
    pub value: Scalar,
    pub low: Scalar,
    pub high: Scalar,
}

impl ErrorFloat {
    /// The interval holds its value: `low <= value <= high`, none a NaN.
    pub open spec fn wf(self) -> bool {
        self.low.le_spec(self.value) && self.value.le_spec(self.high)
    }

    pub open spec fn neg_spec(self) -> Self {
        ErrorFloat {
            value: self.value.neg_spec(),
            low: self.high.neg_spec(),
            high: self.low.neg_spec(),
        }
    }

    /// The interval of the absolute values of the interval's numbers.
    pub open spec fn abs_spec(self) -> Self {
        let zero = Scalar { bits: 0 };
        if zero.le_spec(self.low) {
            self
        } else if self.high.le_spec(zero) {
            self.neg_spec()
        } else {
            ErrorFloat {
                value: self.value.abs_spec(),
                low: zero,
                high: self.high.max_spec(self.low.neg_spec()),
            }
        }
    }

    /// A value with the interval around it. Where `error` is zero the
    /// interval is the value alone; otherwise it is `[low, high]`, which the
    /// caller computed as `value - error` and `value + error`, each rounded
    /// one step outward.
    pub fn new(value: Scalar, error: Scalar, low: Scalar, high: Scalar) -> (r: Self)
        ensures
            r.value == value,
            error.zero() ==> r.low == value && r.high == value,
            !error.zero() ==> r.low == low && r.high == high,
            !value.nan() && (error.zero() || (low.le_spec(value) && value.le_spec(high)))
                ==> r.wf(),
    {
        if error.equals(Scalar::zero_value()) {
            ErrorFloat { value, low: value, high: value }
        } else {
            ErrorFloat { value, low, high }
        }
    }

    /// The value without error.
    pub fn from(value: Scalar) -> (r: Self)
        ensures
            r.value == value,
            r.low == value,
            r.high == value,
            !value.nan() ==> r.wf(),
    {
        ErrorFloat { value, low: value, high: value }
    }

    /// The central value.
    pub fn into(self) -> (r: Scalar)
        ensures
            r == self.value,
    {
        self.value
    }

    /// The opposite value; the interval is mirrored with it.
    pub fn neg(self) -> (r: Self)
        ensures
            r == self.neg_spec(),
            self.wf() ==> r.wf(),
    {
        ErrorFloat { value: self.value.neg(), low: self.high.neg(), high: self.low.neg() }
    }

    /// The absolute value: an interval on one side of zero is kept or
    /// mirrored, one that straddles zero becomes `[0, max(high, -low)]`.
    pub fn abs(&self) -> (r: Self)
        ensures
            r == self.abs_spec(),
            self.wf() ==> r.wf(),
            self.wf() ==> Scalar::zero_spec().le_spec(r.low),
    {
        let zero = Scalar::zero_value();
        if self.low.ge(zero) {
            *self
        } else if self.high.le(zero) {
            self.neg()
        } else {
            ErrorFloat {
                value: self.value.abs(),
                low: zero,
                high: self.high.max(self.low.neg()),
            }
        }
    }

    /// Whether zero lies strictly inside the interval, so that a quotient by
    /// it is unbounded.
    pub fn straddles_zero(&self) -> (r: bool)
        ensures
            r == (self.low.lt_spec(Scalar::zero_spec()) && Scalar::zero_spec().lt_spec(self.high)),
    {
        let zero = Scalar::zero_value();
        self.low.lt(zero) && self.high.gt(zero)
    }

    /// The least and the greatest of the four products or quotients of the
    /// ends of two intervals: the ends of the interval of their product or
    /// quotient, before they are rounded outward.
    pub fn extremes(ends: [Scalar; 4]) -> (r: (Scalar, Scalar))
        ensures
            r.0 == ends[0].min_spec(ends[1]).min_spec(ends[2]).min_spec(ends[3]),
            r.1 == ends[0].max_spec(ends[1]).max_spec(ends[2]).max_spec(ends[3]),
            !ends[0].nan() && !ends[1].nan() && !ends[2].nan() && !ends[3].nan() ==> {
                &&& r.0.le_spec(ends[0]) && r.0.le_spec(ends[1]) && r.0.le_spec(ends[2])
                    && r.0.le_spec(ends[3])
                &&& ends[0].le_spec(r.1) && ends[1].le_spec(r.1) && ends[2].le_spec(r.1)
                    && ends[3].le_spec(r.1)
            },
    {
        let min = ends[0].min(ends[1]).min(ends[2]).min(ends[3]);
        let max = ends[0].max(ends[1]).max(ends[2]).max(ends[3]);
        (min, max)
    }

    /// Two values are equal where their central values are, as numbers.
    pub fn eq(&self, other: &Self) -> (r: bool)
        ensures
            r == self.value.eq_spec(other.value),
    {
        self.value.equals(other.value)
    }

    /// The end of solving `a t^2 + b t + c = 0`: no root where the
    /// discriminant is negative, else the two candidate roots with the one
    /// of smaller value first.
    pub fn qudratic(discriminant: Scalar, first: ErrorFloat, second: ErrorFloat) -> (r: Option<
        (ErrorFloat, ErrorFloat),
    >)
        ensures
            discriminant.lt_spec(Scalar::zero_spec()) <==> (r is None),
            r matches Some(roots) ==> {
                if first.value.le_spec(second.value) {
                    roots == (first, second)
                } else {
                    roots == (second, first)
                }
            },
            r matches Some(roots) ==> (!first.value.nan() && !second.value.nan()
                ==> roots.0.value.le_spec(roots.1.value)),
    {
        if discriminant.lt(Scalar::zero_value()) {
            return None;
        }
        if first.value.le(second.value) {
            Some((first, second))
        } else {
            Some((second, first))
        }
    }
}

} // verus!
