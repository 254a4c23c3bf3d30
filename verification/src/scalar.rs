//! IEEE-754 binary64 values held by their bit patterns.
//!
//! The order of two non-NaN doubles is the order of their signed magnitudes,
//! so every comparison is integer reasoning on the pattern.
use vstd::prelude::*;
use vstd::arithmetic::power2::{
    lemma2_to64,
    lemma2_to64_rest,
    lemma_pow2_adds,
    lemma_pow2_pos,
    lemma_pow2_strictly_increases,
    lemma_pow2_unfold,
    pow2,
};
use vstd::arithmetic::div_mod::lemma_div_denominator;

verus! {

/// The sign bit of a binary64 pattern.
pub const SIGN_BIT: u64 = 0x8000_0000_0000_0000;

/// The pattern of positive infinity; every larger magnitude is a NaN.
pub const INFINITY_BITS: u64 = 0x7ff0_0000_0000_0000;

/// The pattern of negative infinity.
pub const NEG_INFINITY_BITS: u64 = 0xfff0_0000_0000_0000;

/// The pattern of `1.0`.
pub const ONE_BITS: u64 = 0x3ff0_0000_0000_0000;

/// The pattern of `2^52`, the weight of the lowest exponent bit.
pub const EXPONENT_UNIT: u64 = 0x0010_0000_0000_0000;

/// The exponent of the power of two at or below `n`: its place of the
/// highest set bit.
pub open spec fn top_bit(n: nat) -> nat
    decreases n,
{
    if n <= 1 {
        0
    } else {
        1 + top_bit(n / 2)
    }
}

/// An IEEE-754 binary64 value, held by its bit pattern.
#[derive(Clone, Copy, Debug)]
pub struct Scalar {
    pub bits: u64,
}

impl Default for Scalar {
    /// Positive zero.
    fn default() -> (r: Self)
        ensures
            r.bits == 0,
    {
        Scalar { bits: 0 }
    }
}

impl Scalar {
    /// The value with the given pattern.
    pub open spec fn of(bits: u64) -> Scalar {
        Scalar { bits }
    }

    /// Positive zero.
    pub open spec fn zero_spec() -> Scalar {
        Scalar { bits: 0 }
    }

    /// `1.0`.
    pub open spec fn one_spec() -> Scalar {
        Scalar { bits: ONE_BITS }
    }

    /// The value equal to the whole number `n`: for `n = 2^k + m` with
    /// `m < 2^k` the biased exponent is `1023 + k` and the fraction is `m`
    /// moved up to the top of its 52 bits. Every such number is
    /// representable, so nothing is rounded.
    pub open spec fn from_u32_spec(n: u32) -> Scalar {
        if n == 0 {
            Scalar { bits: 0 }
        } else {
            let k = top_bit(n as nat);
            Scalar {
                bits: ((1023 + k) * pow2(52) + (n - pow2(k)) * pow2((52 - k) as nat)) as u64,
            }
        }
    }

    /// The pattern without its sign bit.
    pub open spec fn magnitude(self) -> int {
        if self.bits >= SIGN_BIT {
            self.bits - SIGN_BIT
        } else {
            self.bits as int
        }
    }

    /// Whether the sign bit is set (true of `-0.0` and of some NaNs too).
    pub open spec fn sign_negative(self) -> bool {
        self.bits >= SIGN_BIT
    }

    pub open spec fn nan(self) -> bool {
        self.magnitude() > INFINITY_BITS
    }

    pub open spec fn infinite(self) -> bool {
        self.magnitude() == INFINITY_BITS
    }

    pub open spec fn zero(self) -> bool {
        self.magnitude() == 0
    }

    /// The position of a non-NaN value on the number line: both zeros are at
    /// 0, and a larger rank is a larger number.
    pub open spec fn rank(self) -> int {
        if self.sign_negative() {
            -self.magnitude()
        } else {
            self.magnitude()
        }
    }

    /// `self < other` as IEEE-754 orders them: false when either is a NaN.
    pub open spec fn lt_spec(self, other: Scalar) -> bool {
        !self.nan() && !other.nan() && self.rank() < other.rank()
    }

    /// `self <= other` as IEEE-754 orders them.
    pub open spec fn le_spec(self, other: Scalar) -> bool {
        !self.nan() && !other.nan() && self.rank() <= other.rank()
    }

    /// `self == other` as IEEE-754 compares them: the zeros are equal, a NaN
    /// equals nothing.
    pub open spec fn eq_spec(self, other: Scalar) -> bool {
        !self.nan() && !other.nan() && self.rank() == other.rank()
    }

    /// The value with its sign bit flipped.
    pub open spec fn neg_spec(self) -> Scalar {
        if self.bits >= SIGN_BIT {
            Scalar { bits: (self.bits - SIGN_BIT) as u64 }
        } else {
            Scalar { bits: (self.bits + SIGN_BIT) as u64 }
        }
    }

    /// The value with its sign bit cleared.
    pub open spec fn abs_spec(self) -> Scalar {
        Scalar { bits: self.magnitude() as u64 }
    }

    /// The smaller of the two; the other one where one is a NaN.
    pub open spec fn min_spec(self, other: Scalar) -> Scalar {
        if other.nan() || self.lt_spec(other) {
            self
        } else {
            other
        }
    }

    /// The larger of the two; the other one where one is a NaN.
    pub open spec fn max_spec(self, other: Scalar) -> Scalar {
        if other.nan() || other.lt_spec(self) {
            self
        } else {
            other
        }
    }

    pub fn from_bits(bits: u64) -> (r: Scalar)
        ensures
            r == Scalar::of(bits),
    {
        Scalar { bits }
    }

    pub fn to_bits(self) -> (r: u64)
        ensures
            r == self.bits,
    {
        self.bits
    }

    /// Positive zero.
    pub fn zero_value() -> (r: Scalar)
        ensures
            r.bits == 0,
    {
        Scalar { bits: 0 }
    }

    /// `1.0`.
    pub fn one() -> (r: Scalar)
        ensures
            r.bits == ONE_BITS,
    {
        Scalar { bits: ONE_BITS }
    }

    /// Positive infinity.
    pub fn infinity() -> (r: Scalar)
        ensures
            r.bits == INFINITY_BITS,
    {
        Scalar { bits: INFINITY_BITS }
    }

    /// Negative infinity.
    pub fn neg_infinity() -> (r: Scalar)
        ensures
            r.bits == NEG_INFINITY_BITS,
    {
        Scalar { bits: NEG_INFINITY_BITS }
    }

    /// The value of a whole number.
    pub fn from_u32(n: u32) -> (r: Scalar)
        ensures
            r == Scalar::from_u32_spec(n),
            !r.nan(),
            !r.sign_negative(),
    {
        if n == 0 {
            return Scalar { bits: 0 };
        }
        proof {
            lemma2_to64();
            lemma2_to64_rest();
        }
        // The power of two at or below n
        let mut k: u64 = 0;
        let mut top: u64 = 1;
        while top * 2 <= n as u64
            invariant
                k <= 31,
                top == pow2(k as nat),
                1 <= top <= n,
                top_bit(n as nat) == k + top_bit((n as nat) / (top as nat)),
            decreases n - top,
        {
            proof {
                lemma_pow2_unfold((k + 1) as nat);
                lemma_div_denominator(n as int, top as int, 2);
                assert((n as nat) / (top as nat) >= 2) by (nonlinear_arith)
                    requires
                        top * 2 <= n,
                        top >= 1,
                ;
                if k == 31 {
                    lemma2_to64();
                    assert(pow2(32) == 0x1_0000_0000);
                }
            }
            top = top * 2;
            k = k + 1;
        }
        proof {
            assert((n as nat) / (top as nat) == 1) by (nonlinear_arith)
                requires
                    top <= n < top * 2,
                    top >= 1,
            ;
        }
        // What n is above that power, moved to the top of the fraction
        let mut scale: u64 = 1;
        let mut j: u64 = 0;
        while j < 52 - k
            invariant
                k <= 31,
                j <= 52 - k,
                scale == pow2(j as nat),
                scale <= EXPONENT_UNIT,
            decreases 52 - k - j,
        {
            proof {
                lemma_pow2_unfold((j + 1) as nat);
                lemma2_to64_rest();
                if j + 1 < 52 {
                    lemma_pow2_strictly_increases((j + 1) as nat, 52);
                }
            }
            scale = scale * 2;
            j = j + 1;
        }
        proof {
            lemma_pow2_adds(k as nat, (52 - k) as nat);
            assert((n - top) * scale < top * scale) by (nonlinear_arith)
                requires
                    n - top < top,
                    scale >= 1,
            ;
        }
        let fraction: u64 = (n as u64 - top) * scale;
        Scalar { bits: (1023 + k) * EXPONENT_UNIT + fraction }
    }

    fn magnitude_bits(self) -> (r: u64)
        ensures
            r == self.magnitude(),
    {
        if self.bits >= SIGN_BIT {
            self.bits - SIGN_BIT
        } else {
            self.bits
        }
    }

    pub fn is_sign_negative(self) -> (r: bool)
        ensures
            r == self.sign_negative(),
    {
        self.bits >= SIGN_BIT
    }

    pub fn is_nan(self) -> (r: bool)
        ensures
            r == self.nan(),
    {
        self.magnitude_bits() > INFINITY_BITS
    }

    pub fn is_infinite(self) -> (r: bool)
        ensures
            r == self.infinite(),
    {
        self.magnitude_bits() == INFINITY_BITS
    }

    pub fn is_zero(self) -> (r: bool)
        ensures
            r == self.zero(),
    {
        self.magnitude_bits() == 0
    }

    pub fn lt(self, other: Scalar) -> (r: bool)
        ensures
            r == self.lt_spec(other),
    {
        if self.is_nan() || other.is_nan() {
            false
        } else if self.is_sign_negative() {
            if other.is_sign_negative() {
                self.bits > other.bits
            } else {
                self.magnitude_bits() != 0 || other.bits != 0
            }
        } else {
            !other.is_sign_negative() && self.bits < other.bits
        }
    }

    pub fn gt(self, other: Scalar) -> (r: bool)
        ensures
            r == other.lt_spec(self),
    {
        other.lt(self)
    }

    pub fn le(self, other: Scalar) -> (r: bool)
        ensures
            r == self.le_spec(other),
    {
        if self.is_nan() || other.is_nan() {
            false
        } else {
            !other.lt(self)
        }
    }

    pub fn ge(self, other: Scalar) -> (r: bool)
        ensures
            r == other.le_spec(self),
    {
        other.le(self)
    }

    /// IEEE-754 equality (not identity of patterns).
    pub fn equals(self, other: Scalar) -> (r: bool)
        ensures
            r == self.eq_spec(other),
    {
        if self.is_nan() || other.is_nan() {
            false
        } else {
            self.bits == other.bits || (self.magnitude_bits() == 0 && other.magnitude_bits() == 0)
        }
    }

    pub fn neg(self) -> (r: Scalar)
        ensures
            r == self.neg_spec(),
    {
        if self.bits >= SIGN_BIT {
            Scalar { bits: self.bits - SIGN_BIT }
        } else {
            Scalar { bits: self.bits + SIGN_BIT }
        }
    }

    pub fn abs(self) -> (r: Scalar)
        ensures
            r == self.abs_spec(),
    {
        Scalar { bits: self.magnitude_bits() }
    }

    pub fn min(self, other: Scalar) -> (r: Scalar)
        ensures
            r == self.min_spec(other),
    {
        if other.is_nan() || self.lt(other) {
            self
        } else {
            other
        }
    }

    pub fn max(self, other: Scalar) -> (r: Scalar)
        ensures
            r == self.max_spec(other),
    {
        if other.is_nan() || other.lt(self) {
            self
        } else {
            other
        }
    }
}

/// The power of two named by `top_bit` is the one at or below the number.
pub proof fn lemma_top_bit_bounds(n: nat)
    requires
        n >= 1,
    ensures
        pow2(top_bit(n)) <= n < 2 * pow2(top_bit(n)),
    decreases n,
{
    lemma2_to64();
    if n > 1 {
        lemma_top_bit_bounds(n / 2);
        lemma_pow2_unfold(top_bit(n));
    }
}

/// A larger number has no lower top bit.
pub proof fn lemma_top_bit_grows(n: nat, m: nat)
    requires
        1 <= n <= m,
    ensures
        top_bit(n) <= top_bit(m),
    decreases m,
{
    if n > 1 {
        lemma_top_bit_grows(n / 2, m / 2);
    }
}

/// Whole numbers keep their order and their value when they are converted:
/// zero is positive zero, one is `1.0`, and a larger number is a larger
/// value.
pub proof fn lemma_from_u32_is_monotone(n: u32, m: u32)
    requires
        n < m,
    ensures
        Scalar::from_u32_spec(n).lt_spec(Scalar::from_u32_spec(m)),
        Scalar::from_u32_spec(0) == Scalar::zero_spec(),
        Scalar::from_u32_spec(1) == Scalar::one_spec(),
{
    lemma2_to64();
    lemma2_to64_rest();
    assert(top_bit(1) == 0);
    let km = top_bit(m as nat);
    lemma_top_bit_bounds(m as nat);
    lemma_top_bit_grows(1, m as nat);
    // a number below 2^32 has its top bit below 32
    if km > 32 {
        lemma_pow2_strictly_increases(32, km);
    }
    assert(km < 32);
    lemma_pow2_adds(km, (52 - km) as nat);
    lemma_pow2_pos((52 - km) as nat);
    let scale_m = pow2((52 - km) as nat);
    let fraction_m = (m - pow2(km)) * scale_m;
    assert(0 <= fraction_m < pow2(52)) by (nonlinear_arith)
        requires
            0 <= m - pow2(km) < pow2(km),
            pow2(km) * scale_m == pow2(52),
            scale_m > 0,
            fraction_m == (m - pow2(km)) * scale_m,
    ;
    if n > 0 {
        let kn = top_bit(n as nat);
        lemma_top_bit_bounds(n as nat);
        lemma_top_bit_grows(n as nat, m as nat);
        lemma_pow2_adds(kn, (52 - kn) as nat);
        lemma_pow2_pos((52 - kn) as nat);
        let scale_n = pow2((52 - kn) as nat);
        let fraction_n = (n - pow2(kn)) * scale_n;
        assert(0 <= fraction_n < pow2(52)) by (nonlinear_arith)
            requires
                0 <= n - pow2(kn) < pow2(kn),
                pow2(kn) * scale_n == pow2(52),
                scale_n > 0,
                fraction_n == (n - pow2(kn)) * scale_n,
        ;
        if kn == km {
            assert(fraction_n < fraction_m) by (nonlinear_arith)
                requires
                    n < m,
                    scale_n == scale_m,
                    scale_n > 0,
                    fraction_n == (n - pow2(kn)) * scale_n,
                    fraction_m == (m - pow2(kn)) * scale_m,
            ;
        } else {
            assert((1023 + kn) * pow2(52) + pow2(52) <= (1023 + km) * pow2(52)) by (nonlinear_arith)
                requires
                    kn < km,
            ;
        }
    }
    assert((1023 + km) * pow2(52) + fraction_m < 1056 * pow2(52)) by (nonlinear_arith)
        requires
            km < 32,
            0 <= fraction_m < pow2(52),
    ;
}

/// Negation mirrors the number line and keeps NaN-ness.
pub proof fn lemma_neg_rank(v: Scalar)
    ensures
        v.neg_spec().magnitude() == v.magnitude(),
        v.neg_spec().nan() == v.nan(),
        v.neg_spec().rank() == -v.rank(),
        v.neg_spec().neg_spec() == v,
{
}

/// The absolute value is never below zero and keeps the distance from it.
pub proof fn lemma_abs_rank(v: Scalar)
    ensures
        v.abs_spec().nan() == v.nan(),
        v.abs_spec().rank() == v.magnitude(),
        v.abs_spec().rank() >= 0,
        !v.abs_spec().sign_negative(),
{
}

/// On numbers `<` is a strict order and `<=` the order with equality: no
/// number is below itself, the order is transitive, and `a <= b` holds
/// exactly when `a < b` or `a == b`. A NaN is in no relation to anything.
pub proof fn lemma_order_laws(a: Scalar, b: Scalar, c: Scalar)
    ensures
        !a.lt_spec(a),
        a.lt_spec(b) && b.lt_spec(c) ==> a.lt_spec(c),
        a.le_spec(b) && b.le_spec(c) ==> a.le_spec(c),
        a.le_spec(b) <==> a.lt_spec(b) || a.eq_spec(b),
        a.lt_spec(b) ==> !b.lt_spec(a) && !a.eq_spec(b),
        a.nan() ==> !a.lt_spec(b) && !b.lt_spec(a) && !a.le_spec(b) && !a.eq_spec(a),
        a.eq_spec(b) <==> a.le_spec(b) && b.le_spec(a),
{
}

/// Among non-NaN values the order is total, and `min`/`max` pick its ends.
pub proof fn lemma_min_max(a: Scalar, b: Scalar)
    requires
        !a.nan(),
        !b.nan(),
    ensures
        a.lt_spec(b) || a.eq_spec(b) || b.lt_spec(a),
        a.min_spec(b).le_spec(a),
        a.min_spec(b).le_spec(b),
        a.le_spec(a.max_spec(b)),
        b.le_spec(a.max_spec(b)),
        a.min_spec(b) == a || a.min_spec(b) == b,
        a.max_spec(b) == a || a.max_spec(b) == b,
{
}

} // verus!
