//! The numbers that the bit patterns denote.
//!
//! A finite binary64 value is a whole multiple of `2^-1074`, so its
//! `2^1074`-fold is a whole number. The order of the patterns is the order of
//! these numbers.
use vstd::prelude::*;
use vstd::arithmetic::power2::{
    lemma2_to64,
    lemma2_to64_rest,
    lemma_pow2_adds,
    lemma_pow2_pos,
    lemma_pow2_strictly_increases,
    lemma_pow2_unfold,
    pow2,
};
use crate::scalar::{
    lemma_top_bit_bounds,
    lemma_top_bit_grows,
    top_bit,
    Scalar,
    EXPONENT_UNIT,
    ONE_BITS,
};

verus! {

/// The biased exponent of a magnitude: its bits above the lowest 52.
pub open spec fn exponent_field(magnitude: nat) -> nat {
    magnitude / (EXPONENT_UNIT as nat)
}

/// The fraction of a magnitude: its lowest 52 bits.
pub open spec fn fraction_field(magnitude: nat) -> nat {
    magnitude % (EXPONENT_UNIT as nat)
}

/// The absolute value that a finite magnitude denotes, times `2^1074`: the
/// fraction itself for a subnormal number, and for a normal number with
/// biased exponent `e` the fraction with its hidden bit, `2^52 + f`, times
/// `2^(e - 1)`. The magnitude of infinity gets a number beyond those of all
/// finite magnitudes.
pub open spec fn scaled_magnitude(magnitude: nat) -> nat {
    let e = exponent_field(magnitude);
    let f = fraction_field(magnitude);
    if e == 0 {
        f
    } else {
        ((EXPONENT_UNIT + f) * pow2((e - 1) as nat)) as nat
    }
}

impl Scalar {
    /// The value of a finite pattern, times `2^1074`.
    pub open spec fn scaled(self) -> int {
        if self.sign_negative() {
            -(scaled_magnitude(self.magnitude() as nat) as int)
        } else {
            scaled_magnitude(self.magnitude() as nat) as int
        }
    }
}

/// A larger magnitude denotes a larger absolute value.
pub proof fn lemma_scaled_magnitude_grows(a: nat, b: nat)
    requires
        a < b,
    ensures
        scaled_magnitude(a) < scaled_magnitude(b),
{
    let unit = EXPONENT_UNIT as int;
    let ea = exponent_field(a);
    let fa = fraction_field(a);
    let eb = exponent_field(b);
    let fb = fraction_field(b);
    assert(a == ea * unit + fa && 0 <= fa < unit);
    assert(b == eb * unit + fb && 0 <= fb < unit);
    assert(ea <= eb);
    if ea == eb {
        if ea > 0 {
            let p = pow2((ea - 1) as nat);
            lemma_pow2_pos((ea - 1) as nat);
            assert((unit + fa) * p < (unit + fb) * p) by (nonlinear_arith)
                requires
                    fa < fb,
                    p > 0,
            ;
        }
    } else {
        let pb = pow2((eb - 1) as nat);
        lemma_pow2_pos((eb - 1) as nat);
        assert(unit * pb <= (unit + fb) * pb) by (nonlinear_arith)
            requires
                0 <= fb,
                pb > 0,
        ;
        if ea == 0 {
            assert(unit <= unit * pb) by (nonlinear_arith)
                requires
                    pb >= 1,
                    unit > 0,
            ;
        } else {
            let pa = pow2((ea - 1) as nat);
            lemma_pow2_pos((ea - 1) as nat);
            lemma_pow2_unfold(ea);
            if ea < eb - 1 {
                lemma_pow2_strictly_increases(ea, (eb - 1) as nat);
            }
            assert((unit + fa) * pa < unit * pb) by (nonlinear_arith)
                requires
                    0 <= fa < unit,
                    pa > 0,
                    2 * pa <= pb,
            ;
        }
    }
}

/// Zero is the only magnitude that denotes zero.
pub proof fn lemma_scaled_magnitude_of_zero(a: nat)
    ensures
        scaled_magnitude(0) == 0,
        a > 0 ==> scaled_magnitude(a) > 0,
{
    if a > 0 {
        lemma_scaled_magnitude_grows(0, a);
    }
}

/// The order of the patterns is the order of the numbers they denote:
/// among values that are no NaN, `a < b`, `a <= b` and `a == b` hold exactly
/// when they hold of the numbers.
pub proof fn lemma_order_is_the_order_of_values(a: Scalar, b: Scalar)
    requires
        !a.nan(),
        !b.nan(),
    ensures
        a.lt_spec(b) <==> a.scaled() < b.scaled(),
        a.le_spec(b) <==> a.scaled() <= b.scaled(),
        a.eq_spec(b) <==> a.scaled() == b.scaled(),
{
    let ma = a.magnitude() as nat;
    let mb = b.magnitude() as nat;
    lemma_scaled_magnitude_of_zero(ma);
    lemma_scaled_magnitude_of_zero(mb);
    if ma < mb {
        lemma_scaled_magnitude_grows(ma, mb);
    } else if mb < ma {
        lemma_scaled_magnitude_grows(mb, ma);
    }
}

/// Negation negates the number and the absolute value is its absolute
/// value.
pub proof fn lemma_sign_of_values(v: Scalar)
    ensures
        v.neg_spec().scaled() == -v.scaled(),
        v.abs_spec().scaled() == if v.scaled() < 0 {
            -v.scaled()
        } else {
            v.scaled()
        },
{
}

/// Positive zero denotes zero and `1.0` denotes one.
pub proof fn lemma_zero_and_one()
    ensures
        Scalar::zero_spec().scaled() == 0,
        Scalar::one_spec().scaled() == pow2(1074),
{
    lemma2_to64_rest();
    assert(exponent_field(ONE_BITS as nat) == 1023);
    assert(fraction_field(ONE_BITS as nat) == 0);
    lemma_pow2_adds(52, 1022);
}

/// A whole number converts to the value that denotes it.
pub proof fn lemma_whole_numbers_have_their_value(n: u32)
    ensures
        Scalar::from_u32_spec(n).scaled() == n * pow2(1074),
{
    lemma2_to64();
    lemma2_to64_rest();
    if n > 0 {
        let k = top_bit(n as nat);
        lemma_top_bit_bounds(n as nat);
        lemma_top_bit_grows(1, n as nat);
        if k > 32 {
            lemma_pow2_strictly_increases(32, k);
        }
        assert(k < 32);
        let unit = EXPONENT_UNIT as int;
        let top = pow2(k) as int;
        let scale = pow2((52 - k) as nat) as int;
        lemma_pow2_adds(k, (52 - k) as nat);
        lemma_pow2_pos((52 - k) as nat);
        let f = (n - top) * scale;
        assert(0 <= f < unit) by (nonlinear_arith)
            requires
                0 <= n - top < top,
                top * scale == unit,
                scale > 0,
                f == (n - top) * scale,
        ;
        let bits = (1023 + k) * unit + f;
        assert(0 <= bits < 1056 * unit);
        let v = Scalar::from_u32_spec(n);
        assert(v.bits == bits);
        assert(exponent_field(bits as nat) == 1023 + k);
        assert(fraction_field(bits as nat) == f);
        let high = pow2((1022 + k) as nat) as int;
        lemma_pow2_adds((52 - k) as nat, (1022 + k) as nat);
        assert(unit + f == n * scale) by (nonlinear_arith)
            requires
                top * scale == unit,
                f == (n - top) * scale,
        ;
        assert((unit + f) * high == n * pow2(1074)) by (nonlinear_arith)
            requires
                unit + f == n * scale,
                scale * high == pow2(1074),
        ;
    }
}

} // verus!
