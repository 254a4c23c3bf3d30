use pbr_kernel::scalar::Scalar;
use pbr_kernel::utils::{next_down, next_up};

fn s(v: f64) -> Scalar {
    Scalar::from_bits(v.to_bits())
}

fn f(v: Scalar) -> f64 {
    f64::from_bits(v.to_bits())
}

const SAMPLES: [f64; 17] = [
    0.0,
    -0.0,
    1.0,
    -1.0,
    0.5,
    -0.5,
    1.5,
    1e-310,
    -1e-310,
    5e-324,
    -5e-324,
    f64::MAX,
    f64::MIN,
    f64::INFINITY,
    f64::NEG_INFINITY,
    f64::NAN,
    3.25,
];

#[test]
fn comparisons_agree_with_the_hardware() {
    for &a in SAMPLES.iter() {
        for &b in SAMPLES.iter() {
            assert_eq!(s(a).lt(s(b)), a < b, "{} < {}", a, b);
            assert_eq!(s(a).le(s(b)), a <= b, "{} <= {}", a, b);
            assert_eq!(s(a).gt(s(b)), a > b, "{} > {}", a, b);
            assert_eq!(s(a).ge(s(b)), a >= b, "{} >= {}", a, b);
            assert_eq!(s(a).equals(s(b)), a == b, "{} == {}", a, b);
        }
    }
}

#[test]
fn classification_agrees_with_the_hardware() {
    for &a in SAMPLES.iter() {
        assert_eq!(s(a).is_nan(), a.is_nan());
        assert_eq!(s(a).is_infinite(), a.is_infinite());
        assert_eq!(s(a).is_sign_negative(), a.is_sign_negative());
        assert_eq!(s(a).is_zero(), a == 0.0);
    }
}

#[test]
fn negation_and_absolute_value_agree_with_the_hardware() {
    for &a in SAMPLES.iter() {
        assert_eq!(s(a).neg().to_bits(), (-a).to_bits());
        assert_eq!(s(a).abs().to_bits(), a.abs().to_bits());
    }
}

#[test]
fn min_and_max_pick_the_ends() {
    for &a in SAMPLES.iter() {
        for &b in SAMPLES.iter() {
            let lo = f(s(a).min(s(b)));
            let hi = f(s(a).max(s(b)));
            if a.is_nan() && b.is_nan() {
                assert!(lo.is_nan() && hi.is_nan());
            } else {
                assert_eq!(lo, a.min(b));
                assert_eq!(hi, a.max(b));
            }
        }
    }
}

#[test]
fn constants_have_their_values() {
    assert_eq!(f(Scalar::one()), 1.0);
    assert_eq!(f(Scalar::zero_value()).to_bits(), 0.0f64.to_bits());
    assert_eq!(f(Scalar::infinity()), f64::INFINITY);
    assert_eq!(f(Scalar::neg_infinity()), f64::NEG_INFINITY);
}

#[test]
fn next_up_steps_one_place() {
    assert_eq!(f(next_up(s(1.0))), 1.0 + f64::EPSILON);
    assert_eq!(f(next_up(s(-1.0))), -1.0 + f64::EPSILON / 2.0);
    assert_eq!(f(next_up(s(f64::MAX))), f64::INFINITY);
    assert_eq!(f(next_up(s(f64::NEG_INFINITY))), f64::MIN);
    assert_eq!(f(next_up(s(f64::INFINITY))), f64::INFINITY);
    assert_eq!(next_up(s(-5e-324)).to_bits(), (-0.0f64).to_bits());
    assert_eq!(f(next_up(s(5e-324))), 1e-323);
}

#[test]
fn next_up_of_zero_is_positive_zero() {
    assert_eq!(next_up(s(0.0)).to_bits(), 0);
    assert_eq!(next_up(s(-0.0)).to_bits(), 0);
}

#[test]
fn next_down_steps_one_place() {
    assert_eq!(f(next_down(s(1.0))), 1.0 - f64::EPSILON / 2.0);
    assert_eq!(f(next_down(s(-1.0))), -1.0 - f64::EPSILON);
    assert_eq!(f(next_down(s(f64::MIN))), f64::NEG_INFINITY);
    assert_eq!(f(next_down(s(f64::INFINITY))), f64::MAX);
    assert_eq!(f(next_down(s(f64::NEG_INFINITY))), f64::NEG_INFINITY);
    assert_eq!(next_down(s(5e-324)).to_bits(), 0);
}

#[test]
fn next_down_of_zero_is_negative_zero() {
    assert_eq!(next_down(s(0.0)).to_bits(), (-0.0f64).to_bits());
    assert_eq!(next_down(s(-0.0)).to_bits(), (-0.0f64).to_bits());
}

#[test]
fn steps_undo_each_other() {
    for &a in [1.0, -1.0, 3.25, 1e300, -1e-300].iter() {
        assert_eq!(f(next_down(next_up(s(a)))), a);
        assert_eq!(f(next_up(next_down(s(a)))), a);
        assert!(f(next_up(s(a))) > a);
        assert!(f(next_down(s(a))) < a);
    }
}

#[test]
fn whole_numbers_convert_exactly() {
    let mut n: u32 = 0;
    loop {
        assert_eq!(Scalar::from_u32(n).to_bits(), (n as f64).to_bits(), "{}", n);
        if n > u32::MAX - 104_729 {
            break;
        }
        n += 104_729;
    }
    for k in 0..32 {
        let p: u32 = 1 << k;
        for n in [p - 1, p, p + 1, p | (p >> 1), p | 1] {
            assert_eq!(Scalar::from_u32(n).to_bits(), (n as f64).to_bits(), "{}", n);
        }
    }
    assert_eq!(f(Scalar::from_u32(u32::MAX)), 4294967295.0);
    assert_eq!(Scalar::from_u32(0).to_bits(), 0);
    assert_eq!(f(Scalar::from_u32(1)), 1.0);
    assert_eq!(f(Scalar::from_u32(3)), 3.0);
}
