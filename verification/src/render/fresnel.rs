//! The kinds of boundary at which light is partly reflected.
use vstd::prelude::*;
use crate::scalar::{Scalar, ONE_BITS, SIGN_BIT};
use crate::render::spectrum::Spectrum;

verus! {

#[derive(Clone, Copy, Debug)]
pub enum Fresnel {
    /// A metal: complex index of refraction, per channel.
    Conductor { eta_parallel: Spectrum, eta_perpendicular: Spectrum, absorption: Spectrum },
    /// A dielectric between two real indices of refraction.
    Dialectric { eta_parallel: Scalar, eta_perpendicular: Scalar },
    /// Everything is reflected.
    NoOp,
}

/// `v` held to `[-1, 1]`; a NaN stays a NaN.
pub open spec fn clamped_cosine(v: Scalar) -> Scalar {
    let one = Scalar { bits: ONE_BITS };
    let minus_one = Scalar { bits: (ONE_BITS + SIGN_BIT) as u64 };
    if v.lt_spec(minus_one) {
        minus_one
    } else if one.lt_spec(v) {
        one
    } else {
        v
    }
}

/// What the dielectric reflectance formula is evaluated on: the cosine of
/// the angle of incidence, made non-negative, then the index on the side the
/// light comes from and the index on the other side. Light with a negative
/// cosine comes from the second side, so the indices change places.
pub open spec fn dielectric_setup_spec(cos_incident: Scalar, eta_1: Scalar, eta_2: Scalar) -> (
    Scalar,
    Scalar,
    Scalar,
) {
    let c = clamped_cosine(cos_incident);
    if c.lt_spec(Scalar::zero_spec()) {
        (c.abs_spec(), eta_2, eta_1)
    } else {
        (c, eta_1, eta_2)
    }
}

impl Fresnel {
    /// Prepares the evaluation of the dielectric reflectance: clamps the
    /// cosine and orders the two indices by the side the light is on.
    pub fn dielectric_setup(cos_incident: Scalar, eta_1: Scalar, eta_2: Scalar) -> (r: (
        Scalar,
        Scalar,
        Scalar,
    ))
        ensures
            r == dielectric_setup_spec(cos_incident, eta_1, eta_2),
    {
        let one = Scalar::one();
        let minus_one = one.neg();
        let c = if cos_incident.lt(minus_one) {
            minus_one
        } else if cos_incident.gt(one) {
            one
        } else {
            cos_incident
        };
        if c.lt(Scalar::zero_value()) {
            (c.abs(), eta_2, eta_1)
        } else {
            (c, eta_1, eta_2)
        }
    }
}

/// Reciprocity of the dielectric boundary: seen from the other side, with
/// the cosine negated and the indices named the other way round, the
/// reflectance formula is evaluated on the very same numbers, so the
/// reflectance is the same. (At a cosine of zero the indices are not
/// exchanged.)
pub proof fn lemma_dielectric_is_reciprocal(cos_incident: Scalar, eta_1: Scalar, eta_2: Scalar)
    requires
        !cos_incident.nan(),
        !cos_incident.zero(),
    ensures
        dielectric_setup_spec(cos_incident, eta_1, eta_2) == dielectric_setup_spec(
            cos_incident.neg_spec(),
            eta_2,
            eta_1,
        ),
{
}

} // verus!
