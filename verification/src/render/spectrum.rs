//! Tristimulus colour.
use vstd::prelude::*;
use crate::scalar::{Scalar, ONE_BITS};

verus! {

/// An RGB triple.
#[derive(Clone, Copy, Debug)]
pub struct Spectrum {
    pub r: Scalar,
    pub g: Scalar,
    pub b: Scalar,
}

/// What can be wrong with a computed radiance.
#[derive(Clone, Copy, Debug, PartialEq, Eq, Structural)]
pub enum RadianceProblems {
    HasNaNs,
    NegativeLuminance,
    InfiniteLuminance,
}

impl Default for Spectrum {
    /// Black, the colour every accumulation starts from.
    fn default() -> (r: Self)
        ensures
            r == Self::black_spec(),
    {
        Spectrum::black()
    }
}

impl Spectrum {
    pub open spec fn greyscale_spec(f: Scalar) -> Spectrum {
        Spectrum { r: f, g: f, b: f }
    }

    pub open spec fn black_spec() -> Spectrum {
        Self::greyscale_spec(Scalar::zero_spec())
    }

    pub open spec fn white_spec() -> Spectrum {
        Self::greyscale_spec(Scalar { bits: ONE_BITS })
    }

    /// Every channel is zero (of either sign).
    pub open spec fn black_channels(self) -> bool {
        self.r.zero() && self.g.zero() && self.b.zero()
    }

    pub open spec fn has_nan(self) -> bool {
        self.r.nan() || self.g.nan() || self.b.nan()
    }

    /// The first problem of a radiance whose luminance is `luminance`: a NaN
    /// in a channel or in the luminance (the sum of an infinite channel and
    /// its opposite is one), else a negative luminance, else an infinite one.
    pub open spec fn problem(self, luminance: Scalar) -> Option<RadianceProblems> {
        if self.has_nan() || luminance.nan() {
            Some(RadianceProblems::HasNaNs)
        } else if luminance.lt_spec(Scalar::zero_spec()) {
            Some(RadianceProblems::NegativeLuminance)
        } else if luminance.infinite() {
            Some(RadianceProblems::InfiniteLuminance)
        } else {
            None
        }
    }

    pub fn white() -> (r: Spectrum)
        ensures
            r == Self::white_spec(),
    {
        Spectrum::greyscale(Scalar::one())
    }

    pub fn black() -> (r: Spectrum)
        ensures
            r == Self::black_spec(),
    {
        Spectrum::greyscale(Scalar::zero_value())
    }

    pub fn greyscale(f: Scalar) -> (r: Spectrum)
        ensures
            r == Self::greyscale_spec(f),
    {
        Spectrum { r: f, g: f, b: f }
    }

    /// Whether every channel is exactly zero.
    pub fn is_black(&self) -> (r: bool)
        ensures
            r == self.black_channels(),
    {
        let zero = Scalar::zero_value();
        self.r.equals(zero) && self.g.equals(zero) && self.b.equals(zero)
    }

    /// Checks a radiance whose luminance the caller has computed. The
    /// radiance passes exactly when no channel is a NaN and the luminance is
    /// in `[0, infinity)`.
    pub fn is_valid(&self, luminance: Scalar) -> (r: Option<RadianceProblems>)
        ensures
            r == self.problem(luminance),
            (r is None) <==> (!self.has_nan() && Scalar::zero_spec().le_spec(luminance)
                && !luminance.infinite()),
    {
        if self.r.is_nan() || self.g.is_nan() || self.b.is_nan() || luminance.is_nan() {
            Some(RadianceProblems::HasNaNs)
        } else if luminance.lt(Scalar::zero_value()) {
            Some(RadianceProblems::NegativeLuminance)
        } else if luminance.is_infinite() {
            Some(RadianceProblems::InfiniteLuminance)
        } else {
            None
        }
    }
}

} // verus!
