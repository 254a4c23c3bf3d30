//! Rough diffuse reflection.
use vstd::prelude::*;
use crate::scalar::Scalar;
use crate::render::bxdf::{BxDFCategory, DIFFUSE, REFLECTION};
use crate::render::spectrum::Spectrum;

verus! {

/// Reflection off a surface of V-shaped grooves with uniformly distributed
/// slopes. `a` and `b` are the two terms of the model that depend on the
/// spread of the slopes alone.
#[derive(Clone, Copy, Debug)]
pub struct OrenNayar {
    pub color: Spectrum,
    pub a: Scalar,
    pub b: Scalar,
}

impl OrenNayar {
    /// The lobe of a colour with the two terms computed from the spread.
    pub fn new(color: Spectrum, a: Scalar, b: Scalar) -> (r: Self)
        ensures
            r.color == color,
            r.a == a,
            r.b == b,
    {
        OrenNayar { color, a, b }
    }

    pub fn category(&self) -> (r: BxDFCategory)
        ensures
            r == BxDFCategory::of(REFLECTION | DIFFUSE),
    {
        BxDFCategory::from_bits(REFLECTION | DIFFUSE)
    }
}

} // verus!
