//! The integrators, which turn a scene into an image.
use vstd::prelude::*;
use std::sync::Arc;
use crate::scalar::Scalar;
use crate::render::camera::CameraInstance;
use crate::render::sampler::SamplerInstance;
use crate::render::spectrum::Spectrum;
use crate::utils::share;

verus! {

/// The integrator that renders nothing.
pub struct NullIntegrator {}

pub enum IntegratorInstance {
    NullIntegrator(NullIntegrator),
    SamplerIntegratorInstance(SamplerIntegratorInstance),
}

pub enum SamplerIntegratorInstance {
    WhittedIntegrator(WhittedIntegrator),
}

/// The recursive ray tracer: direct light at every hit, and one mirrored
/// ray per bounce, down to a depth of `max_depth`.
pub struct WhittedIntegrator {
    pub max_depth: u32,
    pub camera: Arc<CameraInstance>,
    pub sampler: SamplerInstance,
}

/// The radiance that reaches the film: the computed one where no channel is
/// a NaN and the luminance is in `[0, infinity)`, black otherwise.
pub fn filter_invalid(l: Spectrum, luminance: Scalar) -> (r: Spectrum)
    ensures
        r == if l.problem(luminance) is None {
            l
        } else {
            Spectrum::black_spec()
        },
        r == if !l.has_nan() && Scalar::zero_spec().le_spec(luminance) && !luminance.infinite() {
            l
        } else {
            Spectrum::black_spec()
        },
{
    match l.is_valid(luminance) {
        Some(_) => Spectrum::default(),
        None => l,
    }
}

impl NullIntegrator {
    /// Renders nothing.
    pub fn render(&mut self)
        ensures
            *final(self) == *old(self),
    {
    }
}

impl WhittedIntegrator {
    pub fn new(max_depth: u32, camera: CameraInstance, sampler: SamplerInstance) -> (r: Self)
        ensures
            r.max_depth == max_depth,
            *r.camera == camera,
            r.sampler == sampler,
    {
        Self { max_depth, camera: Arc::new(camera), sampler }
    }

    pub fn get_camera(&mut self) -> (r: Arc<CameraInstance>)
        ensures
            r == old(self).camera,
            *final(self) == *old(self),
    {
        share(&self.camera)
    }

    /// A sampler of its own for one worker.
    pub fn get_sampler(&self, _seed: u64) -> (r: SamplerInstance)
        ensures
            r == self.sampler,
    {
        self.sampler
    }

    /// Whether a ray at `depth` bounces are followed further: only while
    /// the next depth is below the maximum.
    pub fn bounces_at(&self, depth: u32) -> (r: bool)
        ensures
            r == (depth + 1 < self.max_depth),
    {
        depth < self.max_depth && depth + 1 < self.max_depth
    }

    /// Whether a mirrored ray is traced: the sample has a positive density,
    /// its value is not black and the direction is not in the surface
    /// (`cosine` is the absolute cosine between direction and shading
    /// normal).
    pub fn specular_reflect(pdf: Scalar, color_sample: &Spectrum, cosine: Scalar) -> (r: bool)
        ensures
            r == (Scalar::zero_spec().lt_spec(pdf) && !color_sample.black_channels()
                && !cosine.eq_spec(Scalar::zero_spec())),
    {
        let zero = Scalar::zero_value();
        pdf.gt(zero) && !color_sample.is_black() && !cosine.equals(zero)
    }
}

} // verus!
