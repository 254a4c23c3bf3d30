//! The sequence of samples taken for each pixel.
use vstd::prelude::*;
use crate::scalar::Scalar;
use crate::geometry::point::Point2;

verus! {

/// Where on the film and where on the lens a camera ray starts.
#[derive(Clone, Copy, Debug)]
pub struct CameraSample {
    pub film_point: Point2,
    pub lens_point: Point2,
}

/// The sampler that takes a single sample per pixel.
#[derive(Clone, Copy, Debug, PartialEq, Eq, Structural)]
pub struct NullSampler {}

/// The sampler that takes a fixed number of samples per pixel.
#[derive(Clone, Copy, Debug, PartialEq, Eq, Structural)]
pub struct RandomSampler {
    pub samples_per_pixel: i64,
    pub current_sample: i64,
}

#[derive(Clone, Copy, Debug, PartialEq, Eq, Structural)]
pub enum SamplerInstance {
    NullSampler(NullSampler),
    RandomSampler(RandomSampler),
}

impl NullSampler {
    pub fn start_pixel(&mut self, _p: &Point2<u32>)
        ensures
            *final(self) == *old(self),
    {
    }

    pub fn start_next(&mut self) -> (r: bool)
        ensures
            !r,
            *final(self) == *old(self),
    {
        false
    }

    pub fn samples_per_pixel(&self) -> (r: i64)
        ensures
            r == 0,
    {
        0
    }
}

impl RandomSampler {
    /// Starts the samples of a pixel over.
    pub fn start_pixel(&mut self, _p: &Point2<u32>)
        ensures
            final(self).current_sample == 0,
            final(self).samples_per_pixel == old(self).samples_per_pixel,
    {
        self.current_sample = 0;
    }

    /// Goes on to the next sample of the pixel; false once the pixel has
    /// had all its samples.
    pub fn start_next(&mut self) -> (r: bool)
        requires
            old(self).current_sample < i64::MAX,
        ensures
            final(self).current_sample == old(self).current_sample + 1,
            final(self).samples_per_pixel == old(self).samples_per_pixel,
            r == (final(self).current_sample < final(self).samples_per_pixel),
    {
        self.current_sample += 1;
        self.current_sample < self.samples_per_pixel
    }

    pub fn samples_per_pixel(&self) -> (r: i64)
        ensures
            r == self.samples_per_pixel,
    {
        self.samples_per_pixel
    }
}

/// The sample at a pixel: the pixel's own place on the film, without jitter,
/// and the centre of the lens.
pub open spec fn camera_sample_at(raster_point: Point2<u32>) -> CameraSample {
    CameraSample {
        film_point: Point2 {
            x: Scalar::from_u32_spec(raster_point.x),
            y: Scalar::from_u32_spec(raster_point.y),
        },
        lens_point: Point2 { x: Scalar::zero_spec(), y: Scalar::zero_spec() },
    }
}

impl SamplerInstance {
    /// The sample for a pixel.
    pub fn get_camera_sample(&self, raster_point: Point2<u32>) -> (r: CameraSample)
        ensures
            r == camera_sample_at(raster_point),
    {
        CameraSample {
            film_point: Point2 {
                x: Scalar::from_u32(raster_point.x),
                y: Scalar::from_u32(raster_point.y),
            },
            lens_point: Point2 { x: Scalar::zero_value(), y: Scalar::zero_value() },
        }
    }

    /// How many samples of the current pixel have been started after the
    /// first.
    pub open spec fn current(self) -> int {
        match self {
            SamplerInstance::NullSampler(_) => 0,
            SamplerInstance::RandomSampler(s) => s.current_sample as int,
        }
    }

    /// How many samples a pixel gets.
    pub open spec fn budget(self) -> int {
        match self {
            SamplerInstance::NullSampler(_) => 0,
            SamplerInstance::RandomSampler(s) => s.samples_per_pixel as int,
        }
    }

    pub fn start_pixel(&mut self, p: &Point2<u32>)
        ensures
            final(self).budget() == old(self).budget(),
            final(self).current() == 0,
            (*final(self) is NullSampler) == (*old(self) is NullSampler),
    {
        match self {
            SamplerInstance::NullSampler(s) => s.start_pixel(p),
            SamplerInstance::RandomSampler(s) => s.start_pixel(p),
        }
    }

    pub fn start_next(&mut self) -> (r: bool)
        requires
            old(self).current() < i64::MAX,
        ensures
            final(self).budget() == old(self).budget(),
            (*final(self) is NullSampler) == (*old(self) is NullSampler),
            *old(self) is NullSampler ==> !r && final(self).current() == 0,
            *old(self) is RandomSampler ==> final(self).current() == old(self).current() + 1 && r
                == (final(self).current() < final(self).budget()),
    {
        match self {
            SamplerInstance::NullSampler(s) => s.start_next(),
            SamplerInstance::RandomSampler(s) => s.start_next(),
        }
    }

    pub fn samples_per_pixel(&self) -> (r: i64)
        ensures
            r == self.budget(),
    {
        match self {
            SamplerInstance::NullSampler(s) => s.samples_per_pixel(),
            SamplerInstance::RandomSampler(s) => s.samples_per_pixel(),
        }
    }
}

/// How many samples a pixel is given by the loop that takes one sample and
/// then asks `start_next` whether to go on: one at least, and as many as the
/// budget says beyond that.
pub open spec fn samples_taken(budget: int) -> int {
    if budget < 1 {
        1
    } else {
        budget
    }
}

/// After `taken` samples of a pixel, `start_next` asks for another exactly
/// while fewer than `samples_taken` have been taken.
pub proof fn lemma_sample_count(budget: int, taken: int)
    requires
        1 <= taken <= samples_taken(budget),
    ensures
        (taken < budget) == (taken < samples_taken(budget)),
{
}

} // verus!
