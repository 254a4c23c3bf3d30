//! The pixel grid that the image is gathered on.
use vstd::prelude::*;
use crate::scalar::Scalar;
use crate::geometry::bounds::Bounds2;
use crate::geometry::point::Point2;
use crate::render::spectrum::Spectrum;

verus! {

/// A grid of `resolution.x` by `resolution.y` pixels, kept row by row.
pub struct Film {
    pub resolution: Point2<u32>,
    pub pixels: Vec<Spectrum>,
}

impl Film {
    /// The grid has a pixel for every place.
    pub open spec fn wf(&self) -> bool {
        &&& self.resolution.x > 0
        &&& self.resolution.y > 0
        &&& self.pixels@.len() == self.resolution.x * self.resolution.y
    }

    /// The place of a pixel in the row-major grid.
    pub open spec fn index_of(&self, pixel: Point2<u32>) -> int {
        pixel.y * self.resolution.x + pixel.x
    }

    /// A black film. The resolution must be positive on both axes.
    pub fn new(resolution: Point2<u32>) -> (r: Self)
        requires
            resolution.x > 0,
            resolution.y > 0,
            resolution.x * resolution.y <= u32::MAX,
        ensures
            r.wf(),
            r.resolution == resolution,
            forall|i: int| 0 <= i < r.pixels@.len() ==> #[trigger] r.pixels@[i] == Spectrum::black_spec(),
    {
        assert(resolution.x * resolution.y >= 0) by (nonlinear_arith)
            requires
                resolution.x > 0,
                resolution.y > 0,
        ;
        let count: u32 = resolution.x * resolution.y;
        let mut pixels: Vec<Spectrum> = Vec::new();
        let mut i: u32 = 0;
        while i < count
            invariant
                i <= count,
                pixels@.len() == i,
                forall|k: int| 0 <= k < pixels@.len() ==> #[trigger] pixels@[k] == Spectrum::black_spec(),
            decreases count - i,
        {
            pixels.push(Spectrum::default());
            i += 1;
        }
        Film { resolution, pixels }
    }

    /// The pixel rectangle: from the origin to the resolution.
    pub fn bounds(&self) -> (r: Bounds2<u32>)
        ensures
            r.min.x == 0 && r.min.y == 0,
            r.max == self.resolution,
    {
        Bounds2 { min: Point2 { x: 0, y: 0 }, max: self.resolution }
    }

    /// Writes the value of a pixel; the value that was there is replaced.
    pub fn add_sample(&mut self, pixel: Point2<u32>, value: Spectrum, _weight: Scalar)
        requires
            old(self).wf(),
            pixel.x < old(self).resolution.x,
            pixel.y < old(self).resolution.y,
        ensures
            final(self).wf(),
            final(self).resolution == old(self).resolution,
            final(self).pixels@ == old(self).pixels@.update(old(self).index_of(pixel), value),
    {
        proof {
            lemma_index_in_grid(self.resolution, pixel);
        }
        let n: usize = self.pixels.len();
        assert(pixel.y * self.resolution.x + pixel.x < n);
        let idx: usize = pixel.y as usize * self.resolution.x as usize + pixel.x as usize;
        self.pixels[idx] = value;
    }

    /// The value of a pixel.
    pub fn pixel(&self, pixel: Point2<u32>) -> (r: Spectrum)
        requires
            self.wf(),
            pixel.x < self.resolution.x,
            pixel.y < self.resolution.y,
        ensures
            r == self.pixels@[self.index_of(pixel)],
    {
        proof {
            lemma_index_in_grid(self.resolution, pixel);
        }
        let n: usize = self.pixels.len();
        assert(pixel.y * self.resolution.x + pixel.x < n);
        let idx: usize = pixel.y as usize * self.resolution.x as usize + pixel.x as usize;
        self.pixels[idx]
    }
}

/// A pixel of the grid has a place in it, and two pixels share a place only
/// if they are the same pixel.
pub proof fn lemma_index_in_grid(resolution: Point2<u32>, pixel: Point2<u32>)
    requires
        pixel.x < resolution.x,
        pixel.y < resolution.y,
    ensures
        0 <= pixel.y * resolution.x + pixel.x < resolution.x * resolution.y,
        0 <= pixel.y * resolution.x,
{
    let w = resolution.x as int;
    let h = resolution.y as int;
    let x = pixel.x as int;
    let y = pixel.y as int;
    assert(y * w + x < w * h) by (nonlinear_arith)
        requires
            0 <= x < w,
            0 <= y < h,
    ;
    assert(0 <= y * w) by (nonlinear_arith)
        requires
            0 <= w,
            0 <= y,
    ;
}

/// Different pixels of the grid have different places.
pub proof fn lemma_index_is_injective(resolution: Point2<u32>, a: Point2<u32>, b: Point2<u32>)
    requires
        a.x < resolution.x,
        b.x < resolution.x,
        a.y * resolution.x + a.x == b.y * resolution.x + b.x,
    ensures
        a == b,
{
    let w = resolution.x as int;
    let ax = a.x as int;
    let ay = a.y as int;
    let bx = b.x as int;
    let by = b.y as int;
    assert(ay == by) by (nonlinear_arith)
        requires
            0 <= ax < w,
            0 <= bx < w,
            0 <= ay,
            0 <= by,
            ay * w + ax == by * w + bx,
    ;
}

} // verus!
