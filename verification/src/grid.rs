//! The pixel-grid model of a captured window strip: a width x height,
//! row-major grid of 24-bit packed RGB samples, with bounds-checked sampling.

use vstd::prelude::*;

verus! {

/// A captured bitmap as the scanner sees it. Row-major: the sample at
/// `(x, y)` sits at index `y * width + x`.
pub struct PixelGrid {
    pub width: u32,
    pub height: u32,
    pub pixels: Vec<u32>,
}

impl PixelGrid {
    pub open spec fn wf(self) -> bool {
        self.pixels@.len() == self.width as int * self.height as int
    }

    /// The row of samples at height `y`.
    pub open spec fn row(self, y: int) -> Seq<u32> {
        Seq::new(self.width as nat, |x: int| self.pixels@[y * self.width as int + x])
    }

    pub open spec fn sample_spec(self, x: int, y: int) -> Option<u32> {
        if 0 <= x < self.width as int && 0 <= y < self.height as int {
            Some(self.row(y)[x])
        } else {
            None
        }
    }

    /// Builds a grid from its dimensions and a flat row-major sample vector;
    /// rejects a vector whose length does not match the dimensions.
    pub fn new(width: u32, height: u32, pixels: Vec<u32>) -> (r: Option<PixelGrid>)
        ensures
            match r {
                Some(g) => {
                    &&& g.wf()
                    &&& g.width == width
                    &&& g.height == height
                    &&& g.pixels@ == pixels@
                    &&& pixels@.len() == width as int * height as int
                },
                None => pixels@.len() != width as int * height as int,
            },
    {
        proof {
            assert((width as int) * (height as int) <= 0xFFFF_FFFFu64 * 0xFFFF_FFFFu64) by (nonlinear_arith)
                requires
                    width <= 0xFFFF_FFFFu64,
                    height <= 0xFFFF_FFFFu64,
            ;
        }
        let expected: u64 = (width as u64) * (height as u64);
        if (pixels.len() as u64) == expected {
            Some(PixelGrid { width, height, pixels })
        } else {
            None
        }
    }

    /// Returns the sample at `(x, y)`; the coordinates must lie on the grid.
    pub fn at(&self, x: u32, y: u32) -> (s: u32)
        requires
            self.wf(),
            x < self.width,
            y < self.height,
        ensures
            s == self.row(y as int)[x as int],
    {
        let n = self.pixels.len();
        proof {
            assert(0 <= y as int * self.width as int
                && (y as int * self.width as int + x as int) < (self.width as int) * (self.height as int))
                by (nonlinear_arith)
                requires
                    x < self.width,
                    y < self.height,
            ;
            assert((y as int * self.width as int + x as int) < n);
        }
        let idx: usize = (y as usize) * (self.width as usize) + (x as usize);
        let s = self.pixels[idx];
        proof {
            assert(self.row(y as int)[x as int] == self.pixels@[y as int * self.width as int + x as int]);
        }
        s
    }

    /// Returns the sample at `(x, y)`, or nothing when the coordinates fall
    /// outside the grid.
    pub fn sample(&self, x: u32, y: u32) -> (r: Option<u32>)
        requires
            self.wf(),
        ensures
            r == self.sample_spec(x as int, y as int),
    {
        if x < self.width && y < self.height {
            Some(self.at(x, y))
        } else {
            None
        }
    }
}

} // verus!
