//! The grayscale image that the sampler reads: an 8-bit brightness buffer in
//! row-major order with explicit width and height.

use vstd::prelude::*;

verus! {

/// An immutable 8-bit grayscale image. Pixels are stored row-major with the
/// origin at the top-left corner: the pixel at column `x`, row `y` sits at
/// index `y * width + x`.
pub struct GrayImage {
    /// Width in pixels.
    pub width: u32,
    /// Height in pixels.
    pub height: u32,
    /// Row-major brightness values, one byte per pixel.
    pub pixels: Vec<u8>,
}

impl GrayImage {
    /// The buffer holds exactly one byte per coordinate.
    pub open spec fn wf(self) -> bool {
        self.pixels@.len() == self.width * self.height
    }

    /// Brightness of the pixel at column `x`, row `y`.
    pub open spec fn pixel(self, x: int, y: int) -> u8 {
        self.pixels@[y * self.width + x]
    }

    /// Builds an image from its dimensions and pixel buffer; rejects a buffer
    /// whose length does not match the dimensions.
    pub fn new(width: u32, height: u32, pixels: Vec<u8>) -> (r: Option<GrayImage>)
        ensures
            match r {
                Some(img) => {
                    &&& img.wf()
                    &&& img.width == width
                    &&& img.height == height
                    &&& img.pixels@ == pixels@
                },
                None => pixels@.len() != width * height,
            },
    {
        proof {
            assert((width as int) * (height as int) <= u64::MAX) by (nonlinear_arith)
                requires
                    0 <= width <= u32::MAX,
                    0 <= height <= u32::MAX,
            ;
        }
        let expected: u64 = (width as u64) * (height as u64);
        if pixels.len() as u64 == expected {
            Some(GrayImage { width, height, pixels })
        } else {
            None
        }
    }

    /// Reads one pixel.
    pub fn get_pixel(&self, x: u32, y: u32) -> (p: u8)
        requires
            self.wf(),
            x < self.width,
            y < self.height,
        ensures
            p == self.pixel(x as int, y as int),
    {
        let n: usize = self.pixels.len();
        proof {
            assert((y as int) * (self.width as int) + (x as int)
                < (self.width as int) * (self.height as int)) by (nonlinear_arith)
                requires
                    0 <= x < self.width,
                    0 <= y < self.height,
            ;
        }
        let idx: usize = (y as usize) * (self.width as usize) + (x as usize);
        self.pixels[idx]
    }
}

} // verus!
