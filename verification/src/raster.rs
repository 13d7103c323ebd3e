//! The decoded image as the renderer sees it: a width, a height, and one RGB
//! triple per pixel. Decoding and resizing happen outside the library; the
//! renderer only ever reads pixels from a value of this type.

use vstd::prelude::*;

verus! {

/// A decoded raster image: `width * height` RGB triples in row-major order.
pub struct Raster {
    width: u32,
    height: u32,
    pixels: Vec<(u8, u8, u8)>,
}

impl Raster {
    pub closed spec fn spec_width(&self) -> u32 {
        self.width
    }

    pub closed spec fn spec_height(&self) -> u32 {
        self.height
    }

    /// The color of the pixel at column `x`, row `y`.
    pub closed spec fn pixel(&self, x: int, y: int) -> (u8, u8, u8) {
        self.pixels@[y * self.spec_width() + x]
    }

    /// The pixel buffer holds exactly one entry per coordinate.
    pub closed spec fn wf(&self) -> bool {
        self.pixels@.len() == self.spec_width() * self.spec_height()
    }

    /// Builds an image from its dimensions and a row-major pixel buffer.
    pub fn new(width: u32, height: u32, pixels: Vec<(u8, u8, u8)>) -> (r: Self)
        requires
            pixels@.len() == width * height,
        ensures
            r.wf(),
            r.spec_width() == width,
            r.spec_height() == height,
            forall|x: int, y: int|
                0 <= x < width && 0 <= y < height ==> r.pixel(x, y) == pixels@[y * width + x],
    {
        Raster { width, height, pixels }
    }

    pub fn width(&self) -> (r: u32)
        ensures
            r == self.spec_width(),
    {
        self.width
    }

    pub fn height(&self) -> (r: u32)
        ensures
            r == self.spec_height(),
    {
        self.height
    }

    /// Reads the pixel at column `x`, row `y`.
    pub fn get_pixel(&self, x: u32, y: u32) -> (r: (u8, u8, u8))
        requires
            self.wf(),
            x < self.spec_width(),
            y < self.spec_height(),
        ensures
            r == self.pixel(x as int, y as int),
    {
        proof {
            assert((y as int) * (self.spec_width()) + (x as int)
                < self.spec_width() * self.spec_height()) by (nonlinear_arith)
                requires
                    0 <= x < self.spec_width(),
                    0 <= y < self.spec_height(),
            ;
        }
        let n = self.pixels.len();
        let idx: usize = (y as usize) * (self.width as usize) + (x as usize);
        self.pixels[idx]
    }
}

} // verus!
