//! Raster frames: a width, a height and four bytes (red, green, blue, alpha)
//! for every pixel, row by row from the top.

use vstd::prelude::*;

verus! {

/// What a frame is in contracts: its size and its bytes in row-major RGBA order.
pub struct Raster {
    pub width: nat,
    pub height: nat,
    pub pixels: Seq<u8>,
}

impl Raster {
    /// The byte sequence holds exactly four bytes per pixel.
    pub open spec fn wf(self) -> bool {
        self.pixels.len() == 4 * self.width * self.height
    }

    /// Index of the red byte of the pixel in column `x` of row `y`.
    pub open spec fn offset(self, x: int, y: int) -> int {
        4 * (y * self.width + x)
    }

    /// The channels (red, green, blue, alpha) of the pixel in column `x` of row `y`.
    pub open spec fn pixel(self, x: int, y: int) -> (u8, u8, u8, u8)
        recommends
            0 <= x < self.width,
            0 <= y < self.height,
    {
        let at = self.offset(x, y);
        (self.pixels[at], self.pixels[at + 1], self.pixels[at + 2], self.pixels[at + 3])
    }

    /// Number of text lines that the frame is encoded into: one per pair of rows.
    pub open spec fn row_pairs(self) -> nat {
        self.height / 2
    }
}

/// The pixel at (`x`, `y`) of a well-formed raster lies inside its bytes.
pub proof fn lemma_offset_in_bounds(width: nat, height: nat, x: int, y: int)
    requires
        0 <= x < width,
        0 <= y < height,
    ensures
        0 <= 4 * (y * width + x),
        4 * (y * width + x) + 4 <= 4 * width * height,
        0 <= y * width <= (height - 1) * width,
{
    assert(0 <= y * width <= (height - 1) * width) by (nonlinear_arith)
        requires
            0 <= y <= height - 1,
            0 <= width,
    ;
    assert((height - 1) * width + width == width * height) by (nonlinear_arith);
    assert(4 * width * height == 4 * (width * height)) by (nonlinear_arith);
}

/// One decoded image frame. Its bytes never change once it is built.
#[derive(Debug)]
pub struct ImageFrame {
    width: u32,
    height: u32,
    pixels: Vec<u8>,
}

impl View for ImageFrame {
    type V = Raster;

    closed spec fn view(&self) -> Raster {
        Raster { width: self.width as nat, height: self.height as nat, pixels: self.pixels@ }
    }
}

impl Clone for ImageFrame {
    /// A frame with the same size and the same bytes.
    fn clone(&self) -> (copy: ImageFrame)
        ensures
            copy@ == self@,
    {
        proof {
            use_type_invariant(self);
        }
        let pixels = self.pixels.clone();
        assert(pixels@ =~= self.pixels@);
        ImageFrame { width: self.width, height: self.height, pixels }
    }
}

impl ImageFrame {
    #[verifier::type_invariant]
    spec fn inv(self) -> bool {
        self.pixels@.len() == 4 * self.width * self.height
    }

    /// Builds a frame from row-major RGBA bytes. Bytes beyond the last pixel are
    /// dropped; a buffer that is too short for `width * height` pixels is refused.
    pub fn new(width: u32, height: u32, pixels: Vec<u8>) -> (frame: Option<ImageFrame>)
        ensures
            frame is Some <==> pixels@.len() >= 4 * width * height,
            frame matches Some(f) ==> f@ == (Raster {
                width: width as nat,
                height: height as nat,
                pixels: pixels@.take(4 * width * height),
            }) && f@.wf(),
    {
        assert(width * height <= 0xFFFF_FFFF * 0xFFFF_FFFF) by (nonlinear_arith)
            requires
                0 <= width <= 0xFFFF_FFFF,
                0 <= height <= 0xFFFF_FFFF,
        ;
        assert(4 * width * height == 4 * (width * height)) by (nonlinear_arith);
        let area: u64 = (width as u64) * (height as u64);
        let room: u64 = (pixels.len() as u64) / 4;
        if room < area {
            return None;
        }
        let needed: usize = (4 * area) as usize;
        let mut pixels = pixels;
        pixels.truncate(needed);
        Some(ImageFrame { width, height, pixels })
    }

    /// Width and height in pixels.
    pub fn dimensions(&self) -> (size: (u32, u32))
        ensures
            size.0 == self@.width,
            size.1 == self@.height,
            self@.wf(),
    {
        proof {
            use_type_invariant(self);
        }
        (self.width, self.height)
    }

    /// The bytes of the frame in row-major RGBA order.
    pub fn as_raw(&self) -> (pixels: &Vec<u8>)
        ensures
            pixels@ == self@.pixels,
            self@.wf(),
    {
        proof {
            use_type_invariant(self);
        }
        &self.pixels
    }

    /// The channels (red, green, blue, alpha) of the pixel in column `x` of row `y`.
    pub fn get_pixel_rgba(&self, x: u32, y: u32) -> (rgba: (u8, u8, u8, u8))
        requires
            x < self@.width,
            y < self@.height,
        ensures
            rgba == self@.pixel(x as int, y as int),
    {
        let len: usize = self.pixels.len();
        proof {
            use_type_invariant(self);
            lemma_offset_in_bounds(self.width as nat, self.height as nat, x as int, y as int);
            assert(4 * (y * self.width + x) + 4 <= len);
        }
        let row: usize = (y as usize) * (self.width as usize);
        let at: usize = 4 * (row + x as usize);
        (self.pixels[at], self.pixels[at + 1], self.pixels[at + 2], self.pixels[at + 3])
    }
}

} // verus!
