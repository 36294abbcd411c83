//! Pixel grids: full-color and single-channel frames, row-major, origin at
//! the top left, with bounds-checked access.

use vstd::arithmetic::div_mod::lemma_fundamental_div_mod_converse;
use vstd::prelude::*;

verus! {

/// One color pixel; the channels are red, green and blue, each 0-255.
#[derive(Clone, Copy, PartialEq, Eq, Structural, Debug)]
pub struct Rgb {
    pub r: u8,
    pub g: u8,
    pub b: u8,
}

/// Index of the pixel at column `x`, row `y` in a row-major grid of width `w`.
pub open spec fn pix_index(w: int, x: int, y: int) -> int {
    y * w + x
}

/// The color pixel of `pix` at `(x, y)` in a row-major grid of width `w`.
pub open spec fn rgb_at(w: int, pix: Seq<Rgb>, x: int, y: int) -> Rgb {
    pix[pix_index(w, x, y)]
}

/// The intensity of `pix` at `(x, y)` in a row-major grid of width `w`.
pub open spec fn gray_at(w: int, pix: Seq<u8>, x: int, y: int) -> u8 {
    pix[pix_index(w, x, y)]
}

/// Clamp `v` into `[0, hi]`; kernels replicate the border this way.
pub open spec fn clamp_to(v: int, hi: int) -> int {
    if v < 0 {
        0
    } else if v > hi {
        hi
    } else {
        v
    }
}

/// A row-major index decomposes back into the coordinates it was built from.
pub proof fn lemma_rowmajor_divmod(w: int, x: int, y: int)
    requires
        0 < w,
        0 <= x < w,
        0 <= y,
    ensures
        pix_index(w, x, y) / w == y,
        pix_index(w, x, y) % w == x,
{
    lemma_fundamental_div_mod_converse(y * w + x, w, y, x);
}

/// A pixel inside the grid has its row-major index inside the grid's area.
pub proof fn lemma_rowmajor_bound(w: int, h: int, x: int, y: int)
    requires
        0 <= x < w,
        0 <= y < h,
    ensures
        0 <= pix_index(w, x, y) < w * h,
{
    assert(y * w + x < w * h) by (nonlinear_arith)
        requires
            0 <= x < w,
            0 <= y < h,
    ;
}

/// A full-color frame.
#[derive(Clone, Debug)]
pub struct ColorFrame {
    pub width: usize,
    pub height: usize,
    pub pixels: Vec<Rgb>,
}

impl ColorFrame {
    /// The frame holds exactly one pixel per grid cell.
    pub open spec fn wf(self) -> bool {
        self.pixels@.len() == self.width * self.height
    }

    /// The pixel at column `x`, row `y`.
    pub open spec fn at(self, x: int, y: int) -> Rgb {
        rgb_at(self.width as int, self.pixels@, x, y)
    }

    /// In-bounds pixel access.
    pub fn px(&self, x: usize, y: usize) -> (p: Rgb)
        requires
            self.wf(),
            x < self.width,
            y < self.height,
        ensures
            p == self.at(x as int, y as int),
    {
        let n: usize = self.pixels.len();
        proof {
            lemma_rowmajor_bound(self.width as int, self.height as int, x as int, y as int);
        }
        self.pixels[y * self.width + x]
    }

    /// Bounds-checked pixel access: `None` outside the frame.
    pub fn get(&self, x: usize, y: usize) -> (r: Option<Rgb>)
        requires
            self.wf(),
        ensures
            x < self.width && y < self.height ==> r == Some(self.at(x as int, y as int)),
            !(x < self.width && y < self.height) ==> r is None,
    {
        if x < self.width && y < self.height {
            Some(self.px(x, y))
        } else {
            None
        }
    }
}

/// A single-channel frame of brightness values.
#[derive(Clone, Debug)]
pub struct GrayFrame {
    pub width: usize,
    pub height: usize,
    pub pixels: Vec<u8>,
}

impl GrayFrame {
    /// The frame holds exactly one value per grid cell.
    pub open spec fn wf(self) -> bool {
        self.pixels@.len() == self.width * self.height
    }

    /// The intensity at column `x`, row `y`.
    pub open spec fn at(self, x: int, y: int) -> u8 {
        gray_at(self.width as int, self.pixels@, x, y)
    }

    /// In-bounds intensity access.
    pub fn px(&self, x: usize, y: usize) -> (p: u8)
        requires
            self.wf(),
            x < self.width,
            y < self.height,
        ensures
            p == self.at(x as int, y as int),
    {
        let n: usize = self.pixels.len();
        proof {
            lemma_rowmajor_bound(self.width as int, self.height as int, x as int, y as int);
        }
        self.pixels[y * self.width + x]
    }

    /// Bounds-checked intensity access: `None` outside the frame.
    pub fn get(&self, x: usize, y: usize) -> (r: Option<u8>)
        requires
            self.wf(),
        ensures
            x < self.width && y < self.height ==> r == Some(self.at(x as int, y as int)),
            !(x < self.width && y < self.height) ==> r is None,
    {
        if x < self.width && y < self.height {
            Some(self.px(x, y))
        } else {
            None
        }
    }
}

} // verus!
