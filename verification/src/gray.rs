//! The luminance reducer: a three-channel frame becomes one brightness
//! value per pixel, by a fixed weighted combination of the channels.

use crate::frame::{ColorFrame, GrayFrame, Rgb};
use vstd::arithmetic::div_mod::lemma_div_is_ordered;
use vstd::prelude::*;

verus! {

/// The brightness of one color pixel: a weighted combination of the
/// channels (299, 587, 114 thousandths), rounded to nearest.
pub open spec fn luma_of(c: Rgb) -> int {
    (299 * (c.r as int) + 587 * (c.g as int) + 114 * (c.b as int) + 500) / 1000
}

/// Law: the brightness weights are monotone in every channel.
pub proof fn lemma_luma_monotone(c1: Rgb, c2: Rgb)
    requires
        c1.r <= c2.r,
        c1.g <= c2.g,
        c1.b <= c2.b,
    ensures
        luma_of(c1) <= luma_of(c2),
{
    lemma_div_is_ordered(
        299 * (c1.r as int) + 587 * (c1.g as int) + 114 * (c1.b as int) + 500,
        299 * (c2.r as int) + 587 * (c2.g as int) + 114 * (c2.b as int) + 500,
        1000,
    );
}

/// The whole reduced frame, pixel for pixel.
pub open spec fn gray_grid(pix: Seq<Rgb>) -> Seq<u8> {
    Seq::new(pix.len(), |i: int| luma_of(pix[i]) as u8)
}

/// Reduce a color frame to brightness values; dimensions are kept.
pub fn to_gray(f: &ColorFrame) -> (r: GrayFrame)
    requires
        f.wf(),
    ensures
        r.wf(),
        r.width == f.width,
        r.height == f.height,
        r.pixels@ == gray_grid(f.pixels@),
{
    let n: usize = f.pixels.len();
    let mut out: Vec<u8> = Vec::new();
    let mut i: usize = 0;
    while i < n
        invariant
            n == f.pixels@.len(),
            i <= n,
            out@.len() == i,
            forall|j: int| 0 <= j < i ==> out@[j] == luma_of(f.pixels@[j]) as u8,
        decreases n - i,
    {
        let c = f.pixels[i];
        let v: u32 = (299 * (c.r as u32) + 587 * (c.g as u32) + 114 * (c.b as u32) + 500) / 1000;
        out.push(v as u8);
        i = i + 1;
    }
    proof {
        assert(out@ =~= gray_grid(f.pixels@));
    }
    GrayFrame { width: f.width, height: f.height, pixels: out }
}

} // verus!
