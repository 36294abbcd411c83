//! The full per-frame pipeline: smooth, reduce to grayscale, analyze
//! gradients, sample blocks, compose the glyph text and arrange the debug
//! canvas. Each frame is processed independently; the result is a pure
//! function of the input frame.

use crate::canvas::{canvas_grid, combine};
use crate::compose::{compose, glyph_text};
use crate::frame::{ColorFrame, Rgb};
use crate::gradient::{blocks_along, edge_grid, grad_x_grid, grad_y_grid, gradients, grid_of,
    mag_grid, magnitude_image, BLOCK_SIZE};
use crate::gray::{gray_grid, to_gray};
use crate::sample::{block_sample, sample_grid};
use crate::smooth::{blur_grid, smooth};
use vstd::pervasive::unreached;
use vstd::prelude::*;

verus! {

/// The glyph text of one frame: the decision grid of the smoothed,
/// reduced frame's gradients, composed with the block-sampled colors.
pub open spec fn render_text(w: int, h: int, pix: Seq<Rgb>) -> Seq<char> {
    let sm = blur_grid(w, h, pix);
    let g = gray_grid(sm);
    let gxs = grad_x_grid(w, h, g);
    let gys = grad_y_grid(w, h, g);
    glyph_text(blocks_along(w), blocks_along(h), sample_grid(w, h, pix), grid_of(w, h, gxs, gys))
}

/// The debug canvas of one frame: original, smoothed, grayscale and
/// gradient magnitude in four quadrants.
pub open spec fn render_canvas(w: int, h: int, pix: Seq<Rgb>) -> Seq<Rgb> {
    let sm = blur_grid(w, h, pix);
    let g = gray_grid(sm);
    let gxs = grad_x_grid(w, h, g);
    let gys = grad_y_grid(w, h, g);
    canvas_grid(w, h, pix, sm, g, mag_grid(gxs, gys))
}

/// Everything one frame renders to: the glyph text, the block-sampled
/// low-resolution frame and the debug canvas.
pub struct RenderOutput {
    /// The colored glyph text, one row of glyphs per block row.
    pub text: String,
    /// One sampled color per block.
    pub sample: ColorFrame,
    /// The four-quadrant debug canvas.
    pub canvas: ColorFrame,
}

/// Law: the pipeline is deterministic. Two frames of the same dimensions
/// and the same pixels render to the same text, the same sample and the
/// same canvas, so re-running it on an identical frame reproduces the
/// output byte for byte.
pub proof fn lemma_render_deterministic(f1: ColorFrame, f2: ColorFrame)
    requires
        f1.width == f2.width,
        f1.height == f2.height,
        f1.pixels@ == f2.pixels@,
    ensures
        render_text(f1.width as int, f1.height as int, f1.pixels@) == render_text(
            f2.width as int,
            f2.height as int,
            f2.pixels@,
        ),
        render_canvas(f1.width as int, f1.height as int, f1.pixels@) == render_canvas(
            f2.width as int,
            f2.height as int,
            f2.pixels@,
        ),
        sample_grid(f1.width as int, f1.height as int, f1.pixels@) == sample_grid(
            f2.width as int,
            f2.height as int,
            f2.pixels@,
        ),
{
}

/// Run the whole pipeline on one frame.
pub fn render_frame(f: &ColorFrame) -> (r: RenderOutput)
    requires
        f.wf(),
        f.width >= 1,
        f.height >= 1,
        4 * (f.width as int) * (f.height as int) <= usize::MAX as int,
    ensures
        r.text@ == render_text(f.width as int, f.height as int, f.pixels@),
        r.sample.wf(),
        r.sample.width as int == blocks_along(f.width as int),
        r.sample.height as int == blocks_along(f.height as int),
        r.sample.pixels@ == sample_grid(f.width as int, f.height as int, f.pixels@),
        r.canvas.wf(),
        r.canvas.width == 2 * f.width,
        r.canvas.height == 2 * f.height,
        r.canvas.pixels@ == render_canvas(f.width as int, f.height as int, f.pixels@),
{
    let w: usize = f.width;
    let h: usize = f.height;
    let ghost wi: int = w as int;
    let ghost hi: int = h as int;
    proof {
        assert(4 * wi <= 4 * wi * hi && 4 * hi <= 4 * wi * hi) by (nonlinear_arith)
            requires
                wi >= 1,
                hi >= 1,
        ;
        assert(w + BLOCK_SIZE <= usize::MAX);
        assert(h + BLOCK_SIZE <= usize::MAX);
    }
    let sm = smooth(f);
    let g = to_gray(&sm);
    let grad = gradients(&g);
    let grid = edge_grid(&grad);
    let samp = block_sample(f);
    proof {
        assert(grid@.len() == samp.width * samp.height);
    }
    let text = match compose(&samp, &grid) {
        Ok(s) => s,
        Err(_) => unreached(),
    };
    let mag = magnitude_image(&grad);
    let canvas = combine(f, &sm, &g, &mag);
    RenderOutput { text, sample: samp, canvas }
}

} // verus!
