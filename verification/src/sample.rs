//! The block sampler: one representative pixel per block of the original
//! color frame, by nearest-neighbor choice of the block's top-left pixel.
//! Its grid aligns one to one with the gradient analyzer's block grid.

use crate::frame::{lemma_rowmajor_divmod, pix_index, rgb_at, ColorFrame, Rgb};
use crate::gradient::{blocks_along, blocks_len, grid_of, BLOCK_SIZE};
use vstd::arithmetic::div_mod::lemma_fundamental_div_mod;
use vstd::prelude::*;

verus! {

/// The sampled low-resolution frame: the top-left pixel of each block,
/// row-major over the block grid.
pub open spec fn sample_grid(w: int, h: int, pix: Seq<Rgb>) -> Seq<Rgb> {
    Seq::new(
        (blocks_along(w) * blocks_along(h)) as nat,
        |i: int|
            rgb_at(
                w,
                pix,
                (BLOCK_SIZE as int) * (i % blocks_along(w)),
                (BLOCK_SIZE as int) * (i / blocks_along(w)),
            ),
    )
}

/// A block's top-left pixel lies inside the frame.
pub proof fn lemma_block_origin_in_bounds(n: int, bi: int)
    requires
        1 <= n,
        0 <= bi < blocks_along(n),
    ensures
        0 <= (BLOCK_SIZE as int) * bi < n,
{
    lemma_fundamental_div_mod(n + (BLOCK_SIZE as int) - 1, BLOCK_SIZE as int);
    assert((BLOCK_SIZE as int) * bi <= (BLOCK_SIZE as int) * (blocks_along(n) - 1))
        by (nonlinear_arith)
        requires
            bi <= blocks_along(n) - 1,
    ;
}

/// Law: the sampler's grid and the gradient analyzer's glyph grid have the
/// same block count along each dimension, for any frame dimensions,
/// including those the block size does not divide.
pub proof fn lemma_block_alignment(w: int, h: int, pix: Seq<Rgb>, gxs: Seq<i32>, gys: Seq<i32>)
    requires
        w >= 0,
        h >= 0,
    ensures
        sample_grid(w, h, pix).len() == grid_of(w, h, gxs, gys).len(),
        sample_grid(w, h, pix).len() == blocks_along(w) * blocks_along(h),
{
    assert(blocks_along(w) * blocks_along(h) >= 0) by (nonlinear_arith)
        requires
            blocks_along(w) >= 0 && blocks_along(h) >= 0,
    ;
}

/// Sample one pixel per block from a color frame.
pub fn block_sample(f: &ColorFrame) -> (s: ColorFrame)
    requires
        f.wf(),
        f.width >= 1,
        f.height >= 1,
        f.width + BLOCK_SIZE <= usize::MAX,
        f.height + BLOCK_SIZE <= usize::MAX,
    ensures
        s.wf(),
        s.width as int == blocks_along(f.width as int),
        s.height as int == blocks_along(f.height as int),
        s.pixels@ == sample_grid(f.width as int, f.height as int, f.pixels@),
{
    let w: usize = f.width;
    let h: usize = f.height;
    let ghost wi: int = w as int;
    let ghost hi: int = h as int;
    let ghost pix: Seq<Rgb> = f.pixels@;
    let bw: usize = blocks_len(w);
    let bh: usize = blocks_len(h);
    let mut out: Vec<Rgb> = Vec::new();
    let mut by: usize = 0;
    while by < bh
        invariant
            f.wf(),
            w == f.width,
            h == f.height,
            wi == w as int,
            hi == h as int,
            pix == f.pixels@,
            1 <= w,
            1 <= h,
            w + BLOCK_SIZE <= usize::MAX,
            h + BLOCK_SIZE <= usize::MAX,
            bw as int == blocks_along(wi),
            bh as int == blocks_along(hi),
            by <= bh,
            out@.len() == by * bw,
            forall|j: int|
                0 <= j < out@.len() ==> out@[j] == rgb_at(
                    wi,
                    pix,
                    (BLOCK_SIZE as int) * (j % (bw as int)),
                    (BLOCK_SIZE as int) * (j / (bw as int)),
                ),
        decreases bh - by,
    {
        let mut bx: usize = 0;
        while bx < bw
            invariant
                f.wf(),
                w == f.width,
                h == f.height,
                wi == w as int,
                hi == h as int,
                pix == f.pixels@,
                1 <= w,
                1 <= h,
                w + BLOCK_SIZE <= usize::MAX,
                h + BLOCK_SIZE <= usize::MAX,
                bw as int == blocks_along(wi),
                bh as int == blocks_along(hi),
                by < bh,
                bx <= bw,
                out@.len() == by * bw + bx,
                forall|j: int|
                    0 <= j < out@.len() ==> out@[j] == rgb_at(
                        wi,
                        pix,
                        (BLOCK_SIZE as int) * (j % (bw as int)),
                        (BLOCK_SIZE as int) * (j / (bw as int)),
                    ),
            decreases bw - bx,
        {
            proof {
                lemma_block_origin_in_bounds(wi, bx as int);
                lemma_block_origin_in_bounds(hi, by as int);
            }
            let p = f.px(BLOCK_SIZE * bx, BLOCK_SIZE * by);
            proof {
                lemma_rowmajor_divmod(bw as int, bx as int, by as int);
            }
            out.push(p);
            bx = bx + 1;
        }
        proof {
            assert((by as int + 1) * (bw as int) == by as int * bw as int + bw as int)
                by (nonlinear_arith);
        }
        by = by + 1;
    }
    proof {
        assert(out@.len() == bh as int * bw as int);
        assert(bh as int * bw as int == bw as int * bh as int) by (nonlinear_arith);
        assert(out@ =~= sample_grid(wi, hi, pix));
    }
    ColorFrame { width: bw, height: bh, pixels: out }
}

} // verus!
