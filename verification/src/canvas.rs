//! The debug compositor: the original, smoothed, grayscale and
//! gradient-magnitude frames arranged on one canvas of double width and
//! double height. Single-channel sources are expanded to three channels;
//! nothing else is transformed.

use crate::frame::{gray_at, lemma_rowmajor_bound, lemma_rowmajor_divmod, rgb_at, ColorFrame,
    GrayFrame, Rgb};
use vstd::prelude::*;

verus! {

/// The canvas pixel at `(x, y)`: top-left the original, top-right the
/// smoothed frame, bottom-left the grayscale, bottom-right the magnitude,
/// the gray values copied into all three channels.
pub open spec fn canvas_px(
    w: int,
    h: int,
    orig: Seq<Rgb>,
    sm: Seq<Rgb>,
    gray: Seq<u8>,
    mag: Seq<u8>,
    x: int,
    y: int,
) -> Rgb {
    if x < w && y < h {
        rgb_at(w, orig, x, y)
    } else if x >= w && y < h {
        rgb_at(w, sm, x - w, y)
    } else if x < w {
        let v = gray_at(w, gray, x, y - h);
        Rgb { r: v, g: v, b: v }
    } else {
        let v = gray_at(w, mag, x - w, y - h);
        Rgb { r: v, g: v, b: v }
    }
}

/// The whole canvas, row-major at double width.
pub open spec fn canvas_grid(
    w: int,
    h: int,
    orig: Seq<Rgb>,
    sm: Seq<Rgb>,
    gray: Seq<u8>,
    mag: Seq<u8>,
) -> Seq<Rgb> {
    Seq::new(
        (4 * w * h) as nat,
        |i: int| canvas_px(w, h, orig, sm, gray, mag, i % (2 * w), i / (2 * w)),
    )
}

/// Arrange the four pipeline stages on one canvas.
pub fn combine(orig: &ColorFrame, sm: &ColorFrame, gray: &GrayFrame, mag: &GrayFrame) -> (c:
    ColorFrame)
    requires
        orig.wf(),
        sm.wf(),
        gray.wf(),
        mag.wf(),
        sm.width == orig.width,
        sm.height == orig.height,
        gray.width == orig.width,
        gray.height == orig.height,
        mag.width == orig.width,
        mag.height == orig.height,
        orig.width >= 1,
        orig.height >= 1,
        4 * (orig.width as int) * (orig.height as int) <= usize::MAX as int,
    ensures
        c.wf(),
        c.width == 2 * orig.width,
        c.height == 2 * orig.height,
        c.pixels@ == canvas_grid(
            orig.width as int,
            orig.height as int,
            orig.pixels@,
            sm.pixels@,
            gray.pixels@,
            mag.pixels@,
        ),
{
    let w: usize = orig.width;
    let h: usize = orig.height;
    let ghost wi: int = w as int;
    let ghost hi: int = h as int;
    proof {
        assert(2 * wi <= 4 * wi * hi && 2 * hi <= 4 * wi * hi && (2 * wi) * (2 * hi) == 4 * wi
            * hi) by (nonlinear_arith)
            requires
                wi >= 1,
                hi >= 1,
        ;
    }
    let w2: usize = 2 * w;
    let h2: usize = 2 * h;
    let mut out: Vec<Rgb> = Vec::new();
    let mut y: usize = 0;
    while y < h2
        invariant
            orig.wf(),
            sm.wf(),
            gray.wf(),
            mag.wf(),
            w == orig.width,
            h == orig.height,
            sm.width == w,
            sm.height == h,
            gray.width == w,
            gray.height == h,
            mag.width == w,
            mag.height == h,
            wi == w as int,
            hi == h as int,
            1 <= w,
            1 <= h,
            4 * wi * hi <= usize::MAX as int,
            w2 == 2 * w,
            h2 == 2 * h,
            y <= h2,
            out@.len() == y * w2,
            forall|j: int|
                0 <= j < out@.len() ==> out@[j] == canvas_px(
                    wi,
                    hi,
                    orig.pixels@,
                    sm.pixels@,
                    gray.pixels@,
                    mag.pixels@,
                    j % (w2 as int),
                    j / (w2 as int),
                ),
        decreases h2 - y,
    {
        let mut x: usize = 0;
        while x < w2
            invariant
                orig.wf(),
                sm.wf(),
                gray.wf(),
                mag.wf(),
                w == orig.width,
                h == orig.height,
                sm.width == w,
                sm.height == h,
                gray.width == w,
                gray.height == h,
                mag.width == w,
                mag.height == h,
                wi == w as int,
                hi == h as int,
                1 <= w,
                1 <= h,
                4 * wi * hi <= usize::MAX as int,
                w2 == 2 * w,
                h2 == 2 * h,
                y < h2,
                x <= w2,
                out@.len() == y * w2 + x,
                forall|j: int|
                    0 <= j < out@.len() ==> out@[j] == canvas_px(
                        wi,
                        hi,
                        orig.pixels@,
                        sm.pixels@,
                        gray.pixels@,
                        mag.pixels@,
                        j % (w2 as int),
                        j / (w2 as int),
                    ),
            decreases w2 - x,
        {
            let p: Rgb = if x < w && y < h {
                orig.px(x, y)
            } else if x >= w && y < h {
                sm.px(x - w, y)
            } else if x < w {
                let v = gray.px(x, y - h);
                Rgb { r: v, g: v, b: v }
            } else {
                let v = mag.px(x - w, y - h);
                Rgb { r: v, g: v, b: v }
            };
            proof {
                assert(p == canvas_px(
                    wi,
                    hi,
                    orig.pixels@,
                    sm.pixels@,
                    gray.pixels@,
                    mag.pixels@,
                    x as int,
                    y as int,
                ));
                lemma_rowmajor_bound(w2 as int, h2 as int, x as int, y as int);
                lemma_rowmajor_divmod(w2 as int, x as int, y as int);
            }
            out.push(p);
            x = x + 1;
        }
        proof {
            assert((y as int + 1) * (w2 as int) == y as int * w2 as int + w2 as int)
                by (nonlinear_arith);
        }
        y = y + 1;
    }
    proof {
        assert(out@.len() == h2 as int * w2 as int);
        assert(h2 as int * w2 as int == 4 * wi * hi) by (nonlinear_arith)
            requires
                w2 as int == 2 * wi,
                h2 as int == 2 * hi,
        ;
        assert(out@ =~= canvas_grid(wi, hi, orig.pixels@, sm.pixels@, gray.pixels@, mag.pixels@));
    }
    ColorFrame { width: w2, height: h2, pixels: out }
}

} // verus!
