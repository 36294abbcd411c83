//! The smoother: a fixed 3x3 weighted-average kernel over a color frame,
//! with the border replicated, applied before edge detection.

use crate::frame::{clamp_to, lemma_rowmajor_divmod, rgb_at, ColorFrame, Rgb};
use vstd::prelude::*;

verus! {

/// The neighbor of `(x, y)` at offset `(dx, dy)`, with the border replicated.
pub open spec fn nb_rgb(w: int, h: int, pix: Seq<Rgb>, x: int, y: int, dx: int, dy: int) -> Rgb {
    rgb_at(w, pix, clamp_to(x + dx, w - 1), clamp_to(y + dy, h - 1))
}

/// The rounded 3x3 kernel average of nine channel values: corners weigh 1,
/// edges 2, the center 4, sixteen in all.
pub open spec fn kernel_avg(
    a00: int,
    a01: int,
    a02: int,
    a10: int,
    a11: int,
    a12: int,
    a20: int,
    a21: int,
    a22: int,
) -> int {
    (a00 + 2 * a01 + a02 + 2 * a10 + 4 * a11 + 2 * a12 + a20 + 2 * a21 + a22 + 8) / 16
}

/// The smoothed red channel at `(x, y)`.
pub open spec fn blur_r(w: int, h: int, pix: Seq<Rgb>, x: int, y: int) -> int {
    kernel_avg(
        nb_rgb(w, h, pix, x, y, -1, -1).r as int,
        nb_rgb(w, h, pix, x, y, 0, -1).r as int,
        nb_rgb(w, h, pix, x, y, 1, -1).r as int,
        nb_rgb(w, h, pix, x, y, -1, 0).r as int,
        nb_rgb(w, h, pix, x, y, 0, 0).r as int,
        nb_rgb(w, h, pix, x, y, 1, 0).r as int,
        nb_rgb(w, h, pix, x, y, -1, 1).r as int,
        nb_rgb(w, h, pix, x, y, 0, 1).r as int,
        nb_rgb(w, h, pix, x, y, 1, 1).r as int,
    )
}

/// The smoothed green channel at `(x, y)`.
pub open spec fn blur_g(w: int, h: int, pix: Seq<Rgb>, x: int, y: int) -> int {
    kernel_avg(
        nb_rgb(w, h, pix, x, y, -1, -1).g as int,
        nb_rgb(w, h, pix, x, y, 0, -1).g as int,
        nb_rgb(w, h, pix, x, y, 1, -1).g as int,
        nb_rgb(w, h, pix, x, y, -1, 0).g as int,
        nb_rgb(w, h, pix, x, y, 0, 0).g as int,
        nb_rgb(w, h, pix, x, y, 1, 0).g as int,
        nb_rgb(w, h, pix, x, y, -1, 1).g as int,
        nb_rgb(w, h, pix, x, y, 0, 1).g as int,
        nb_rgb(w, h, pix, x, y, 1, 1).g as int,
    )
}

/// The smoothed blue channel at `(x, y)`.
pub open spec fn blur_b(w: int, h: int, pix: Seq<Rgb>, x: int, y: int) -> int {
    kernel_avg(
        nb_rgb(w, h, pix, x, y, -1, -1).b as int,
        nb_rgb(w, h, pix, x, y, 0, -1).b as int,
        nb_rgb(w, h, pix, x, y, 1, -1).b as int,
        nb_rgb(w, h, pix, x, y, -1, 0).b as int,
        nb_rgb(w, h, pix, x, y, 0, 0).b as int,
        nb_rgb(w, h, pix, x, y, 1, 0).b as int,
        nb_rgb(w, h, pix, x, y, -1, 1).b as int,
        nb_rgb(w, h, pix, x, y, 0, 1).b as int,
        nb_rgb(w, h, pix, x, y, 1, 1).b as int,
    )
}

/// The smoothed pixel at `(x, y)`.
pub open spec fn blur_px(w: int, h: int, pix: Seq<Rgb>, x: int, y: int) -> Rgb {
    Rgb {
        r: blur_r(w, h, pix, x, y) as u8,
        g: blur_g(w, h, pix, x, y) as u8,
        b: blur_b(w, h, pix, x, y) as u8,
    }
}

/// The whole smoothed frame, row-major.
pub open spec fn blur_grid(w: int, h: int, pix: Seq<Rgb>) -> Seq<Rgb> {
    Seq::new((w * h) as nat, |i: int| blur_px(w, h, pix, i % w, i / w))
}

/// The rounded 3x3 kernel average, computed in integer arithmetic.
fn kernel_avg_u8(
    a00: u8,
    a01: u8,
    a02: u8,
    a10: u8,
    a11: u8,
    a12: u8,
    a20: u8,
    a21: u8,
    a22: u8,
) -> (v: u8)
    ensures
        v as int == kernel_avg(
            a00 as int,
            a01 as int,
            a02 as int,
            a10 as int,
            a11 as int,
            a12 as int,
            a20 as int,
            a21 as int,
            a22 as int,
        ),
{
    let s: u32 = (a00 as u32) + 2 * (a01 as u32) + (a02 as u32) + 2 * (a10 as u32) + 4 * (
    a11 as u32) + 2 * (a12 as u32) + (a20 as u32) + 2 * (a21 as u32) + (a22 as u32) + 8;
    (s / 16) as u8
}

/// The smoothed pixel at `(x, y)`.
pub fn blur_pixel(f: &ColorFrame, x: usize, y: usize) -> (p: Rgb)
    requires
        f.wf(),
        x < f.width,
        y < f.height,
    ensures
        p == blur_px(f.width as int, f.height as int, f.pixels@, x as int, y as int),
{
    let w: usize = f.width;
    let h: usize = f.height;
    let ghost wi: int = w as int;
    let ghost hi: int = h as int;
    let ghost pix: Seq<Rgb> = f.pixels@;
    let xl: usize = if x > 0 {
        x - 1
    } else {
        0
    };
    let xr: usize = if x + 1 < w {
        x + 1
    } else {
        x
    };
    let yu: usize = if y > 0 {
        y - 1
    } else {
        0
    };
    let yd: usize = if y + 1 < h {
        y + 1
    } else {
        y
    };
    proof {
        assert(xl as int == clamp_to(x as int - 1, wi - 1));
        assert(xr as int == clamp_to(x as int + 1, wi - 1));
        assert(yu as int == clamp_to(y as int - 1, hi - 1));
        assert(yd as int == clamp_to(y as int + 1, hi - 1));
    }
    let p00 = f.px(xl, yu);
    let p01 = f.px(x, yu);
    let p02 = f.px(xr, yu);
    let p10 = f.px(xl, y);
    let p11 = f.px(x, y);
    let p12 = f.px(xr, y);
    let p20 = f.px(xl, yd);
    let p21 = f.px(x, yd);
    let p22 = f.px(xr, yd);
    proof {
        let xi: int = x as int;
        let yi: int = y as int;
        assert(p00 == nb_rgb(wi, hi, pix, xi, yi, -1, -1));
        assert(p01 == nb_rgb(wi, hi, pix, xi, yi, 0, -1));
        assert(p02 == nb_rgb(wi, hi, pix, xi, yi, 1, -1));
        assert(p10 == nb_rgb(wi, hi, pix, xi, yi, -1, 0));
        assert(p11 == nb_rgb(wi, hi, pix, xi, yi, 0, 0));
        assert(p12 == nb_rgb(wi, hi, pix, xi, yi, 1, 0));
        assert(p20 == nb_rgb(wi, hi, pix, xi, yi, -1, 1));
        assert(p21 == nb_rgb(wi, hi, pix, xi, yi, 0, 1));
        assert(p22 == nb_rgb(wi, hi, pix, xi, yi, 1, 1));
    }
    let vr = kernel_avg_u8(p00.r, p01.r, p02.r, p10.r, p11.r, p12.r, p20.r, p21.r, p22.r);
    let vg = kernel_avg_u8(p00.g, p01.g, p02.g, p10.g, p11.g, p12.g, p20.g, p21.g, p22.g);
    let vb = kernel_avg_u8(p00.b, p01.b, p02.b, p10.b, p11.b, p12.b, p20.b, p21.b, p22.b);
    Rgb { r: vr, g: vg, b: vb }
}

/// Smooth a color frame with the 3x3 kernel; dimensions are kept.
pub fn smooth(f: &ColorFrame) -> (r: ColorFrame)
    requires
        f.wf(),
        f.width >= 1,
        f.height >= 1,
    ensures
        r.wf(),
        r.width == f.width,
        r.height == f.height,
        r.pixels@ == blur_grid(f.width as int, f.height as int, f.pixels@),
{
    let w: usize = f.width;
    let h: usize = f.height;
    let ghost wi: int = w as int;
    let ghost hi: int = h as int;
    let ghost pix: Seq<Rgb> = f.pixels@;
    let mut out: Vec<Rgb> = Vec::new();
    let mut y: usize = 0;
    while y < h
        invariant
            f.wf(),
            w == f.width,
            h == f.height,
            wi == w as int,
            hi == h as int,
            pix == f.pixels@,
            1 <= w,
            1 <= h,
            y <= h,
            out@.len() == y * w,
            forall|j: int| 0 <= j < out@.len() ==> out@[j] == blur_px(wi, hi, pix, j % wi, j / wi),
        decreases h - y,
    {
        let mut x: usize = 0;
        while x < w
            invariant
                f.wf(),
                w == f.width,
                h == f.height,
                wi == w as int,
                hi == h as int,
                pix == f.pixels@,
                1 <= w,
                1 <= h,
                y < h,
                x <= w,
                out@.len() == y * w + x,
                forall|j: int|
                    0 <= j < out@.len() ==> out@[j] == blur_px(wi, hi, pix, j % wi, j / wi),
            decreases w - x,
        {
            let px_out = blur_pixel(f, x, y);
            proof {
                lemma_rowmajor_divmod(wi, x as int, y as int);
            }
            out.push(px_out);
            x = x + 1;
        }
        proof {
            assert((y as int + 1) * wi == y as int * wi + wi) by (nonlinear_arith);
        }
        y = y + 1;
    }
    proof {
        assert(out@.len() == h * w);
        assert(h * w == w * h) by (nonlinear_arith);
        assert(out@ =~= blur_grid(wi, hi, pix));
    }
    ColorFrame { width: w, height: h, pixels: out }
}

} // verus!
