//! The gradient analyzer: directional 3x3 derivative kernels over the
//! grayscale frame, a magnitude threshold, an angle bucket per pixel, and
//! a majority vote per block that picks an edge glyph or defers to the
//! luminance fallback.
//!
//! All arithmetic is exact: the magnitude test compares squares, and an
//! angle test against a bucket boundary compares squares too, which the
//! boundary tangents (2 - sqrt 3, 2 + sqrt 3, sqrt 2 - 1, sqrt 2 + 1)
//! make exact over the integers.

use crate::frame::{
    clamp_to, gray_at, lemma_rowmajor_bound, lemma_rowmajor_divmod, pix_index, GrayFrame,
};
use vstd::prelude::*;

verus! {

/// Edge of a square block mapped to one output glyph, in pixels.
pub const BLOCK_SIZE: usize = 4;

/// Square of the gradient-magnitude threshold (15) below which a pixel
/// casts no edge vote.
pub const GRADIENT_THRESHOLD_SQ: i64 = 225;

/// A block emits its winning edge glyph only when the winning count
/// exceeds this (half the block edge, less one).
pub const EDGE_VOTE_MIN: u32 = 1;

/// The absolute value.
pub open spec fn absi(v: int) -> int {
    if v < 0 {
        -v
    } else {
        v
    }
}

/// The squared gradient magnitude.
pub open spec fn mag_sq(gx: int, gy: int) -> int {
    gx * gx + gy * gy
}

/// A pixel casts an edge vote only above the magnitude threshold.
pub open spec fn is_edge(gx: int, gy: int) -> bool {
    mag_sq(gx, gy) > GRADIENT_THRESHOLD_SQ as int
}

/// The counter index a gradient votes for where `gy` is positive, given
/// `ay == |gy| >= 0`. The layout splits the absolute angle in `[0, 180]`
/// degrees at 15 and 75 degrees (and their complements): counter 3, which
/// prints `|`, around the horizontal; 1 (`/`) up to 75 degrees; 0 (`_`)
/// around the vertical; 2 (`\`) for the rest. An angle test `a <= 15`
/// becomes the exact comparison `ay <= gx * (2 - sqrt 3)`, squared.
pub open spec fn bucket_gy_pos(gx: int, ay: int) -> int {
    if (gx > 0 && ay <= 2 * gx && (2 * gx - ay) * (2 * gx - ay) >= 3 * gx * gx) || (gx < 0 && ay
        <= -2 * gx && (-2 * gx - ay) * (-2 * gx - ay) > 3 * gx * gx) {
        3
    } else if gx > 0 && (ay <= 2 * gx || (ay - 2 * gx) * (ay - 2 * gx) <= 3 * gx * gx) {
        1
    } else if !(gx < 0 && (ay <= -2 * gx || (ay + 2 * gx) * (ay + 2 * gx) < 3 * gx * gx)) {
        0
    } else {
        2
    }
}

/// The counter index a gradient votes for where `gy` is not positive. The
/// layout splits at 22.5 and 67.5 degrees, with `tan 22.5 == sqrt 2 - 1`
/// squared away as above, and the two diagonal counters swapped against
/// the other layout: counter 3 (`|`) around the horizontal; 2 (`\`) up to
/// 67.5 degrees; 0 (`_`) around the vertical; 1 (`/`) for the rest. The
/// asymmetry between the layouts is intentional and kept exactly.
pub open spec fn bucket_gy_nonpos(gx: int, ay: int) -> int {
    if (gx > 0 && (ay + gx) * (ay + gx) <= 2 * gx * gx) || (gx < 0 && (ay - gx) * (ay - gx) < 2
        * gx * gx) {
        3
    } else if gx > 0 && (ay <= gx || (ay - gx) * (ay - gx) <= 2 * gx * gx) {
        2
    } else if !(gx < 0 && (ay <= -gx || (ay + gx) * (ay + gx) < 2 * gx * gx)) {
        0
    } else {
        1
    }
}

/// The counter index of one gradient: the sign of `gy` picks the layout.
pub open spec fn bucket_of(gx: int, gy: int) -> int {
    if gy > 0 {
        bucket_gy_pos(gx, gy)
    } else {
        bucket_gy_nonpos(gx, -gy)
    }
}

/// The grayscale neighbor of `(x, y)` at offset `(dx, dy)`, border replicated.
pub open spec fn nb_gray(w: int, h: int, g: Seq<u8>, x: int, y: int, dx: int, dy: int) -> int {
    gray_at(w, g, clamp_to(x + dx, w - 1), clamp_to(y + dy, h - 1)) as int
}

/// The horizontal derivative at `(x, y)`: right column minus left column,
/// the centers doubly weighted.
pub open spec fn grad_x_at(w: int, h: int, g: Seq<u8>, x: int, y: int) -> int {
    (nb_gray(w, h, g, x, y, 1, -1) + 2 * nb_gray(w, h, g, x, y, 1, 0) + nb_gray(w, h, g, x, y, 1, 1))
        - (nb_gray(w, h, g, x, y, -1, -1) + 2 * nb_gray(w, h, g, x, y, -1, 0)
        + nb_gray(w, h, g, x, y, -1, 1))
}

/// The vertical derivative at `(x, y)`: bottom row minus top row, the
/// centers doubly weighted. Rows grow downward.
pub open spec fn grad_y_at(w: int, h: int, g: Seq<u8>, x: int, y: int) -> int {
    (nb_gray(w, h, g, x, y, -1, 1) + 2 * nb_gray(w, h, g, x, y, 0, 1) + nb_gray(w, h, g, x, y, 1, 1))
        - (nb_gray(w, h, g, x, y, -1, -1) + 2 * nb_gray(w, h, g, x, y, 0, -1)
        + nb_gray(w, h, g, x, y, 1, -1))
}

/// The whole horizontal derivative field, row-major.
pub open spec fn grad_x_grid(w: int, h: int, g: Seq<u8>) -> Seq<i32> {
    Seq::new((w * h) as nat, |i: int| grad_x_at(w, h, g, i % w, i / w) as i32)
}

/// The whole vertical derivative field, row-major.
pub open spec fn grad_y_grid(w: int, h: int, g: Seq<u8>) -> Seq<i32> {
    Seq::new((w * h) as nat, |i: int| grad_y_at(w, h, g, i % w, i / w) as i32)
}

/// Both derivative fields of a grayscale frame, in one structure.
#[derive(Clone, Debug)]
pub struct GradientField {
    pub width: usize,
    pub height: usize,
    pub gx: Vec<i32>,
    pub gy: Vec<i32>,
}

impl GradientField {
    /// One value per pixel, each bounded by the largest kernel response.
    pub open spec fn wf(self) -> bool {
        &&& self.gx@.len() == self.width * self.height
        &&& self.gy@.len() == self.width * self.height
        &&& forall|i: int| 0 <= i < self.gx@.len() ==> -1020 <= #[trigger] self.gx@[i] <= 1020
        &&& forall|i: int| 0 <= i < self.gy@.len() ==> -1020 <= #[trigger] self.gy@[i] <= 1020
    }
}

/// A weighted three-pixel difference: one directional kernel column or row.
fn diff3(a0: u8, a1: u8, a2: u8, b0: u8, b1: u8, b2: u8) -> (v: i32)
    ensures
        v as int == ((a0 as int) + 2 * (a1 as int) + (a2 as int)) - ((b0 as int) + 2 * (b1 as int)
            + (b2 as int)),
        -1020 <= v <= 1020,
{
    ((a0 as i32) + 2 * (a1 as i32) + (a2 as i32)) - ((b0 as i32) + 2 * (b1 as i32) + (b2 as i32))
}

/// Both derivatives at `(x, y)`, computed with integer arithmetic.
#[verifier::rlimit(100)]
fn gradient_pixel(f: &GrayFrame, x: usize, y: usize) -> (p: (i32, i32))
    requires
        f.wf(),
        x < f.width,
        y < f.height,
    ensures
        p.0 as int == grad_x_at(f.width as int, f.height as int, f.pixels@, x as int, y as int),
        p.1 as int == grad_y_at(f.width as int, f.height as int, f.pixels@, x as int, y as int),
        -1020 <= p.0 <= 1020,
        -1020 <= p.1 <= 1020,
{
    let w: usize = f.width;
    let h: usize = f.height;
    let ghost wi: int = w as int;
    let ghost hi: int = h as int;
    let ghost gpix: Seq<u8> = f.pixels@;
    let xl: usize = if x > 0 {
        x - 1
    } else {
        0
    };
    let xr: usize = if x + 1 < w {
        x + 1
    } else {
        x
    };
    let yu: usize = if y > 0 {
        y - 1
    } else {
        0
    };
    let yd: usize = if y + 1 < h {
        y + 1
    } else {
        y
    };
    proof {
        assert(xl as int == clamp_to(x as int - 1, wi - 1));
        assert(xr as int == clamp_to(x as int + 1, wi - 1));
        assert(yu as int == clamp_to(y as int - 1, hi - 1));
        assert(yd as int == clamp_to(y as int + 1, hi - 1));
    }
    let p00 = f.px(xl, yu);
    let p01 = f.px(x, yu);
    let p02 = f.px(xr, yu);
    let p10 = f.px(xl, y);
    let p12 = f.px(xr, y);
    let p20 = f.px(xl, yd);
    let p21 = f.px(x, yd);
    let p22 = f.px(xr, yd);
    proof {
        let xi: int = x as int;
        let yi: int = y as int;
        assert(p00 as int == nb_gray(wi, hi, gpix, xi, yi, -1, -1));
        assert(p01 as int == nb_gray(wi, hi, gpix, xi, yi, 0, -1));
        assert(p02 as int == nb_gray(wi, hi, gpix, xi, yi, 1, -1));
        assert(p10 as int == nb_gray(wi, hi, gpix, xi, yi, -1, 0));
        assert(p12 as int == nb_gray(wi, hi, gpix, xi, yi, 1, 0));
        assert(p20 as int == nb_gray(wi, hi, gpix, xi, yi, -1, 1));
        assert(p21 as int == nb_gray(wi, hi, gpix, xi, yi, 0, 1));
        assert(p22 as int == nb_gray(wi, hi, gpix, xi, yi, 1, 1));
    }
    let gx: i32 = diff3(p02, p12, p22, p00, p10, p20);
    let gy: i32 = diff3(p20, p21, p22, p00, p01, p02);
    (gx, gy)
}

/// Compute both derivative fields of a grayscale frame.
pub fn gradients(f: &GrayFrame) -> (g: GradientField)
    requires
        f.wf(),
        f.width >= 1,
        f.height >= 1,
    ensures
        g.wf(),
        g.width == f.width,
        g.height == f.height,
        g.gx@ == grad_x_grid(f.width as int, f.height as int, f.pixels@),
        g.gy@ == grad_y_grid(f.width as int, f.height as int, f.pixels@),
{
    let w: usize = f.width;
    let h: usize = f.height;
    let ghost wi: int = w as int;
    let ghost hi: int = h as int;
    let ghost gpix: Seq<u8> = f.pixels@;
    let mut outx: Vec<i32> = Vec::new();
    let mut outy: Vec<i32> = Vec::new();
    let mut y: usize = 0;
    while y < h
        invariant
            f.wf(),
            w == f.width,
            h == f.height,
            wi == w as int,
            hi == h as int,
            gpix == f.pixels@,
            1 <= w,
            1 <= h,
            y <= h,
            outx@.len() == y * w,
            outy@.len() == y * w,
            forall|j: int|
                0 <= j < outx@.len() ==> outx@[j] as int == grad_x_at(wi, hi, gpix, j % wi, j / wi),
            forall|j: int|
                0 <= j < outy@.len() ==> outy@[j] as int == grad_y_at(wi, hi, gpix, j % wi, j / wi),
            forall|j: int| 0 <= j < outx@.len() ==> -1020 <= #[trigger] outx@[j] <= 1020,
            forall|j: int| 0 <= j < outy@.len() ==> -1020 <= #[trigger] outy@[j] <= 1020,
        decreases h - y,
    {
        let mut x: usize = 0;
        while x < w
            invariant
                f.wf(),
                w == f.width,
                h == f.height,
                wi == w as int,
                hi == h as int,
                gpix == f.pixels@,
                1 <= w,
                1 <= h,
                y < h,
                x <= w,
                outx@.len() == y * w + x,
                outy@.len() == y * w + x,
                forall|j: int|
                    0 <= j < outx@.len() ==> outx@[j] as int == grad_x_at(
                        wi,
                        hi,
                        gpix,
                        j % wi,
                        j / wi,
                    ),
                forall|j: int|
                    0 <= j < outy@.len() ==> outy@[j] as int == grad_y_at(
                        wi,
                        hi,
                        gpix,
                        j % wi,
                        j / wi,
                    ),
                forall|j: int| 0 <= j < outx@.len() ==> -1020 <= #[trigger] outx@[j] <= 1020,
                forall|j: int| 0 <= j < outy@.len() ==> -1020 <= #[trigger] outy@[j] <= 1020,
            decreases w - x,
        {
            let p = gradient_pixel(f, x, y);
            proof {
                lemma_rowmajor_divmod(wi, x as int, y as int);
            }
            outx.push(p.0);
            outy.push(p.1);
            x = x + 1;
        }
        proof {
            assert((y as int + 1) * wi == y as int * wi + wi) by (nonlinear_arith);
        }
        y = y + 1;
    }
    proof {
        assert(outx@.len() == h * w);
        assert(h * w == w * h) by (nonlinear_arith);
        assert(outx@ =~= grad_x_grid(wi, hi, gpix));
        assert(outy@ =~= grad_y_grid(wi, hi, gpix));
    }
    GradientField { width: w, height: h, gx: outx, gy: outy }
}

/// The counter index of one gradient, by exact integer comparisons.
pub fn edge_bucket(gx: i32, gy: i32) -> (b: usize)
    requires
        -1020 <= gx <= 1020,
        -1020 <= gy <= 1020,
    ensures
        b as int == bucket_of(gx as int, gy as int),
        b < 4,
{
    let gxl: i64 = gx as i64;
    let ay: i64 = if gy < 0 {
        -(gy as i64)
    } else {
        gy as i64
    };
    proof {
        let a: int = gxl as int;
        let b: int = ay as int;
        assert((2 * a - b) * (2 * a - b) <= 16000000 && (-2 * a - b) * (-2 * a - b) <= 16000000
            && (b - 2 * a) * (b - 2 * a) <= 16000000 && (b + 2 * a) * (b + 2 * a) <= 16000000
            && (b + a) * (b + a) <= 16000000 && (b - a) * (b - a) <= 16000000 && 0 <= (2 * a) * a
            <= 16000000 && -16000000 <= (3 * a) * a <= 16000000 && (2 * a - b) * (2 * a - b) >= 0
            && (-2 * a - b) * (-2 * a - b) >= 0 && (b - 2 * a) * (b - 2 * a) >= 0 && (b + 2 * a)
            * (b + 2 * a) >= 0 && (b + a) * (b + a) >= 0 && (b - a) * (b - a) >= 0 && -16000000
            <= (2 * a) * a) by (nonlinear_arith)
            requires
                -1020 <= a <= 1020,
                0 <= b <= 1020,
        ;
    }
    if gy > 0 {
        if (gxl > 0 && ay <= 2 * gxl && (2 * gxl - ay) * (2 * gxl - ay) >= 3 * gxl * gxl) || (gxl
            < 0 && ay <= -2 * gxl && (-2 * gxl - ay) * (-2 * gxl - ay) > 3 * gxl * gxl) {
            3
        } else if gxl > 0 && (ay <= 2 * gxl || (ay - 2 * gxl) * (ay - 2 * gxl) <= 3 * gxl * gxl) {
            1
        } else if !(gxl < 0 && (ay <= -2 * gxl || (ay + 2 * gxl) * (ay + 2 * gxl) < 3 * gxl
            * gxl)) {
            0
        } else {
            2
        }
    } else {
        if (gxl > 0 && (ay + gxl) * (ay + gxl) <= 2 * gxl * gxl) || (gxl < 0 && (ay - gxl) * (ay
            - gxl) < 2 * gxl * gxl) {
            3
        } else if gxl > 0 && (ay <= gxl || (ay - gxl) * (ay - gxl) <= 2 * gxl * gxl) {
            2
        } else if !(gxl < 0 && (ay <= -gxl || (ay + gxl) * (ay + gxl) < 2 * gxl * gxl)) {
            0
        } else {
            1
        }
    }
}

/// One edge vote per pixel: 1 when `(x, y)` lies inside the field, its
/// magnitude is above the threshold and its direction falls in bucket `b`.
pub open spec fn vote_px(
    w: int,
    h: int,
    gxs: Seq<i32>,
    gys: Seq<i32>,
    x: int,
    y: int,
    b: int,
) -> int {
    if 0 <= x < w && 0 <= y < h && is_edge(
        gxs[pix_index(w, x, y)] as int,
        gys[pix_index(w, x, y)] as int,
    ) && bucket_of(gxs[pix_index(w, x, y)] as int, gys[pix_index(w, x, y)] as int) == b {
        1
    } else {
        0
    }
}

/// The votes for bucket `b` among the first `n` pixels of the block row
/// starting at `(x0, y)`.
pub open spec fn vote_row(
    w: int,
    h: int,
    gxs: Seq<i32>,
    gys: Seq<i32>,
    y: int,
    x0: int,
    n: int,
    b: int,
) -> int
    decreases n,
{
    if n <= 0 {
        0
    } else {
        vote_row(w, h, gxs, gys, y, x0, n - 1, b) + vote_px(w, h, gxs, gys, x0 + (n - 1), y, b)
    }
}

/// The votes for bucket `b` in the first `m` rows of block `(bx, by)`.
pub open spec fn vote_rows(
    w: int,
    h: int,
    gxs: Seq<i32>,
    gys: Seq<i32>,
    bx: int,
    by: int,
    m: int,
    b: int,
) -> int
    decreases m,
{
    if m <= 0 {
        0
    } else {
        vote_rows(w, h, gxs, gys, bx, by, m - 1, b) + vote_row(
            w,
            h,
            gxs,
            gys,
            (BLOCK_SIZE as int) * by + (m - 1),
            (BLOCK_SIZE as int) * bx,
            BLOCK_SIZE as int,
            b,
        )
    }
}

/// All votes for bucket `b` in block `(bx, by)`: only in-bounds pixels count.
pub open spec fn vote_count(
    w: int,
    h: int,
    gxs: Seq<i32>,
    gys: Seq<i32>,
    bx: int,
    by: int,
    b: int,
) -> int {
    vote_rows(w, h, gxs, gys, bx, by, BLOCK_SIZE as int, b)
}

/// A row of votes counts between zero and its length.
pub proof fn lemma_vote_row_range(
    w: int,
    h: int,
    gxs: Seq<i32>,
    gys: Seq<i32>,
    y: int,
    x0: int,
    n: int,
    b: int,
)
    requires
        n >= 0,
    ensures
        0 <= vote_row(w, h, gxs, gys, y, x0, n, b) <= n,
    decreases n,
{
    if n > 0 {
        lemma_vote_row_range(w, h, gxs, gys, y, x0, n - 1, b);
    }
}

/// A block's vote count is between zero and its pixel count.
pub proof fn lemma_vote_rows_range(
    w: int,
    h: int,
    gxs: Seq<i32>,
    gys: Seq<i32>,
    bx: int,
    by: int,
    m: int,
    b: int,
)
    requires
        m >= 0,
    ensures
        0 <= vote_rows(w, h, gxs, gys, bx, by, m, b) <= (BLOCK_SIZE as int) * m,
    decreases m,
{
    if m > 0 {
        lemma_vote_rows_range(w, h, gxs, gys, bx, by, m - 1, b);
        lemma_vote_row_range(
            w,
            h,
            gxs,
            gys,
            (BLOCK_SIZE as int) * by + (m - 1),
            (BLOCK_SIZE as int) * bx,
            BLOCK_SIZE as int,
            b,
        );
    }
}

/// The glyph of one direction bucket.
#[derive(Clone, Copy, PartialEq, Eq, Structural, Debug)]
pub enum EdgeGlyph {
    /// `|`: the gradient points near the horizontal, the edge is vertical.
    Bar,
    /// `/`: a rising diagonal.
    Slash,
    /// `\`: a falling diagonal.
    Backslash,
    /// `_`: the gradient points near the vertical, the edge is horizontal.
    Underscore,
}

impl EdgeGlyph {
    /// The character this glyph prints as.
    pub open spec fn chr(self) -> char {
        match self {
            EdgeGlyph::Bar => '|',
            EdgeGlyph::Slash => '/',
            EdgeGlyph::Backslash => '\\',
            EdgeGlyph::Underscore => '_',
        }
    }

    /// The character this glyph prints as.
    pub fn as_char(self) -> (c: char)
        ensures
            c == self.chr(),
    {
        match self {
            EdgeGlyph::Bar => '|',
            EdgeGlyph::Slash => '/',
            EdgeGlyph::Backslash => '\\',
            EdgeGlyph::Underscore => '_',
        }
    }
}

/// The glyph of counter index `i`, in the fixed scan order: the counters
/// print as `_`, `/`, `\`, `|`.
pub open spec fn glyph_of_index(i: int) -> EdgeGlyph {
    if i == 0 {
        EdgeGlyph::Underscore
    } else if i == 1 {
        EdgeGlyph::Slash
    } else if i == 2 {
        EdgeGlyph::Backslash
    } else {
        EdgeGlyph::Bar
    }
}

/// The four vote counters of one block, one per direction bucket, in the
/// fixed scan order.
#[derive(Clone, Copy, PartialEq, Eq, Structural, Debug)]
pub struct EdgeVote {
    /// Counter 0, printed as `_`: the gradient lies near the vertical.
    pub underscore: u32,
    /// Counter 1, printed as `/`.
    pub slash: u32,
    /// Counter 2, printed as `\`.
    pub backslash: u32,
    /// Counter 3, printed as `|`: the gradient lies near the horizontal.
    pub bar: u32,
}

impl EdgeVote {
    /// The counter of bucket `b`, in the fixed scan order.
    pub open spec fn count(self, b: int) -> int {
        if b == 0 {
            self.underscore as int
        } else if b == 1 {
            self.slash as int
        } else if b == 2 {
            self.backslash as int
        } else {
            self.bar as int
        }
    }
}

/// The winning bucket: the first of the four counts, in the fixed scan
/// order, that no later count strictly exceeds.
pub open spec fn win_index(v0: int, v1: int, v2: int, v3: int) -> int {
    if v0 >= v1 && v0 >= v2 && v0 >= v3 {
        0
    } else if v1 >= v2 && v1 >= v3 {
        1
    } else if v2 >= v3 {
        2
    } else {
        3
    }
}

/// The decision for block `(bx, by)`: the winning bucket's glyph where its
/// count exceeds the vote threshold, none otherwise.
pub open spec fn block_decision(
    w: int,
    h: int,
    gxs: Seq<i32>,
    gys: Seq<i32>,
    bx: int,
    by: int,
) -> Option<EdgeGlyph> {
    let v0 = vote_count(w, h, gxs, gys, bx, by, 0);
    let v1 = vote_count(w, h, gxs, gys, bx, by, 1);
    let v2 = vote_count(w, h, gxs, gys, bx, by, 2);
    let v3 = vote_count(w, h, gxs, gys, bx, by, 3);
    let win = win_index(v0, v1, v2, v3);
    if vote_count(w, h, gxs, gys, bx, by, win) > EDGE_VOTE_MIN as int {
        Some(glyph_of_index(win))
    } else {
        None
    }
}

/// Blocks along one dimension of `n` pixels: a partial block counts.
pub open spec fn blocks_along(n: int) -> int {
    (n + (BLOCK_SIZE as int) - 1) / (BLOCK_SIZE as int)
}

/// The per-block decisions of a whole field, row-major.
pub open spec fn grid_of(w: int, h: int, gxs: Seq<i32>, gys: Seq<i32>) -> Seq<Option<EdgeGlyph>> {
    Seq::new(
        (blocks_along(w) * blocks_along(h)) as nat,
        |i: int|
            block_decision(w, h, gxs, gys, i % blocks_along(w), i / blocks_along(w)),
    )
}

/// Blocks along one dimension of `n` pixels.
pub fn blocks_len(n: usize) -> (r: usize)
    requires
        n + BLOCK_SIZE <= usize::MAX,
    ensures
        r as int == blocks_along(n as int),
{
    (n + (BLOCK_SIZE - 1)) / BLOCK_SIZE
}

/// Count the votes of block `(bx, by)` over its in-bounds pixels.
pub fn block_vote(g: &GradientField, bx: usize, by: usize) -> (v: EdgeVote)
    requires
        g.wf(),
        (bx as int) < blocks_along(g.width as int),
        (by as int) < blocks_along(g.height as int),
        g.width + BLOCK_SIZE <= usize::MAX,
        g.height + BLOCK_SIZE <= usize::MAX,
    ensures
        forall|b: int|
            0 <= b < 4 ==> #[trigger] v.count(b) == vote_count(
                g.width as int,
                g.height as int,
                g.gx@,
                g.gy@,
                bx as int,
                by as int,
                b,
            ),
{
    let w: usize = g.width;
    let h: usize = g.height;
    let ghost wi: int = w as int;
    let ghost hi: int = h as int;
    let ghost gxs: Seq<i32> = g.gx@;
    let ghost gys: Seq<i32> = g.gy@;
    let ghost bxi: int = bx as int;
    let ghost byi: int = by as int;
    let mut c0: u32 = 0;
    let mut c1: u32 = 0;
    let mut c2: u32 = 0;
    let mut c3: u32 = 0;
    let mut ky: usize = 0;
    while ky < BLOCK_SIZE
        invariant
            g.wf(),
            w == g.width,
            h == g.height,
            wi == w as int,
            hi == h as int,
            gxs == g.gx@,
            gys == g.gy@,
            bxi == bx as int,
            byi == by as int,
            bxi < blocks_along(wi),
            byi < blocks_along(hi),
            w + BLOCK_SIZE <= usize::MAX,
            h + BLOCK_SIZE <= usize::MAX,
            ky <= BLOCK_SIZE,
            c0 as int == vote_rows(wi, hi, gxs, gys, bxi, byi, ky as int, 0),
            c1 as int == vote_rows(wi, hi, gxs, gys, bxi, byi, ky as int, 1),
            c2 as int == vote_rows(wi, hi, gxs, gys, bxi, byi, ky as int, 2),
            c3 as int == vote_rows(wi, hi, gxs, gys, bxi, byi, ky as int, 3),
        decreases BLOCK_SIZE - ky,
    {
        let ghost yi: int = (BLOCK_SIZE as int) * byi + ky as int;
        let ghost x0: int = (BLOCK_SIZE as int) * bxi;
        let mut kx: usize = 0;
        while kx < BLOCK_SIZE
            invariant
                g.wf(),
                w == g.width,
                h == g.height,
                wi == w as int,
                hi == h as int,
                gxs == g.gx@,
                gys == g.gy@,
                bxi == bx as int,
                byi == by as int,
                bxi < blocks_along(wi),
                byi < blocks_along(hi),
                w + BLOCK_SIZE <= usize::MAX,
                h + BLOCK_SIZE <= usize::MAX,
                ky < BLOCK_SIZE,
                kx <= BLOCK_SIZE,
                yi == (BLOCK_SIZE as int) * byi + ky as int,
                x0 == (BLOCK_SIZE as int) * bxi,
                c0 as int == vote_rows(wi, hi, gxs, gys, bxi, byi, ky as int, 0) + vote_row(
                    wi,
                    hi,
                    gxs,
                    gys,
                    yi,
                    x0,
                    kx as int,
                    0,
                ),
                c1 as int == vote_rows(wi, hi, gxs, gys, bxi, byi, ky as int, 1) + vote_row(
                    wi,
                    hi,
                    gxs,
                    gys,
                    yi,
                    x0,
                    kx as int,
                    1,
                ),
                c2 as int == vote_rows(wi, hi, gxs, gys, bxi, byi, ky as int, 2) + vote_row(
                    wi,
                    hi,
                    gxs,
                    gys,
                    yi,
                    x0,
                    kx as int,
                    2,
                ),
                c3 as int == vote_rows(wi, hi, gxs, gys, bxi, byi, ky as int, 3) + vote_row(
                    wi,
                    hi,
                    gxs,
                    gys,
                    yi,
                    x0,
                    kx as int,
                    3,
                ),
            decreases BLOCK_SIZE - kx,
        {
            proof {
                lemma_vote_rows_range(wi, hi, gxs, gys, bxi, byi, ky as int, 0);
                lemma_vote_rows_range(wi, hi, gxs, gys, bxi, byi, ky as int, 1);
                lemma_vote_rows_range(wi, hi, gxs, gys, bxi, byi, ky as int, 2);
                lemma_vote_rows_range(wi, hi, gxs, gys, bxi, byi, ky as int, 3);
                lemma_vote_row_range(wi, hi, gxs, gys, yi, x0, kx as int, 0);
                lemma_vote_row_range(wi, hi, gxs, gys, yi, x0, kx as int, 1);
                lemma_vote_row_range(wi, hi, gxs, gys, yi, x0, kx as int, 2);
                lemma_vote_row_range(wi, hi, gxs, gys, yi, x0, kx as int, 3);
            }
            let x: usize = BLOCK_SIZE * bx + kx;
            let y: usize = BLOCK_SIZE * by + ky;
            let ghost xi: int = x as int;
            if x < w && y < h {
                proof {
                    lemma_rowmajor_bound(wi, hi, xi, y as int);
                }
                let n: usize = g.gx.len();
                let gxv: i32 = g.gx[y * w + x];
                let gyv: i32 = g.gy[y * w + x];
                proof {
                    assert(-1020 <= gxv <= 1020);
                    assert(-1020 <= gyv <= 1020);
                    assert(0 <= (gxv as int) * (gxv as int) <= 1020 * 1020) by (nonlinear_arith)
                        requires
                            -1020 <= gxv <= 1020,
                    ;
                    assert(0 <= (gyv as int) * (gyv as int) <= 1020 * 1020) by (nonlinear_arith)
                        requires
                            -1020 <= gyv <= 1020,
                    ;
                }
                let m2: i64 = (gxv as i64) * (gxv as i64) + (gyv as i64) * (gyv as i64);
                proof {
                    assert(m2 as int == mag_sq(gxv as int, gyv as int));
                }
                if m2 > GRADIENT_THRESHOLD_SQ {
                    let b: usize = edge_bucket(gxv, gyv);
                    if b == 0 {
                        c0 = c0 + 1;
                    } else if b == 1 {
                        c1 = c1 + 1;
                    } else if b == 2 {
                        c2 = c2 + 1;
                    } else {
                        c3 = c3 + 1;
                    }
                }
            }
            kx = kx + 1;
        }
        ky = ky + 1;
    }
    EdgeVote { underscore: c0, slash: c1, backslash: c2, bar: c3 }
}

/// The winning bucket of one vote: its index in the fixed scan order and
/// its count. Ties resolve to the lowest index.
pub fn vote_winner(v: &EdgeVote) -> (r: (usize, u32))
    ensures
        r.0 as int == win_index(v.count(0), v.count(1), v.count(2), v.count(3)),
        r.1 as int == v.count(r.0 as int),
{
    let mut best: usize = 0;
    let mut maxv: u32 = v.underscore;
    if v.slash > maxv {
        best = 1;
        maxv = v.slash;
    }
    if v.backslash > maxv {
        best = 2;
        maxv = v.backslash;
    }
    if v.bar > maxv {
        best = 3;
        maxv = v.bar;
    }
    (best, maxv)
}

/// Decide one block: its winning edge glyph, or none below the threshold.
pub fn classify_block(g: &GradientField, bx: usize, by: usize) -> (d: Option<EdgeGlyph>)
    requires
        g.wf(),
        (bx as int) < blocks_along(g.width as int),
        (by as int) < blocks_along(g.height as int),
        g.width + BLOCK_SIZE <= usize::MAX,
        g.height + BLOCK_SIZE <= usize::MAX,
    ensures
        d == block_decision(
            g.width as int,
            g.height as int,
            g.gx@,
            g.gy@,
            bx as int,
            by as int,
        ),
{
    let v = block_vote(g, bx, by);
    let (win, maxv) = vote_winner(&v);
    if maxv > EDGE_VOTE_MIN {
        if win == 0 {
            Some(EdgeGlyph::Underscore)
        } else if win == 1 {
            Some(EdgeGlyph::Slash)
        } else if win == 2 {
            Some(EdgeGlyph::Backslash)
        } else {
            Some(EdgeGlyph::Bar)
        }
    } else {
        None
    }
}

/// Decide every block of the field, row-major.
pub fn edge_grid(g: &GradientField) -> (grid: Vec<Option<EdgeGlyph>>)
    requires
        g.wf(),
        g.width + BLOCK_SIZE <= usize::MAX,
        g.height + BLOCK_SIZE <= usize::MAX,
    ensures
        grid@ == grid_of(g.width as int, g.height as int, g.gx@, g.gy@),
{
    let w: usize = g.width;
    let h: usize = g.height;
    let ghost wi: int = w as int;
    let ghost hi: int = h as int;
    let ghost gxs: Seq<i32> = g.gx@;
    let ghost gys: Seq<i32> = g.gy@;
    let bw: usize = blocks_len(w);
    let bh: usize = blocks_len(h);
    let mut grid: Vec<Option<EdgeGlyph>> = Vec::new();
    let mut by: usize = 0;
    while by < bh
        invariant
            g.wf(),
            w == g.width,
            h == g.height,
            wi == w as int,
            hi == h as int,
            gxs == g.gx@,
            gys == g.gy@,
            w + BLOCK_SIZE <= usize::MAX,
            h + BLOCK_SIZE <= usize::MAX,
            bw as int == blocks_along(wi),
            bh as int == blocks_along(hi),
            by <= bh,
            grid@.len() == by * bw,
            forall|j: int|
                0 <= j < grid@.len() ==> grid@[j] == block_decision(
                    wi,
                    hi,
                    gxs,
                    gys,
                    j % (bw as int),
                    j / (bw as int),
                ),
        decreases bh - by,
    {
        let mut bx: usize = 0;
        while bx < bw
            invariant
                g.wf(),
                w == g.width,
                h == g.height,
                wi == w as int,
                hi == h as int,
                gxs == g.gx@,
                gys == g.gy@,
                w + BLOCK_SIZE <= usize::MAX,
                h + BLOCK_SIZE <= usize::MAX,
                bw as int == blocks_along(wi),
                bh as int == blocks_along(hi),
                by < bh,
                bx <= bw,
                grid@.len() == by * bw + bx,
                forall|j: int|
                    0 <= j < grid@.len() ==> grid@[j] == block_decision(
                        wi,
                        hi,
                        gxs,
                        gys,
                        j % (bw as int),
                        j / (bw as int),
                    ),
            decreases bw - bx,
        {
            let d = classify_block(g, bx, by);
            proof {
                lemma_rowmajor_divmod(bw as int, bx as int, by as int);
            }
            grid.push(d);
            bx = bx + 1;
        }
        proof {
            assert((by as int + 1) * (bw as int) == by as int * bw as int + bw as int)
                by (nonlinear_arith);
        }
        by = by + 1;
    }
    proof {
        assert(grid@.len() == bh as int * bw as int);
        assert(bh as int * bw as int == bw as int * bh as int) by (nonlinear_arith);
        assert(grid@ =~= grid_of(wi, hi, gxs, gys));
    }
    grid
}


/// `v` capped at 255.
pub open spec fn sat255(v: int) -> int {
    if v > 255 {
        255
    } else {
        v
    }
}

/// The displayed magnitude of one gradient: each component saturated to a
/// channel, both scaled by four fifths, rounded, and capped again.
pub open spec fn mag_px(gx: int, gy: int) -> int {
    sat255((8 * (sat255(absi(gx)) + sat255(absi(gy))) + 5) / 10)
}

/// The whole magnitude image of a field, value for value.
pub open spec fn mag_grid(gxs: Seq<i32>, gys: Seq<i32>) -> Seq<u8> {
    Seq::new(gxs.len(), |i: int| mag_px(gxs[i] as int, gys[i] as int) as u8)
}

/// Render the gradient field as a visible magnitude image.
pub fn magnitude_image(g: &GradientField) -> (m: GrayFrame)
    requires
        g.wf(),
    ensures
        m.wf(),
        m.width == g.width,
        m.height == g.height,
        m.pixels@ == mag_grid(g.gx@, g.gy@),
{
    let n: usize = g.gx.len();
    let mut out: Vec<u8> = Vec::new();
    let mut i: usize = 0;
    while i < n
        invariant
            g.wf(),
            n == g.gx@.len(),
            n == g.gy@.len(),
            i <= n,
            out@.len() == i,
            forall|j: int|
                0 <= j < i ==> out@[j] == mag_px(g.gx@[j] as int, g.gy@[j] as int) as u8,
        decreases n - i,
    {
        let gxv: i32 = g.gx[i];
        let gyv: i32 = g.gy[i];
        let ax: i32 = if gxv < 0 {
            -gxv
        } else {
            gxv
        };
        let ay: i32 = if gyv < 0 {
            -gyv
        } else {
            gyv
        };
        let sx: i32 = if ax > 255 {
            255
        } else {
            ax
        };
        let sy: i32 = if ay > 255 {
            255
        } else {
            ay
        };
        let v: i32 = (8 * (sx + sy) + 5) / 10;
        let vv: i32 = if v > 255 {
            255
        } else {
            v
        };
        out.push(vv as u8);
        i = i + 1;
    }
    proof {
        assert(out@ =~= mag_grid(g.gx@, g.gy@));
    }
    GrayFrame { width: g.width, height: g.height, pixels: out }
}

/// A row of a quiet block casts no vote.
proof fn lemma_quiet_row(
    w: int,
    h: int,
    gxs: Seq<i32>,
    gys: Seq<i32>,
    y: int,
    x0: int,
    n: int,
    b: int,
)
    requires
        forall|x: int|
            x0 <= x < x0 + n && 0 <= x < w && 0 <= y < h ==> !is_edge(
                #[trigger] gxs[pix_index(w, x, y)] as int,
                gys[pix_index(w, x, y)] as int,
            ),
    ensures
        vote_row(w, h, gxs, gys, y, x0, n, b) == 0,
    decreases n,
{
    if n > 0 {
        lemma_quiet_row(w, h, gxs, gys, y, x0, n - 1, b);
    }
}

/// Law: a block whose in-bounds pixels all lie below the gradient
/// threshold casts no vote at all, and its decision defers to the
/// luminance fallback, never an edge glyph.
pub proof fn lemma_quiet_block_no_edge(
    w: int,
    h: int,
    gxs: Seq<i32>,
    gys: Seq<i32>,
    bx: int,
    by: int,
)
    requires
        forall|x: int, y: int|
            (BLOCK_SIZE as int) * bx <= x < (BLOCK_SIZE as int) * (bx + 1) && (BLOCK_SIZE as int)
                * by <= y < (BLOCK_SIZE as int) * (by + 1) && 0 <= x < w && 0 <= y < h ==> !is_edge(
                #[trigger] gxs[pix_index(w, x, y)] as int,
                gys[pix_index(w, x, y)] as int,
            ),
    ensures
        block_decision(w, h, gxs, gys, bx, by) is None,
{
    assert forall|b: int| #[trigger] vote_count(w, h, gxs, gys, bx, by, b) == 0 by {
        assert forall|m: int| 0 <= m <= BLOCK_SIZE as int implies #[trigger] vote_rows(
            w,
            h,
            gxs,
            gys,
            bx,
            by,
            m,
            b,
        ) == 0 by {
            lemma_quiet_rows(w, h, gxs, gys, bx, by, m, b);
        }
    }
}

/// The first `m` rows of a quiet block cast no vote.
proof fn lemma_quiet_rows(
    w: int,
    h: int,
    gxs: Seq<i32>,
    gys: Seq<i32>,
    bx: int,
    by: int,
    m: int,
    b: int,
)
    requires
        m <= BLOCK_SIZE as int,
        forall|x: int, y: int|
            (BLOCK_SIZE as int) * bx <= x < (BLOCK_SIZE as int) * (bx + 1) && (BLOCK_SIZE as int)
                * by <= y < (BLOCK_SIZE as int) * (by + 1) && 0 <= x < w && 0 <= y < h ==> !is_edge(
                #[trigger] gxs[pix_index(w, x, y)] as int,
                gys[pix_index(w, x, y)] as int,
            ),
    ensures
        vote_rows(w, h, gxs, gys, bx, by, m, b) == 0,
    decreases m,
{
    if m > 0 {
        lemma_quiet_rows(w, h, gxs, gys, bx, by, m - 1, b);
        lemma_quiet_row(
            w,
            h,
            gxs,
            gys,
            (BLOCK_SIZE as int) * by + (m - 1),
            (BLOCK_SIZE as int) * bx,
            BLOCK_SIZE as int,
            b,
        );
    }
}

/// Law: the two bucket layouts agree at the cardinal gradient directions.
/// A purely horizontal gradient (angle 0 or 180 degrees) falls in counter
/// 3 of either layout and prints `|`, a vertical edge; a purely vertical
/// one (angle 90 degrees) falls in counter 0 of either layout and prints
/// `_`, a horizontal edge.
pub proof fn lemma_cardinal_agreement(gx: int, gy: int)
    requires
        gx == 0 || gy == 0,
        !(gx == 0 && gy == 0),
    ensures
        gy == 0 ==> bucket_gy_pos(gx, 0) == 3 && bucket_gy_nonpos(gx, 0) == 3 && bucket_of(gx, gy)
            == 3 && glyph_of_index(bucket_of(gx, gy)) == EdgeGlyph::Bar,
        gx == 0 ==> bucket_gy_pos(0, absi(gy)) == 0 && bucket_gy_nonpos(0, absi(gy)) == 0
            && bucket_of(gx, gy) == 0 && glyph_of_index(bucket_of(gx, gy))
            == EdgeGlyph::Underscore,
{
    if gy == 0 {
        let t: int = gx * gx;
        assert(t > 0) by (nonlinear_arith)
            requires
                gx != 0,
                t == gx * gx,
        ;
        assert((2 * gx - 0) * (2 * gx - 0) == 4 * t && (-2 * gx - 0) * (-2 * gx - 0) == 4 * t && (0
            + gx) * (0 + gx) == t && (0 - gx) * (0 - gx) == t && (3 * gx) * gx == 3 * t && (2 * gx)
            * gx == 2 * t) by (nonlinear_arith)
            requires
                t == gx * gx,
        ;
    }
}

/// Law: equal top counts resolve to the lowest-indexed bucket in the fixed
/// scan order; the winner is the strictly-first maximum.
pub proof fn lemma_vote_tiebreak(v0: int, v1: int, v2: int, v3: int)
    ensures
        win_index(v0, v1, v2, v3) == 0 ==> v0 >= v1 && v0 >= v2 && v0 >= v3,
        win_index(v0, v1, v2, v3) == 1 ==> v1 > v0 && v1 >= v2 && v1 >= v3,
        win_index(v0, v1, v2, v3) == 2 ==> v2 > v0 && v2 > v1 && v2 >= v3,
        win_index(v0, v1, v2, v3) == 3 ==> v3 > v0 && v3 > v1 && v3 > v2,
{
}


} // verus!
