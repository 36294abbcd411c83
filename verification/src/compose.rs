//! The glyph composer: one colored glyph per block, row-major with a
//! newline per row. A block prints its winning edge glyph; without one it
//! prints the luminance-ramp glyph of its sampled color. Every glyph is
//! preceded by the terminal foreground-color escape sequence of that color
//! and followed by one space.

use crate::frame::{lemma_rowmajor_bound, pix_index, ColorFrame, Rgb};
use crate::gradient::is_edge;
use crate::gradient::{block_decision, lemma_quiet_block_no_edge, EdgeGlyph, BLOCK_SIZE};
use crate::text::{dec_chars, push_decimal};
use vstd::arithmetic::div_mod::lemma_div_is_ordered;
use vstd::prelude::*;
use vstd::string::StrSliceExecFns;

verus! {

/// The luminance ramp: seventy glyphs from dense to sparse. Index 0 stands
/// for luminance 0 and the last index for full luminance.
pub open spec fn ramp_seq() -> Seq<char> {
    "$@B%8&WM#*oahkbdpqwmZO0QLCJUYXzcvunxrjft/\\|()1{}[]?-_+~<>i!lI;:,\"^`'. "@
}

/// A block's luminance, in ten-thousandths: the perceptual weights 0.2126,
/// 0.7152 and 0.0722 applied to the sampled color.
pub open spec fn luma_num(c: Rgb) -> int {
    2126 * (c.r as int) + 7152 * (c.g as int) + 722 * (c.b as int)
}

/// The ramp index of a luminance in ten-thousandths: the luminance share
/// of 255, scaled onto the 69 ramp steps and rounded to nearest.
pub open spec fn ramp_index_of(ln: int) -> int {
    (138 * ln + 2550000) / 5100000
}

/// Law: the ramp index is monotone in luminance; luminance zero maps to
/// the first ramp glyph, full luminance to the last.
pub proof fn lemma_ramp_monotone(l1: int, l2: int)
    requires
        0 <= l1 <= l2 <= 2550000,
    ensures
        ramp_index_of(l1) <= ramp_index_of(l2),
        ramp_index_of(0) == 0,
        ramp_index_of(2550000) == 69,
{
    lemma_div_is_ordered(138 * l1 + 2550000, 138 * l2 + 2550000, 5100000);
}

/// The ramp index of one sampled color.
pub fn ramp_index_for(c: Rgb) -> (i: usize)
    ensures
        i as int == ramp_index_of(luma_num(c)),
        i < 70,
{
    let ln: u32 = 2126 * (c.r as u32) + 7152 * (c.g as u32) + 722 * (c.b as u32);
    let idx: u32 = (138 * ln + 2550000) / 5100000;
    proof {
        lemma_div_is_ordered(138 * (ln as int) + 2550000, 354450000int, 5100000);
    }
    idx as usize
}

/// The character a cell prints: the edge glyph where one won the block's
/// vote, the ramp glyph of the block's luminance otherwise.
pub open spec fn cell_glyph(c: Rgb, d: Option<EdgeGlyph>) -> char {
    match d {
        Some(e) => e.chr(),
        None => ramp_seq()[ramp_index_of(luma_num(c))],
    }
}

/// The character a cell prints.
pub fn cell_glyph_char(c: Rgb, d: Option<EdgeGlyph>) -> (ch: char)
    ensures
        ch == cell_glyph(c, d),
{
    match d {
        Some(e) => e.as_char(),
        None => {
            let ramp: &str = "$@B%8&WM#*oahkbdpqwmZO0QLCJUYXzcvunxrjft/\\|()1{}[]?-_+~<>i!lI;:,\"^`'. ";
            proof {
                reveal_strlit(
                    "$@B%8&WM#*oahkbdpqwmZO0QLCJUYXzcvunxrjft/\\|()1{}[]?-_+~<>i!lI;:,\"^`'. ",
                );
                assert(ramp@.len() == 70);
            }
            let idx: usize = ramp_index_for(c);
            ramp.get_char(idx)
        },
    }
}


/// Law: a block whose in-bounds pixels all lie below the gradient
/// threshold prints the luminance-ramp glyph of its sampled color, never
/// an edge glyph.
pub proof fn lemma_quiet_block_prints_ramp(
    w: int,
    h: int,
    gxs: Seq<i32>,
    gys: Seq<i32>,
    bx: int,
    by: int,
    c: Rgb,
)
    requires
        forall|x: int, y: int|
            (BLOCK_SIZE as int) * bx <= x < (BLOCK_SIZE as int) * (bx + 1) && (BLOCK_SIZE as int)
                * by <= y < (BLOCK_SIZE as int) * (by + 1) && 0 <= x < w && 0 <= y < h ==> !is_edge(
                #[trigger] gxs[pix_index(w, x, y)] as int,
                gys[pix_index(w, x, y)] as int,
            ),
    ensures
        cell_glyph(c, block_decision(w, h, gxs, gys, bx, by)) == ramp_seq()[ramp_index_of(
            luma_num(c),
        )],
{
    lemma_quiet_block_no_edge(w, h, gxs, gys, bx, by);
}

/// The terminal escape sequence that sets the foreground color: an escape
/// byte, then `[38;2;`, the three decimal channels separated by `;`, and
/// a final `m`.
pub open spec fn color_prefix(c: Rgb) -> Seq<char> {
    seq!['\x1b', '[', '3', '8', ';', '2', ';'] + dec_chars(c.r as int) + seq![';'] + dec_chars(
        c.g as int,
    ) + seq![';'] + dec_chars(c.b as int) + seq!['m']
}

/// All characters of one cell: the color prefix, the glyph, one space.
pub open spec fn cell_chars(c: Rgb, d: Option<EdgeGlyph>) -> Seq<char> {
    color_prefix(c) + seq![cell_glyph(c, d), ' ']
}

/// Append one cell's characters to `out`.
pub fn push_cell(out: &mut String, c: Rgb, d: Option<EdgeGlyph>)
    ensures
        final(out)@ == old(out)@ + cell_chars(c, d),
{
    out.push('\x1b');
    out.push('[');
    out.push('3');
    out.push('8');
    out.push(';');
    out.push('2');
    out.push(';');
    push_decimal(out, c.r);
    out.push(';');
    push_decimal(out, c.g);
    out.push(';');
    push_decimal(out, c.b);
    out.push('m');
    proof {
        assert(out@ =~= old(out)@ + color_prefix(c));
    }
    let g = cell_glyph_char(c, d);
    out.push(g);
    out.push(' ');
    proof {
        assert(out@ =~= old(out)@ + cell_chars(c, d));
    }
}

/// The characters of the first `n` cells of row `y`.
pub open spec fn row_chars(
    w: int,
    pix: Seq<Rgb>,
    grid: Seq<Option<EdgeGlyph>>,
    y: int,
    n: int,
) -> Seq<char>
    decreases n,
{
    if n <= 0 {
        Seq::empty()
    } else {
        row_chars(w, pix, grid, y, n - 1) + cell_chars(
            pix[pix_index(w, n - 1, y)],
            grid[pix_index(w, n - 1, y)],
        )
    }
}

/// The characters of the first `m` rows, each closed by a newline.
pub open spec fn rows_chars(
    w: int,
    pix: Seq<Rgb>,
    grid: Seq<Option<EdgeGlyph>>,
    m: int,
) -> Seq<char>
    decreases m,
{
    if m <= 0 {
        Seq::empty()
    } else {
        rows_chars(w, pix, grid, m - 1) + row_chars(w, pix, grid, m - 1, w) + seq!['\n']
    }
}

/// The whole composed text of a sampled frame and its decision grid.
pub open spec fn glyph_text(w: int, h: int, pix: Seq<Rgb>, grid: Seq<Option<EdgeGlyph>>) -> Seq<
    char,
> {
    rows_chars(w, pix, grid, h)
}

/// What stops a frame from rendering.
#[derive(Clone, Copy, PartialEq, Eq, Structural, Debug)]
pub enum RenderError {
    /// The decision grid and the sampled color grid disagree in size.
    GridMismatch,
}

/// Compose the output text: one colored glyph per block, rows separated by
/// newlines. A grid that does not match the sampled frame in size is
/// rejected, never rendered partially.
pub fn compose(sample: &ColorFrame, grid: &Vec<Option<EdgeGlyph>>) -> (r: Result<
    String,
    RenderError,
>)
    requires
        sample.wf(),
    ensures
        r is Ok <==> grid@.len() == sample.width * sample.height,
        r matches Ok(s) ==> s@ == glyph_text(
            sample.width as int,
            sample.height as int,
            sample.pixels@,
            grid@,
        ),
        r matches Err(e) ==> e == RenderError::GridMismatch,
{
    let n: usize = sample.pixels.len();
    if grid.len() != n {
        return Err(RenderError::GridMismatch);
    }
    let w: usize = sample.width;
    let h: usize = sample.height;
    let ghost wi: int = w as int;
    let ghost hi: int = h as int;
    let ghost pix: Seq<Rgb> = sample.pixels@;
    let ghost gr: Seq<Option<EdgeGlyph>> = grid@;
    proof {
        assert(w * h <= usize::MAX);
    }
    let mut out = String::new();
    let mut y: usize = 0;
    while y < h
        invariant
            sample.wf(),
            w == sample.width,
            h == sample.height,
            wi == w as int,
            hi == h as int,
            pix == sample.pixels@,
            gr == grid@,
            gr.len() == w * h,
            w * h <= usize::MAX,
            y <= h,
            out@ == rows_chars(wi, pix, gr, y as int),
        decreases h - y,
    {
        let ghost row_start: Seq<char> = out@;
        let mut x: usize = 0;
        while x < w
            invariant
                sample.wf(),
                w == sample.width,
                h == sample.height,
                wi == w as int,
                hi == h as int,
                pix == sample.pixels@,
                gr == grid@,
                gr.len() == w * h,
                w * h <= usize::MAX,
                y < h,
                x <= w,
                row_start == rows_chars(wi, pix, gr, y as int),
                out@ == row_start + row_chars(wi, pix, gr, y as int, x as int),
            decreases w - x,
        {
            proof {
                lemma_rowmajor_bound(wi, hi, x as int, y as int);
            }
            let c = sample.px(x, y);
            let d = grid[y * w + x];
            push_cell(&mut out, c, d);
            proof {
                assert(out@ =~= row_start + row_chars(wi, pix, gr, y as int, x as int + 1));
            }
            x = x + 1;
        }
        out.push('\n');
        proof {
            assert(out@ =~= rows_chars(wi, pix, gr, y as int + 1));
        }
        y = y + 1;
    }
    proof {
        assert(out@ == glyph_text(wi, hi, pix, gr));
    }
    Ok(out)
}

} // verus!
