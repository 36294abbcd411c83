use ascii_cam::canvas::combine;
use ascii_cam::frame::{ColorFrame, GrayFrame, Rgb};
use ascii_cam::gradient::{edge_grid, GradientField};
use ascii_cam::gray::to_gray;
use ascii_cam::sample::block_sample;
use ascii_cam::smooth::smooth;

fn solid(width: usize, height: usize, c: Rgb) -> ColorFrame {
    ColorFrame { width, height, pixels: vec![c; width * height] }
}

#[test]
fn block_counts_align_for_any_dimensions() {
    // The sampler's grid and the analyzer's glyph grid always agree,
    // including dimensions the block size does not divide.
    for &(w, h) in &[(1, 1), (4, 4), (5, 7), (8, 3), (9, 12)] {
        let s = block_sample(&solid(w, h, Rgb { r: 9, g: 9, b: 9 }));
        let field = GradientField { width: w, height: h, gx: vec![0; w * h], gy: vec![0; w * h] };
        let grid = edge_grid(&field);
        assert_eq!(s.pixels.len(), grid.len());
        assert_eq!(s.width, (w + 3) / 4);
        assert_eq!(s.height, (h + 3) / 4);
    }
}

#[test]
fn sampler_picks_each_block_top_left_pixel() {
    let mut pixels = vec![Rgb { r: 0, g: 0, b: 0 }; 64];
    pixels[0] = Rgb { r: 1, g: 0, b: 0 };
    pixels[4] = Rgb { r: 2, g: 0, b: 0 };
    pixels[4 * 8] = Rgb { r: 3, g: 0, b: 0 };
    pixels[4 * 8 + 4] = Rgb { r: 4, g: 0, b: 0 };
    let f = ColorFrame { width: 8, height: 8, pixels };
    let s = block_sample(&f);
    let reds: Vec<u8> = s.pixels.iter().map(|p| p.r).collect();
    assert_eq!(reds, vec![1, 2, 3, 4]);
}

#[test]
fn grayscale_of_the_primaries() {
    let gray = |c: Rgb| to_gray(&ColorFrame { width: 1, height: 1, pixels: vec![c] }).pixels[0];
    assert_eq!(gray(Rgb { r: 255, g: 0, b: 0 }), 76);
    assert_eq!(gray(Rgb { r: 0, g: 255, b: 0 }), 150);
    assert_eq!(gray(Rgb { r: 0, g: 0, b: 255 }), 29);
    assert_eq!(gray(Rgb { r: 255, g: 255, b: 255 }), 255);
}

#[test]
fn smoothing_keeps_a_flat_frame() {
    let f = solid(3, 3, Rgb { r: 10, g: 200, b: 30 });
    let s = smooth(&f);
    assert_eq!(s.pixels, f.pixels);
}

#[test]
fn smoothing_averages_with_replicated_border() {
    // Two pixels wide: the border replication weighs the own column 12 of
    // 16 and the other column 4 of 16, rounding to nearest.
    let a = Rgb { r: 0, g: 0, b: 0 };
    let b = Rgb { r: 255, g: 255, b: 255 };
    let f = ColorFrame { width: 2, height: 1, pixels: vec![a, b] };
    let s = smooth(&f);
    assert_eq!(s.pixels[0], Rgb { r: 64, g: 64, b: 64 });
    assert_eq!(s.pixels[1], Rgb { r: 191, g: 191, b: 191 });
}

#[test]
fn canvas_lays_out_four_quadrants() {
    let orig = solid(2, 2, Rgb { r: 10, g: 20, b: 30 });
    let sm = solid(2, 2, Rgb { r: 40, g: 50, b: 60 });
    let gray = GrayFrame { width: 2, height: 2, pixels: vec![70; 4] };
    let mag = GrayFrame { width: 2, height: 2, pixels: vec![80; 4] };
    let c = combine(&orig, &sm, &gray, &mag);
    assert_eq!(c.width, 4);
    assert_eq!(c.height, 4);
    assert_eq!(c.pixels[0], Rgb { r: 10, g: 20, b: 30 });
    assert_eq!(c.pixels[2], Rgb { r: 40, g: 50, b: 60 });
    assert_eq!(c.pixels[2 * 4], Rgb { r: 70, g: 70, b: 70 });
    assert_eq!(c.pixels[2 * 4 + 2], Rgb { r: 80, g: 80, b: 80 });
}

#[test]
fn bounds_checked_access_returns_none_outside() {
    let f = solid(2, 2, Rgb { r: 1, g: 1, b: 1 });
    assert_eq!(f.get(1, 1), Some(Rgb { r: 1, g: 1, b: 1 }));
    assert_eq!(f.get(2, 1), None);
    assert_eq!(f.get(1, 2), None);
}
