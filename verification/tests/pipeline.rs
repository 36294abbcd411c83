use ascii_cam::frame::{ColorFrame, Rgb};
use ascii_cam::pipeline::render_frame;

fn solid(width: usize, height: usize, c: Rgb) -> ColorFrame {
    ColorFrame { width, height, pixels: vec![c; width * height] }
}

#[test]
fn solid_gray_frame_renders_single_ramp_cell() {
    let gray = Rgb { r: 128, g: 128, b: 128 };
    let out = render_frame(&solid(4, 4, gray));
    assert_eq!(out.text, "\u{1b}[38;2;128;128;128mx \n");
    assert_eq!(out.sample.width, 1);
    assert_eq!(out.sample.height, 1);
    assert_eq!(out.sample.pixels, vec![gray]);
}

#[test]
fn solid_gray_frame_canvas_quadrants() {
    let gray = Rgb { r: 128, g: 128, b: 128 };
    let out = render_frame(&solid(4, 4, gray));
    assert_eq!(out.canvas.width, 8);
    assert_eq!(out.canvas.height, 8);
    // Top-left: the original; top-right: the smoothed frame (unchanged on
    // a flat input).
    assert_eq!(out.canvas.pixels[0], gray);
    assert_eq!(out.canvas.pixels[4], gray);
    // Bottom-left: the grayscale, expanded to three channels.
    assert_eq!(out.canvas.pixels[4 * 8], gray);
    // Bottom-right: the gradient magnitude, zero on a flat input.
    assert_eq!(out.canvas.pixels[4 * 8 + 4], Rgb { r: 0, g: 0, b: 0 });
}

#[test]
fn rendering_twice_is_byte_identical() {
    let mut pixels = Vec::new();
    for i in 0..(6 * 5) {
        pixels.push(Rgb { r: (i * 7 % 256) as u8, g: (i * 13 % 256) as u8, b: (i * 29 % 256) as u8 });
    }
    let f = ColorFrame { width: 6, height: 5, pixels };
    let a = render_frame(&f);
    let b = render_frame(&f);
    assert_eq!(a.text, b.text);
    assert_eq!(a.sample.pixels, b.sample.pixels);
    assert_eq!(a.canvas.pixels, b.canvas.pixels);
}

#[test]
fn black_frame_renders_densest_glyph() {
    let black = Rgb { r: 0, g: 0, b: 0 };
    let out = render_frame(&solid(4, 4, black));
    assert_eq!(out.text, "\u{1b}[38;2;0;0;0m$ \n");
}

#[test]
fn white_frame_renders_sparsest_glyph() {
    let white = Rgb { r: 255, g: 255, b: 255 };
    let out = render_frame(&solid(4, 4, white));
    assert_eq!(out.text, "\u{1b}[38;2;255;255;255m  \n");
}

#[test]
fn output_has_one_line_per_block_row() {
    let out = render_frame(&solid(9, 6, Rgb { r: 50, g: 50, b: 50 }));
    // 9 x 6 pixels make 3 x 2 blocks: two newline-terminated rows.
    assert_eq!(out.sample.width, 3);
    assert_eq!(out.sample.height, 2);
    assert_eq!(out.text.matches('\n').count(), 2);
}
