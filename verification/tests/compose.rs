use ascii_cam::compose::{compose, ramp_index_for, RenderError};
use ascii_cam::frame::{ColorFrame, Rgb};
use ascii_cam::gradient::EdgeGlyph;

fn one_cell(c: Rgb) -> ColorFrame {
    ColorFrame { width: 1, height: 1, pixels: vec![c] }
}

#[test]
fn ramp_endpoints() {
    assert_eq!(ramp_index_for(Rgb { r: 0, g: 0, b: 0 }), 0);
    assert_eq!(ramp_index_for(Rgb { r: 255, g: 255, b: 255 }), 69);
}

#[test]
fn ramp_midpoint_rounds_to_nearest() {
    // Luminance 128 of 255 lands on step 34.66 of 69: rounded up to 35.
    assert_eq!(ramp_index_for(Rgb { r: 128, g: 128, b: 128 }), 35);
}

#[test]
fn ramp_index_is_monotone_in_luminance() {
    let mut last = 0;
    for v in 0..=255u16 {
        let i = ramp_index_for(Rgb { r: v as u8, g: v as u8, b: v as u8 });
        assert!(i >= last);
        last = i;
    }
    assert_eq!(last, 69);
}

#[test]
fn ramp_weights_favor_green() {
    let green = ramp_index_for(Rgb { r: 0, g: 200, b: 0 });
    let red = ramp_index_for(Rgb { r: 200, g: 0, b: 0 });
    let blue = ramp_index_for(Rgb { r: 0, g: 0, b: 200 });
    assert!(green > red);
    assert!(red > blue);
}

#[test]
fn size_mismatch_is_rejected() {
    let sample = one_cell(Rgb { r: 1, g: 2, b: 3 });
    let empty: Vec<Option<EdgeGlyph>> = Vec::new();
    assert_eq!(compose(&sample, &empty), Err(RenderError::GridMismatch));
    let two = vec![None, None];
    assert_eq!(compose(&sample, &two), Err(RenderError::GridMismatch));
}

#[test]
fn decimal_channels_render_without_padding() {
    let sample = one_cell(Rgb { r: 7, g: 45, b: 255 });
    let text = compose(&sample, &vec![None]).unwrap();
    assert_eq!(text, "\u{1b}[38;2;7;45;255mb \n");
}

#[test]
fn edge_glyph_wins_over_ramp_glyph() {
    let sample = one_cell(Rgb { r: 10, g: 20, b: 30 });
    let text = compose(&sample, &vec![Some(EdgeGlyph::Slash)]).unwrap();
    assert_eq!(text, "\u{1b}[38;2;10;20;30m/ \n");
    let glyphs = vec![
        (EdgeGlyph::Bar, '|'),
        (EdgeGlyph::Slash, '/'),
        (EdgeGlyph::Backslash, '\\'),
        (EdgeGlyph::Underscore, '_'),
    ];
    for (g, ch) in glyphs {
        let text = compose(&sample, &vec![Some(g)]).unwrap();
        assert_eq!(text.chars().rev().nth(2), Some(ch));
    }
}

#[test]
fn rows_end_with_newlines() {
    let sample = ColorFrame {
        width: 2,
        height: 2,
        pixels: vec![Rgb { r: 0, g: 0, b: 0 }; 4],
    };
    let grid = vec![None, Some(EdgeGlyph::Bar), Some(EdgeGlyph::Underscore), None];
    let text = compose(&sample, &grid).unwrap();
    let expected = "\u{1b}[38;2;0;0;0m$ \u{1b}[38;2;0;0;0m| \n\u{1b}[38;2;0;0;0m_ \u{1b}[38;2;0;0;0m$ \n";
    assert_eq!(text, expected);
}
