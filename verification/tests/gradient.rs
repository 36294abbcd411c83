use ascii_cam::frame::GrayFrame;
use ascii_cam::gradient::{
    block_vote, classify_block, edge_bucket, edge_grid, gradients, magnitude_image, vote_winner,
    EdgeGlyph, EdgeVote, GradientField,
};

fn uniform_field(width: usize, height: usize, gx: i32, gy: i32) -> GradientField {
    GradientField { width, height, gx: vec![gx; width * height], gy: vec![gy; width * height] }
}

#[test]
fn horizontal_gradient_block_wins_bar() {
    // A strong horizontal gradient (angle 0 or 180 degrees) in every
    // pixel marks a vertical edge: the winning glyph is `|` whichever
    // layout the sign of gy selects.
    let right = uniform_field(4, 4, 100, 0);
    assert_eq!(classify_block(&right, 0, 0), Some(EdgeGlyph::Bar));
    let left = uniform_field(4, 4, -100, 0);
    assert_eq!(classify_block(&left, 0, 0), Some(EdgeGlyph::Bar));
}

#[test]
fn vertical_gradient_block_wins_underscore() {
    // A strong vertical gradient (angle 90 degrees) marks a horizontal
    // edge: the winning glyph is `_` in both layouts.
    let up = uniform_field(4, 4, 0, 100);
    assert_eq!(classify_block(&up, 0, 0), Some(EdgeGlyph::Underscore));
    let down = uniform_field(4, 4, 0, -100);
    assert_eq!(classify_block(&down, 0, 0), Some(EdgeGlyph::Underscore));
}

#[test]
fn bucket_layouts_agree_at_cardinal_angles() {
    // Angle 0 and 180: counter 3, printed `|`, under either sign of gy.
    assert_eq!(edge_bucket(100, 0), 3);
    assert_eq!(edge_bucket(-100, 0), 3);
    // Angle 90: counter 0, printed `_`, under either sign of gy.
    assert_eq!(edge_bucket(0, 100), 0);
    assert_eq!(edge_bucket(0, -100), 0);
    assert_eq!(edge_bucket(1, 1000), 0);
    assert_eq!(edge_bucket(1, -1000), 0);
}

#[test]
fn bucket_boundaries_match_the_two_layouts() {
    // gy > 0: the layout splits at 15 and 75 degrees; 45 degrees votes
    // the `/` counter and 135 degrees the `\` counter.
    assert_eq!(edge_bucket(1000, 267), 3);
    assert_eq!(edge_bucket(1000, 268), 1);
    assert_eq!(edge_bucket(100, 373), 1);
    assert_eq!(edge_bucket(100, 374), 0);
    assert_eq!(edge_bucket(100, 100), 1);
    assert_eq!(edge_bucket(-100, 100), 2);
    // gy <= 0: the layout splits at 22.5 and 67.5 degrees, and the two
    // diagonal counters swap: 45 degrees votes `\`, 135 degrees `/`.
    assert_eq!(edge_bucket(1000, -414), 3);
    assert_eq!(edge_bucket(1000, -415), 2);
    assert_eq!(edge_bucket(100, -241), 2);
    assert_eq!(edge_bucket(100, -242), 0);
    assert_eq!(edge_bucket(100, -100), 2);
    assert_eq!(edge_bucket(-100, -100), 1);
    assert_eq!(edge_bucket(30, -30), 2);
}

#[test]
fn quiet_block_gets_no_edge_glyph() {
    // Every magnitude below the threshold: no bucket reaches the vote
    // minimum and the block defers to the luminance fallback.
    let weak = uniform_field(4, 4, 2, 2);
    assert_eq!(classify_block(&weak, 0, 0), None);
    let boundary = uniform_field(4, 4, 15, 0);
    assert_eq!(classify_block(&boundary, 0, 0), None);
}

#[test]
fn one_vote_is_not_enough() {
    // The winning count must exceed one: a single strong pixel stays quiet,
    // two suffice.
    let mut gy = vec![0; 16];
    gy[5] = 100;
    let one = GradientField { width: 4, height: 4, gx: vec![0; 16], gy };
    assert_eq!(classify_block(&one, 0, 0), None);
    let mut gy2 = vec![0; 16];
    gy2[5] = 100;
    gy2[6] = 100;
    let two = GradientField { width: 4, height: 4, gx: vec![0; 16], gy: gy2 };
    assert_eq!(classify_block(&two, 0, 0), Some(EdgeGlyph::Underscore));
}

#[test]
fn tie_breaks_choose_the_first_bucket() {
    let v = EdgeVote { underscore: 2, slash: 2, backslash: 2, bar: 2 };
    assert_eq!(vote_winner(&v), (0, 2));
    let v = EdgeVote { underscore: 0, slash: 3, backslash: 3, bar: 1 };
    assert_eq!(vote_winner(&v), (1, 3));
    let v = EdgeVote { underscore: 0, slash: 0, backslash: 4, bar: 4 };
    assert_eq!(vote_winner(&v), (2, 4));
    let v = EdgeVote { underscore: 0, slash: 0, backslash: 0, bar: 0 };
    assert_eq!(vote_winner(&v), (0, 0));
}

#[test]
fn partial_blocks_vote_from_in_bounds_pixels_only() {
    // A 5 x 5 field: the right block column and bottom row are partial.
    let f = uniform_field(5, 5, 0, 100);
    let v = block_vote(&f, 1, 0);
    assert_eq!(v.underscore, 4);
    let corner = block_vote(&f, 1, 1);
    assert_eq!(corner.underscore, 1);
    let grid = edge_grid(&f);
    assert_eq!(grid.len(), 4);
    assert_eq!(grid[0], Some(EdgeGlyph::Underscore));
    // The corner block holds one in-bounds pixel: one vote is not enough.
    assert_eq!(grid[3], None);
}

#[test]
fn gradients_of_a_vertical_step() {
    let pixels = vec![0, 0, 255, 0, 0, 255, 0, 0, 255];
    let g = GrayFrame { width: 3, height: 3, pixels };
    let grad = gradients(&g);
    assert_eq!(grad.gx[4], 1020);
    assert_eq!(grad.gy[4], 0);
}

#[test]
fn gradients_of_a_flat_frame_vanish() {
    let g = GrayFrame { width: 4, height: 3, pixels: vec![77; 12] };
    let grad = gradients(&g);
    assert!(grad.gx.iter().all(|&v| v == 0));
    assert!(grad.gy.iter().all(|&v| v == 0));
}

#[test]
fn magnitude_image_scales_and_saturates() {
    let f = GradientField { width: 2, height: 1, gx: vec![100, 1020], gy: vec![0, -1020] };
    let m = magnitude_image(&f);
    // 100 scaled by four fifths, rounded: 80. Both components saturate to
    // 255 first, then the sum caps at 255 again.
    assert_eq!(m.pixels, vec![80, 255]);
}
