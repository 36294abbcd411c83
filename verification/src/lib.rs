//! A verified image-to-glyph pipeline: it turns a color frame into a
//! color-annotated ASCII rendering that preserves edge structure.
//!
//! The stages run strictly forward, once per frame: a small blur, a
//! grayscale reduction, directional gradients with a per-block edge vote,
//! a nearest-neighbor block sample of the original colors, and a glyph
//! composer that falls back to a luminance ramp where no edge dominates.
//! A secondary output arranges the intermediate images on one canvas.

pub mod canvas;
pub mod compose;
pub mod frame;
pub mod gradient;
pub mod gray;
pub mod pipeline;
pub mod sample;
pub mod smooth;
pub mod text;
