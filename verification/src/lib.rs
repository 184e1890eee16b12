//! Text rendering of two-level bitmaps: the image is tiled into fixed-size
//! cells, the dots of each cell are packed into a bitmask, and the bitmask
//! selects one glyph of a block-drawing or braille alphabet.

pub mod binarize;
pub mod bitmap;
pub mod bits;
pub mod cli;
pub mod geometry;
pub mod glyphs;
pub mod laws;
pub mod mask;
pub mod render;
pub mod text;
