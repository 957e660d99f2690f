//! A pixel-to-glyph streaming core: classifies rendered RGB samples into a
//! colored glyph grid, diffs successive grids, and encodes them as a
//! compact, periodically resynchronized compressed frame stream.
pub mod grid;
pub mod diff;
pub mod codec;
pub mod control;
pub mod display;
pub mod glyph;
pub mod palette;
pub mod render;
pub mod stream;
mod text;
