//! A dot-matrix glyph rasterizer: decodes packed monochrome glyph bitmaps
//! into individual pixel coordinates for a pixel-addressable draw surface.

pub mod kanji;
