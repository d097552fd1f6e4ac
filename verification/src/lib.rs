//! Builds the layout of a font atlas: a single horizontal strip image that
//! holds one glyph per fixed-size square cell, one cell for every ASCII
//! character that the font renders with nonzero extent at a given scale.
//!
//! The library parses the font bytes into a handle and then works on the
//! measured glyph sizes as plain values; reading the font file, measuring
//! glyphs through the font rasterizer at a fractional scale, drawing, and
//! writing the image file are left to the surrounding program.

pub mod font;
pub mod glyphs;
pub mod atlas;
