//! Shaped text as the external shaping engine reports it, reduced to plain
//! values: glyph positions and advances in 16.16 fixed point, font and
//! glyph identifiers, and the source ranges each glyph covers.

use vstd::prelude::*;

verus! {

/// One positioned glyph of a layout run.
#[derive(Clone, Copy, PartialEq, Eq, Structural, Debug)]
pub struct ShapedGlyph {
    /// Horizontal position within the run, in 16.16 fixed point.
    pub x: i64,
    /// Vertical offset from the run baseline, in 16.16 fixed point.
    pub y: i64,
    /// Advance width, in 16.16 fixed point.
    pub w: i64,
    /// The font face, by the host's font-database identifier.
    pub font_id: u32,
    /// The glyph inside the font.
    pub glyph_id: u16,
    /// Font size key, as cached in the atlas.
    pub font_size: u32,
    /// First byte of the source text this glyph covers.
    pub start: usize,
    /// Past-the-end byte of the source text this glyph covers.
    pub end: usize,
    /// Index of the document segment the glyph came from.
    pub metadata: usize,
}

/// One laid-out line of shaped glyphs.
#[derive(Debug)]
pub struct ShapedRun {
    /// Width of the line, in 16.16 fixed point.
    pub line_w: i64,
    /// Baseline position of the line, in 16.16 fixed point.
    pub line_y: i64,
    /// Top of the line, in 16.16 fixed point.
    pub line_top: i64,
    /// Height of the line, in 16.16 fixed point.
    pub line_height: i64,
    /// The glyphs of the line, in visual order.
    pub glyphs: Vec<ShapedGlyph>,
}

} // verus!
