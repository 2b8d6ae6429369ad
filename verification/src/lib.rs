//! A text viewer core: a glyph atlas backed by shelf packing and a
//! lazily indexed text layout and scroll engine.
//!
//! The atlas turns (character, pixel size) pairs into disjoint rectangles
//! inside one fixed-size RGBA pixel buffer; the layout engine turns a
//! document, a viewport and a scroll offset into the visible glyph
//! placements and separator lines, growing a line index as it goes.
//! All pen arithmetic is carried in 1/64-pixel fixed point and divided
//! down to whole pixels (truncating toward zero) only where a destination
//! rectangle is built.

use vstd::prelude::*;

pub mod bitmap;
pub mod rasterizer;
pub mod text_doc;
pub mod texture_atlas;

verus! {

/// The single pixel size every glyph is rasterized and laid out at.
pub const FONT_SIZE: u32 = 40;

/// Largest viewport, padding or pixel-space metric magnitude the layout
/// arithmetic accepts, in whole pixels (2^20).
pub const MAX_DIM: i64 = 0x10_0000;

/// Largest magnitude accepted for a 26.6 fixed-point metric, i.e.
/// `MAX_DIM` whole pixels expressed in 1/64-pixel units (2^26).
pub const MAX_METRIC: i64 = 0x400_0000;

/// Largest document length, in Unicode scalar values, the layout
/// arithmetic accepts (2^31 - 1); far below it, every pen position a
/// render pass can reach fits comfortably in 64-bit arithmetic.
pub const MAX_TEXT: usize = 0x7fff_ffff;

/// Per-glyph horizontal metrics in 1/64-pixel fixed point, as the
/// rasterizer reports them at the queried size.
#[derive(Clone, Copy, PartialEq, Eq, Structural, Debug)]
pub struct GlyphMetrics {
    /// Horizontal distance the pen moves after drawing the glyph.
    pub advance: i64,
    /// Offset from the pen position to the bitmap's left edge.
    pub bearing_x: i64,
    /// Offset from the baseline up to the bitmap's top edge.
    pub bearing_y: i64,
}

/// Whether rasterizer-reported glyph metrics are usable by the layout
/// engine: a non-negative advance and magnitudes small enough that pen
/// arithmetic stays far from the integer limits.
pub open spec fn sane_metrics(m: GlyphMetrics) -> bool {
    &&& 0 <= m.advance <= MAX_METRIC
    &&& -MAX_METRIC <= m.bearing_x <= MAX_METRIC
    &&& -MAX_METRIC <= m.bearing_y <= MAX_METRIC
}

/// Runtime check for `sane_metrics`.
pub fn metrics_ok(m: &GlyphMetrics) -> (r: bool)
    ensures
        r == sane_metrics(*m),
{
    0 <= m.advance && m.advance <= MAX_METRIC && -MAX_METRIC <= m.bearing_x
        && m.bearing_x <= MAX_METRIC && -MAX_METRIC <= m.bearing_y && m.bearing_y <= MAX_METRIC
}

/// Per-size font metrics in whole pixels, already divided down from the
/// rasterizer's 26.6 fixed-point values.
#[derive(Clone, Copy, PartialEq, Eq, Structural, Debug)]
pub struct FontMetrics {
    /// Vertical distance between two consecutive baselines.
    pub line_height: i64,
    /// Extent of the tallest glyph above the baseline.
    pub ascender: i64,
    /// Extent below the baseline; negative for fonts that descend.
    pub descender: i64,
}

/// Whether per-size font metrics are usable by the layout engine: a
/// strictly positive line height and bounded magnitudes.
pub open spec fn sane_font_metrics(fm: FontMetrics) -> bool {
    &&& 1 <= fm.line_height <= MAX_DIM
    &&& 0 <= fm.ascender <= MAX_DIM
    &&& -MAX_DIM <= fm.descender <= MAX_DIM
}

/// Truncating (toward zero) division of a 26.6 fixed-point value by 64,
/// the conversion from fixed point to whole pixels.
pub open spec fn spec_div64(v: int) -> int {
    if v >= 0 {
        v / 64
    } else {
        -((-v) / 64)
    }
}

/// Converts a 26.6 fixed-point value to whole pixels, truncating toward
/// zero, exactly as a native `v / 64` would.
pub fn div64(v: i64) -> (r: i64)
    requires
        -MAX_METRIC <= v <= MAX_METRIC,
    ensures
        r == spec_div64(v as int),
        -MAX_DIM <= r <= MAX_DIM,
{
    if v >= 0 {
        v / 64
    } else {
        -((-v) / 64)
    }
}

} // verus!
