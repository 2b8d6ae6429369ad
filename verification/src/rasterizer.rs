//! The trusted boundary to the FreeType rasterizer. Each function here
//! wraps one FreeType call and hands its result over as plain values;
//! nothing about the rasterized shapes is assumed, so the rest of the
//! library is verified for every value these can return.

use vstd::prelude::*;

use crate::GlyphMetrics;
use crate::bitmap::{PixelSource, RasterBitmap};

verus! {

#[verifier::external_type_specification]
#[verifier::external_body]
#[verifier::reject_recursive_types(BYTES)]
pub struct ExFace<BYTES>(freetype::Face<BYTES>);

/// Relies on freetype's `Face::set_char_size`: selects the face's active
/// size (given in 26.6 fixed point, at 50 dpi horizontal); returns
/// whether selection succeeded.
#[verifier::external_body]
pub(crate) fn select_size(face: &freetype::Face, font_size: u32) -> (ok: bool) {
    face.set_char_size(font_size as isize * 64, 0, 50, 0).is_ok()
}

/// Relies on freetype's `Face::load_char` with the RENDER flag: loads
/// and rasterizes one character into the face's glyph slot at the active
/// size; returns whether that succeeded.
#[verifier::external_body]
pub(crate) fn load_rendered(face: &freetype::Face, c: char) -> (ok: bool) {
    face.load_char(c as usize, freetype::face::LoadFlag::RENDER).is_ok()
}

/// Relies on freetype's `Bitmap::pixel_mode` (through
/// `GlyphSlot::bitmap`): tells the slot bitmap's pixel encoding apart.
#[verifier::external_body]
pub(crate) fn glyph_pixel_mode(face: &freetype::Face) -> (m: PixelSource) {
    match face.glyph().bitmap().pixel_mode() {
        Ok(freetype::bitmap::PixelMode::Mono) => PixelSource::Mono,
        Ok(freetype::bitmap::PixelMode::Gray) => PixelSource::Gray,
        Ok(freetype::bitmap::PixelMode::Gray2) => PixelSource::Gray2,
        Ok(freetype::bitmap::PixelMode::Gray4) => PixelSource::Gray4,
        Ok(freetype::bitmap::PixelMode::Lcd) => PixelSource::Lcd,
        Ok(freetype::bitmap::PixelMode::LcdV) => PixelSource::LcdV,
        Ok(freetype::bitmap::PixelMode::Bgra) => PixelSource::Bgra,
        _ => PixelSource::Unknown,
    }
}

/// Relies on freetype's `GlyphSlot::bitmap` and the `Bitmap` accessors
/// `width`, `rows`, `pitch` and `buffer`: the slot bitmap's dimensions,
/// row stride and raw bytes.
#[verifier::external_body]
pub(crate) fn glyph_bitmap_data(face: &freetype::Face) -> (r: (i32, i32, i32, Vec<u8>)) {
    let b = face.glyph().bitmap();
    (b.width(), b.rows(), b.pitch(), b.buffer().to_vec())
}

/// The glyph slot's bitmap gathered into plain values.
pub(crate) fn glyph_bitmap(face: &freetype::Face) -> RasterBitmap {
    let mode = glyph_pixel_mode(face);
    let (width, height, pitch, data) = glyph_bitmap_data(face);
    RasterBitmap { width, height, pitch, mode, data }
}

/// Relies on freetype's `GlyphSlot::metrics`: the 26.6 fixed-point
/// horizontal metrics of the glyph last loaded into the slot.
#[verifier::external_body]
pub(crate) fn glyph_metrics_of(face: &freetype::Face) -> (m: GlyphMetrics) {
    let m = face.glyph().metrics();
    GlyphMetrics { advance: m.horiAdvance, bearing_x: m.horiBearingX, bearing_y: m.horiBearingY }
}

/// Relies on freetype's `Face::size_metrics`: the active size's line
/// height, ascender and descender in 26.6 fixed point, if the face has
/// an active size.
#[verifier::external_body]
pub(crate) fn size_metrics_of(face: &freetype::Face) -> (r: Option<(i64, i64, i64)>) {
    match face.size_metrics() {
        Some(m) => Some((m.height, m.ascender, m.descender)),
        None => None,
    }
}

} // verus!
