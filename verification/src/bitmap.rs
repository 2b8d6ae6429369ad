//! The pixel normalizer: converts a rasterizer bitmap, which may arrive
//! in one of several native pixel encodings, into a canonical tightly
//! packed RGBA buffer with one byte per channel, suitable for upload
//! into the atlas texture.

use vstd::prelude::*;

verus! {

/// The native encoding of a rasterizer bitmap's pixels.
#[derive(Clone, Copy, PartialEq, Eq, Structural, Debug)]
pub enum PixelSource {
    /// 1 bit per pixel, 8 horizontal pixels per byte, most significant
    /// bit first; a set bit is opaque black, an unset bit transparent.
    Mono,
    /// 8-bit grayscale coverage; the byte is replicated into every
    /// channel, alpha included.
    Gray,
    /// 2-bit grayscale, 4 pixels per byte, scaled to 0..=255.
    Gray2,
    /// 4-bit grayscale, 2 pixels per byte, scaled to 0..=255.
    Gray4,
    /// 3 bytes per pixel mapping directly to R, G, B; alpha is opaque.
    Lcd,
    /// Vertical-subpixel variant; unsupported.
    LcdV,
    /// 4 bytes per pixel in B, G, R, A order; reordered to R, G, B, A.
    Bgra,
    /// Any encoding the normalizer does not recognize; unsupported.
    Unknown,
}

/// A rasterizer bitmap as plain values: dimensions, row stride, pixel
/// encoding and the raw byte buffer. The stride (`pitch`) may exceed the
/// bytes a row needs; rows start every `pitch` bytes. A negative pitch
/// (bottom-up rows) is unsupported.
pub struct RasterBitmap {
    pub width: i32,
    pub height: i32,
    pub pitch: i32,
    pub mode: PixelSource,
    pub data: Vec<u8>,
}

/// A normalized bitmap: tightly packed RGBA, one byte per channel, with
/// `pitch == 4 * width`.
pub struct BitmapRGBA8888 {
    pub pixel_data: Vec<u8>,
    pub width: u32,
    pub height: u32,
    pub pitch: u32,
}

/// The encodings the normalizer can unpack.
pub open spec fn supported_mode(m: PixelSource) -> bool {
    match m {
        PixelSource::Mono => true,
        PixelSource::Gray => true,
        PixelSource::Gray2 => true,
        PixelSource::Gray4 => true,
        PixelSource::Lcd => true,
        PixelSource::Bgra => true,
        PixelSource::LcdV => false,
        PixelSource::Unknown => false,
    }
}

/// A source with no pixels (a blank glyph such as the space character);
/// it is normalized to a single fully transparent pixel so that every
/// character still owns a valid atlas slot and advance.
pub open spec fn is_placeholder(src: RasterBitmap) -> bool {
    src.width <= 0 || src.height <= 0
}

/// The number of source bytes one row of `w` pixels occupies in mode `m`.
pub open spec fn row_bytes(m: PixelSource, w: int) -> int {
    match m {
        PixelSource::Mono => (w + 7) / 8,
        PixelSource::Gray => w,
        PixelSource::Gray2 => (w + 3) / 4,
        PixelSource::Gray4 => (w + 1) / 2,
        PixelSource::Lcd => 3 * w,
        PixelSource::Bgra => 4 * w,
        PixelSource::LcdV => 0,
        PixelSource::Unknown => 0,
    }
}

/// The source byte at offset `off` within row `y`.
pub open spec fn src_byte(src: RasterBitmap, y: int, off: int) -> u8 {
    src.data@[y * src.pitch + off]
}

/// The canonical (R, G, B, A) value of source pixel (`x`, `y`).
pub open spec fn norm_px(src: RasterBitmap, x: int, y: int) -> (u8, u8, u8, u8) {
    match src.mode {
        PixelSource::Mono => {
            let b = src_byte(src, y, x / 8);
            if (b >> ((7 - (x % 8)) as u8)) & 1 == 1 {
                (0, 0, 0, 255)
            } else {
                (0, 0, 0, 0)
            }
        },
        PixelSource::Gray => {
            let v = src_byte(src, y, x);
            (v, v, v, v)
        },
        PixelSource::Gray2 => {
            let v = (src_byte(src, y, x / 4) >> ((6 - 2 * (x % 4)) as u8)) & 3;
            let g = ((v as int) * 85) as u8;
            (g, g, g, g)
        },
        PixelSource::Gray4 => {
            let v = (src_byte(src, y, x / 2) >> ((4 - 4 * (x % 2)) as u8)) & 15;
            let g = ((v as int) * 17) as u8;
            (g, g, g, g)
        },
        PixelSource::Lcd => (
            src_byte(src, y, 3 * x),
            src_byte(src, y, 3 * x + 1),
            src_byte(src, y, 3 * x + 2),
            255,
        ),
        PixelSource::Bgra => (
            src_byte(src, y, 4 * x + 2),
            src_byte(src, y, 4 * x + 1),
            src_byte(src, y, 4 * x),
            src_byte(src, y, 4 * x + 3),
        ),
        PixelSource::LcdV => (0, 0, 0, 0),
        PixelSource::Unknown => (0, 0, 0, 0),
    }
}

/// Whether `src` can be normalized: a non-negative pitch always, and for
/// a non-empty bitmap a supported encoding, a buffer that covers every
/// row, and an output small enough to address.
pub open spec fn src_ok(src: RasterBitmap) -> bool {
    &&& src.pitch >= 0
    &&& (is_placeholder(src) || {
        &&& supported_mode(src.mode)
        &&& (src.height - 1) * src.pitch + row_bytes(src.mode, src.width as int)
            <= src.data@.len()
        &&& src.width * src.height * 4 <= usize::MAX
        &&& 4 * src.width <= u32::MAX
    })
}

/// The width of the normalized bitmap.
pub open spec fn out_w(src: RasterBitmap) -> int {
    if is_placeholder(src) {
        1
    } else {
        src.width as int
    }
}

/// The height of the normalized bitmap.
pub open spec fn out_h(src: RasterBitmap) -> int {
    if is_placeholder(src) {
        1
    } else {
        src.height as int
    }
}

/// The (R, G, B, A) value stored for pixel (`x`, `y`) of a normalized
/// bitmap.
pub open spec fn px_at(out: BitmapRGBA8888, x: int, y: int) -> (u8, u8, u8, u8) {
    (
        out.pixel_data@[(y * out.width + x) * 4],
        out.pixel_data@[(y * out.width + x) * 4 + 1],
        out.pixel_data@[(y * out.width + x) * 4 + 2],
        out.pixel_data@[(y * out.width + x) * 4 + 3],
    )
}

/// What normalization produces: the output has the source's dimensions
/// (or 1 by 1 for an empty source), a tight stride, and every pixel holds
/// the canonical value of the corresponding source pixel (or transparent
/// for the placeholder).
pub open spec fn normalized(src: RasterBitmap, out: BitmapRGBA8888) -> bool {
    &&& out.width == out_w(src)
    &&& out.height == out_h(src)
    &&& out.pitch == 4 * out_w(src)
    &&& out.pixel_data@.len() == out_w(src) * out_h(src) * 4
    &&& forall|x: int, y: int|
        0 <= x < out_w(src) && 0 <= y < out_h(src) ==> #[trigger] px_at(out, x, y) == (
        if is_placeholder(src) {
            (0u8, 0u8, 0u8, 0u8)
        } else {
            norm_px(src, x, y)
        })
}

/// Runtime check for `supported_mode`.
fn mode_supported(m: &PixelSource) -> (r: bool)
    ensures
        r == supported_mode(*m),
{
    match m {
        PixelSource::Mono => true,
        PixelSource::Gray => true,
        PixelSource::Gray2 => true,
        PixelSource::Gray4 => true,
        PixelSource::Lcd => true,
        PixelSource::Bgra => true,
        PixelSource::LcdV => false,
        PixelSource::Unknown => false,
    }
}

/// The bytes one source row occupies, computed without overflow.
fn row_bytes_exec(m: &PixelSource, w: u64) -> (r: u64)
    requires
        w <= i32::MAX,
        supported_mode(*m),
    ensures
        r == row_bytes(*m, w as int),
{
    match m {
        PixelSource::Mono => (w + 7) / 8,
        PixelSource::Gray => w,
        PixelSource::Gray2 => (w + 3) / 4,
        PixelSource::Gray4 => (w + 1) / 2,
        PixelSource::Lcd => 3 * w,
        PixelSource::Bgra => 4 * w,
        PixelSource::LcdV => 0,
        PixelSource::Unknown => 0,
    }
}

/// Unpacks one source pixel into its canonical (R, G, B, A) value.
fn norm_pixel(src: &RasterBitmap, x: usize, y: usize) -> (p: (u8, u8, u8, u8))
    requires
        src.pitch >= 0,
        0 < src.width,
        0 < src.height,
        x < src.width,
        y < src.height,
        supported_mode(src.mode),
        (src.height - 1) * src.pitch + row_bytes(src.mode, src.width as int)
            <= src.data@.len(),
    ensures
        p == norm_px(*src, x as int, y as int),
{
    let pp = src.pitch as usize;
    proof {
        lemma_row_in_range(*src, y as int);
        assert(src.data.len() <= usize::MAX);
    }
    let row = y * pp;
    match src.mode {
        PixelSource::Mono => {
            proof {
                lemma_div_off(x as int, src.width as int, 8);
            }
            let b = src.data[row + x / 8];
            let sh: u8 = 7 - (x % 8) as u8;
            if (b >> sh) & 1 == 1 {
                (0, 0, 0, 255)
            } else {
                (0, 0, 0, 0)
            }
        },
        PixelSource::Gray => {
            let v = src.data[row + x];
            (v, v, v, v)
        },
        PixelSource::Gray2 => {
            proof {
                lemma_div_off(x as int, src.width as int, 4);
            }
            let b = src.data[row + x / 4];
            let sh: u8 = 6 - 2 * ((x % 4) as u8);
            let v = (b >> sh) & 3;
            assert((b >> sh) & 3u8 <= 3) by (bit_vector);
            (v * 85, v * 85, v * 85, v * 85)
        },
        PixelSource::Gray4 => {
            proof {
                lemma_div_off(x as int, src.width as int, 2);
            }
            let b = src.data[row + x / 2];
            let sh: u8 = 4 - 4 * ((x % 2) as u8);
            let v = (b >> sh) & 15;
            assert((b >> sh) & 15u8 <= 15) by (bit_vector);
            (v * 17, v * 17, v * 17, v * 17)
        },
        PixelSource::Lcd => {
            let r = src.data[row + 3 * x];
            let g = src.data[row + 3 * x + 1];
            let b = src.data[row + 3 * x + 2];
            (r, g, b, 255)
        },
        PixelSource::Bgra => {
            let b = src.data[row + 4 * x];
            let g = src.data[row + 4 * x + 1];
            let r = src.data[row + 4 * x + 2];
            let a = src.data[row + 4 * x + 3];
            (r, g, b, a)
        },
        PixelSource::LcdV => (0, 0, 0, 0),
        PixelSource::Unknown => (0, 0, 0, 0),
    }
}

/// Pixel number `k` (row-major) of a partially filled output holds the
/// canonical value of its source pixel.
pub open spec fn px_correct(src: RasterBitmap, pd: Seq<u8>, k: int) -> bool {
    let w = src.width as int;
    let p = norm_px(src, k % w, k / w);
    &&& pd[4 * k] == p.0
    &&& pd[4 * k + 1] == p.1
    &&& pd[4 * k + 2] == p.2
    &&& pd[4 * k + 3] == p.3
}

impl BitmapRGBA8888 {
    /// Normalizes a rasterizer bitmap into canonical RGBA. Fails (so the
    /// glyph is reported unavailable) on a negative pitch, an unsupported
    /// encoding, or a buffer too small for the declared dimensions; an
    /// empty bitmap becomes a single fully transparent pixel.
    pub fn new(src: &RasterBitmap) -> (r: Option<BitmapRGBA8888>)
        ensures
            r is Some <==> src_ok(*src),
            r matches Some(out) ==> normalized(*src, out),
    {
        if src.pitch < 0 {
            return None;
        }
        if src.width <= 0 || src.height <= 0 {
            let mut pd: Vec<u8> = Vec::new();
            pd.push(0);
            pd.push(0);
            pd.push(0);
            pd.push(0);
            return Some(
                BitmapRGBA8888 { pixel_data: pd, width: 1, height: 1, pitch: 4 },
            );
        }
        if !mode_supported(&src.mode) {
            return None;
        }
        let w64 = src.width as u64;
        let h64 = src.height as u64;
        let p64 = src.pitch as u64;
        let rb = row_bytes_exec(&src.mode, w64);
        assert((h64 - 1) * p64 <= 0x7fff_ffffu64 * 0x7fff_ffffu64) by (nonlinear_arith)
            requires
                h64 - 1 <= 0x7fff_ffffu64 && p64 <= 0x7fff_ffffu64,
        ;
        let needed = (h64 - 1) * p64 + rb;
        if needed > src.data.len() as u64 {
            return None;
        }
        if 4 * w64 > u32::MAX as u64 {
            return None;
        }
        assert(w64 * h64 <= 0x7fff_ffffu64 * 0x7fff_ffffu64) by (nonlinear_arith)
            requires
                w64 <= 0x7fff_ffffu64 && h64 <= 0x7fff_ffffu64,
        ;
        let out_bytes = w64 * h64 * 4;
        if out_bytes > usize::MAX as u64 {
            return None;
        }
        let w = src.width as usize;
        let h = src.height as usize;
        let mut pd: Vec<u8> = Vec::new();
        let mut y: usize = 0;
        while y < h
            invariant
                src.pitch >= 0,
                0 < src.width <= i32::MAX,
                0 < src.height <= i32::MAX,
                supported_mode(src.mode),
                (src.height - 1) * src.pitch + row_bytes(src.mode, src.width as int)
                    <= src.data@.len(),
                w == src.width && h == src.height,
                src.width * src.height * 4 <= usize::MAX,
                y <= h,
                pd@.len() == 4 * (y * w),
                forall|k: int| 0 <= k < y * w ==> #[trigger] px_correct(*src, pd@, k),
            decreases h - y,
        {
            let mut x: usize = 0;
            while x < w
                invariant
                    src.pitch >= 0,
                    0 < src.width <= i32::MAX,
                    0 < src.height <= i32::MAX,
                    supported_mode(src.mode),
                    (src.height - 1) * src.pitch + row_bytes(src.mode, src.width as int)
                        <= src.data@.len(),
                    w == src.width && h == src.height,
                    src.width * src.height * 4 <= usize::MAX,
                    y < h,
                    x <= w,
                    pd@.len() == 4 * (y * w + x),
                    forall|k: int| 0 <= k < y * w + x ==> #[trigger] px_correct(*src, pd@, k),
                decreases w - x,
            {
                let p = norm_pixel(src, x, y);
                proof {
                    assert(4 * ((y * w + x) as int) + 4 <= 4 * ((src.width * src.height) as int))
                        by (nonlinear_arith)
                        requires
                            0 <= x < w,
                            0 <= y < h,
                            w == src.width,
                            h == src.height,
                    ;
                }
                let ghost pd0 = pd@;
                pd.push(p.0);
                pd.push(p.1);
                pd.push(p.2);
                pd.push(p.3);
                proof {
                    let kx = (y * w + x) as int;
                    assert(kx % (w as int) == x && kx / (w as int) == y) by (nonlinear_arith)
                        requires
                            0 <= x < w,
                            0 <= y,
                            kx == y * w + x,
                    ;
                    assert(px_correct(*src, pd@, kx));
                    assert forall|k: int| 0 <= k < y * w + x + 1 implies #[trigger] px_correct(
                        *src,
                        pd@,
                        k,
                    ) by {
                        if k < kx {
                            assert(px_correct(*src, pd0, k));
                        }
                    }
                }
                x = x + 1;
            }
            proof {
                assert(y * w + w == (y + 1) * w) by (nonlinear_arith);
            }
            y = y + 1;
        }
        let out = BitmapRGBA8888 {
            pixel_data: pd,
            width: src.width as u32,
            height: src.height as u32,
            pitch: 4 * (src.width as u32),
        };
        proof {
            let wi = src.width as int;
            let hi = src.height as int;
            assert forall|x: int, yy: int| 0 <= x < wi && 0 <= yy < hi implies #[trigger] px_at(
                out,
                x,
                yy,
            ) == norm_px(*src, x, yy) by {
                let k = yy * wi + x;
                assert(0 <= k < hi * wi && k % wi == x && k / wi == yy) by (nonlinear_arith)
                    requires
                        0 <= x < wi,
                        0 <= yy < hi,
                        k == yy * wi + x,
                ;
                assert(px_correct(*src, out.pixel_data@, k));
            }
            assert(out.pixel_data@.len() == out_w(*src) * out_h(*src) * 4) by (nonlinear_arith)
                requires
                    out.pixel_data@.len() == 4 * ((src.height as int) * (src.width as int)),
                    out_w(*src) == src.width as int,
                    out_h(*src) == src.height as int,
            ;
        }
        Some(out)
    }
}

/// The grayscale round trip: normalizing an 8-bit grayscale bitmap
/// stores the source coverage byte of each pixel in every channel of the
/// output, alpha included.
pub proof fn lemma_gray_round_trip(src: RasterBitmap, out: BitmapRGBA8888, x: int, y: int)
    requires
        src.mode == PixelSource::Gray,
        !is_placeholder(src),
        normalized(src, out),
        0 <= x < src.width,
        0 <= y < src.height,
    ensures
        px_at(out, x, y) == (
            src_byte(src, y, x),
            src_byte(src, y, x),
            src_byte(src, y, x),
            src_byte(src, y, x),
        ),
{
    assert(px_at(out, x, y) == norm_px(src, x, y));
}

/// Rows before the last start early enough that a whole row of bytes
/// still fits in the buffer.
proof fn lemma_row_in_range(src: RasterBitmap, y: int)
    requires
        src.pitch >= 0,
        0 < src.width,
        0 < src.height,
        0 <= y < src.height,
        (src.height - 1) * src.pitch + row_bytes(src.mode, src.width as int)
            <= src.data@.len(),
    ensures
        0 <= row_bytes(src.mode, src.width as int),
        y * src.pitch + row_bytes(src.mode, src.width as int) <= src.data@.len(),
        y * src.pitch <= (src.height - 1) * src.pitch,
{
    assert(y * src.pitch <= (src.height - 1) * src.pitch) by (nonlinear_arith)
        requires
            0 <= y <= src.height - 1,
            src.pitch >= 0,
    ;
}

/// A pixel's byte offset within its row stays below the row's byte count
/// for the packed sub-byte encodings: `x / k`'s quotient is at most
/// `(w + k - 1) / k - 1` when `x < w`.
proof fn lemma_div_off(x: int, w: int, k: int)
    requires
        0 <= x < w,
        k == 8 || k == 4 || k == 2,
    ensures
        0 <= x / k,
        x / k < (w + (k - 1)) / k,
{
    assert(0 <= x / k && x / k < (w + (k - 1)) / k) by (nonlinear_arith)
        requires
            0 <= x < w,
            2 <= k,
    ;
}

} // verus!
