//! The glyph atlas: one fixed-size RGBA pixel buffer, a shelf-packing
//! cursor, and a cache from (character, size) to the placed rectangle
//! and metrics. Placements only grow; nothing is ever evicted. The
//! well-formedness invariant guarantees that every cached rectangle lies
//! inside the atlas and that no two cached rectangles overlap.

use std::collections::HashMap;

use vstd::prelude::*;

use crate::bitmap::BitmapRGBA8888;
use crate::rasterizer::{glyph_bitmap, glyph_metrics_of, load_rendered, select_size,
    size_metrics_of};
use crate::{div64, metrics_ok, sane_font_metrics, sane_metrics, FontMetrics, GlyphMetrics,
    MAX_METRIC};

verus! {

/// Identity key into the atlas cache: a character at a pixel size. Two
/// requests with the same key always resolve to the same placement.
#[derive(Clone, Copy, PartialEq, Eq, Structural, Debug)]
pub struct Glyph {
    pub ch: char,
    pub font_size: u32,
}

impl Glyph {
    /// The character and size packed into one cache key; distinct
    /// (character, size) pairs give distinct keys.
    pub open spec fn spec_key(self) -> u64 {
        ((self.ch as u64) * 0x1_0000_0000 + self.font_size as u64) as u64
    }

    /// Runtime computation of `spec_key`.
    pub fn key(&self) -> (k: u64)
        ensures
            k == self.spec_key(),
    {
        (self.ch as u64) * 0x1_0000_0000 + (self.font_size as u64)
    }

    /// Key packing is injective: equal keys mean equal glyphs.
    pub proof fn lemma_key_injective(a: Glyph, b: Glyph)
        requires
            a.spec_key() == b.spec_key(),
        ensures
            a == b,
    {
        assert(a.ch as u64 == b.ch as u64 && a.font_size as u64 == b.font_size as u64)
            by (nonlinear_arith)
            requires
                (a.ch as u64) * 0x1_0000_0000 + a.font_size as u64 == (b.ch as u64)
                    * 0x1_0000_0000 + b.font_size as u64,
                (a.font_size as u64) < 0x1_0000_0000,
                (b.font_size as u64) < 0x1_0000_0000,
        ;
    }
}

/// A placed glyph: its rectangle in atlas space and its metrics.
#[derive(Clone, Copy, PartialEq, Eq, Structural, Debug)]
pub struct GlyphInfo {
    pub x: u32,
    pub y: u32,
    pub width: u32,
    pub height: u32,
    pub metrics: GlyphMetrics,
}

/// The placed rectangle lies fully inside an atlas of the given size.
pub open spec fn in_bounds(g: GlyphInfo, size: (u32, u32)) -> bool {
    g.x + g.width <= size.0 && g.y + g.height <= size.1
}

/// The two placed rectangles do not overlap.
pub open spec fn disjoint(a: GlyphInfo, b: GlyphInfo) -> bool {
    ||| a.x + a.width <= b.x
    ||| b.x + b.width <= a.x
    ||| a.y + a.height <= b.y
    ||| b.y + b.height <= a.y
}

/// Where a placed rectangle may lie relative to the packing cursor:
/// either wholly on a finished shelf (above the cursor row) or on the
/// current shelf, left of the cursor and no taller than the shelf.
pub open spec fn behind_cursor(g: GlyphInfo, next: (u32, u32), max_height: u32) -> bool {
    ||| g.y + g.height <= next.1
    ||| (g.y == next.1 && g.x + g.width <= next.0 && g.height <= max_height)
}

/// The atlas: backing pixel buffer, shelf-packing cursor and glyph
/// cache, plus the rasterizer handle glyphs are produced with.
pub struct TextureAtlas {
    pixels: Vec<u8>,
    size: (u32, u32),
    next: (u32, u32),
    max_height: u32,
    glyphs: HashMap<u64, GlyphInfo>,
    face: freetype::Face,
}

impl TextureAtlas {
    /// The cache contents: packed key to placement.
    pub closed spec fn spec_cache(self) -> Map<u64, GlyphInfo> {
        self.glyphs@
    }

    /// The atlas dimensions in pixels.
    pub closed spec fn spec_size(self) -> (u32, u32) {
        self.size
    }

    /// The backing RGBA pixel buffer.
    pub closed spec fn pixels_view(self) -> Seq<u8> {
        self.pixels@
    }

    /// The rasterizer handle.
    pub closed spec fn spec_face(self) -> freetype::Face {
        self.face
    }

    /// Whether this glyph is cached.
    pub open spec fn has_glyph(self, g: Glyph) -> bool {
        self.spec_cache().contains_key(g.spec_key())
    }

    /// The cached placement of a glyph.
    pub open spec fn cached(self, g: Glyph) -> GlyphInfo {
        self.spec_cache()[g.spec_key()]
    }

    /// Well-formedness: the pixel buffer matches the atlas size, the
    /// cursor lies inside the atlas, and every cached placement is a
    /// non-empty rectangle with sane metrics that lies inside the atlas,
    /// behind the cursor, and apart from every other placement.
    pub closed spec fn wf(self) -> bool {
        &&& self.pixels@.len() == self.size.0 * self.size.1 * 4
        &&& self.next.0 <= self.size.0
        &&& self.next.1 + self.max_height <= self.size.1
        &&& forall|k: u64| #[trigger] self.glyphs@.contains_key(k) ==> {
            let g = self.glyphs@[k];
            &&& 1 <= g.width
            &&& 1 <= g.height
            &&& in_bounds(g, self.size)
            &&& behind_cursor(g, self.next, self.max_height)
            &&& sane_metrics(g.metrics)
        }
        &&& forall|k1: u64, k2: u64|
            #[trigger] self.glyphs@.contains_key(k1) && #[trigger] self.glyphs@.contains_key(k2)
                && k1 != k2 ==> disjoint(self.glyphs@[k1], self.glyphs@[k2])
    }

    /// Creates an empty atlas of the given size around a rasterizer
    /// handle; the backing buffer starts fully transparent.
    pub fn new(size: (u32, u32), face: freetype::Face) -> (a: TextureAtlas)
        requires
            size.0 * size.1 * 4 <= usize::MAX,
        ensures
            a.wf(),
            a.spec_size() == size,
            a.spec_cache() == Map::<u64, GlyphInfo>::empty(),
            a.pixels_view().len() == size.0 * size.1 * 4,
            forall|i: int| 0 <= i < a.pixels_view().len() ==> a.pixels_view()[i] == 0,
    {
        proof {
            assert((size.0 as int) * (size.1 as int) <= usize::MAX as int) by (nonlinear_arith)
                requires
                    (size.0 as int) * (size.1 as int) * 4 <= usize::MAX as int,
            ;
        }
        let total64: u64 = (size.0 as u64) * (size.1 as u64) * 4;
        let total = total64 as usize;
        let mut pixels: Vec<u8> = Vec::new();
        let mut i: usize = 0;
        while i < total
            invariant
                i <= total,
                pixels@.len() == i,
                forall|j: int| 0 <= j < i ==> pixels@[j] == 0,
            decreases total - i,
        {
            pixels.push(0);
            i = i + 1;
        }
        TextureAtlas {
            pixels,
            size,
            next: (0, 0),
            max_height: 0,
            glyphs: HashMap::new(),
            face,
        }
    }

    /// The backing pixel buffer, tightly packed RGBA rows of the atlas
    /// width; this is what a drawing surface uploads from.
    pub fn texture(&self) -> (r: &Vec<u8>)
        ensures
            r@ == self.pixels_view(),
    {
        &self.pixels
    }

    /// Shelf packing: places a box at the cursor, starting a new shelf
    /// when the current one cannot take the width, and fails exactly
    /// when the box does not fit the atlas at the resulting position.
    /// On failure nothing changes, so a later smaller box may still fit.
    fn get_slot(&mut self, width: u32, height: u32) -> (r: Option<(u32, u32)>)
        requires
            1 <= width,
            1 <= height,
            old(self).next.0 <= old(self).size.0,
            old(self).next.1 + old(self).max_height <= old(self).size.1,
        ensures
            ({
                let wraps = old(self).next.0 + width > old(self).size.0;
                let px = if wraps { 0 } else { old(self).next.0 as int };
                let py = if wraps {
                    old(self).next.1 + old(self).max_height
                } else {
                    old(self).next.1 as int
                };
                match r {
                    None => {
                        &&& *final(self) == *old(self)
                        &&& !(px + width <= old(self).size.0 && py + height <= old(self).size.1)
                    },
                    Some((x, y)) => {
                        &&& x == px && y == py
                        &&& x + width <= old(self).size.0
                        &&& y + height <= old(self).size.1
                        &&& final(self).next.0 == x + width && final(self).next.1 == y
                        &&& final(self).max_height == (
                            if wraps {
                                height as int
                            } else if old(self).max_height >= height {
                                old(self).max_height as int
                            } else {
                                height as int
                            }
                        )
                        &&& final(self).next.1 + final(self).max_height <= final(self).size.1
                        &&& final(self).size == old(self).size
                        &&& final(self).glyphs@ == old(self).glyphs@
                        &&& final(self).pixels@ == old(self).pixels@
                        &&& final(self).face == old(self).face
                    },
                }
            }),
    {
        let mut x = self.next.0;
        let mut y = self.next.1;
        let mut mh = self.max_height;
        if (x as u64) + (width as u64) > self.size.0 as u64 {
            x = 0;
            y = y + self.max_height;
            mh = 0;
        }
        if (y as u64) + (height as u64) > self.size.1 as u64 {
            return None;
        }
        if (x as u64) + (width as u64) > self.size.0 as u64 {
            return None;
        }
        self.next = (x + width, y);
        self.max_height = if mh > height { mh } else { height };
        Some((x, y))
    }

    /// Copies a normalized bitmap into the backing buffer at (`x`, `y`):
    /// the destination rectangle takes the bitmap's pixels and every
    /// byte outside it is untouched.
    fn blit(&mut self, x: u32, y: u32, bm: &BitmapRGBA8888)
        requires
            old(self).pixels@.len() == old(self).size.0 * old(self).size.1 * 4,
            x + bm.width <= old(self).size.0,
            y + bm.height <= old(self).size.1,
            bm.pixel_data@.len() == bm.width * bm.height * 4,
            1 <= bm.width,
            1 <= bm.height,
        ensures
            final(self).pixels@.len() == old(self).pixels@.len(),
            forall|px: int, py: int, ch: int|
                0 <= px < old(self).size.0 && 0 <= py < old(self).size.1 && 0 <= ch < 4
                    ==> #[trigger] final(self).pixels@[at_px(old(self).size.0 as int, px, py, ch)]
                    == (if x <= px < x + bm.width && y <= py < y + bm.height {
                        bm.pixel_data@[at_px(bm.width as int, px - x, py - y, ch)]
                    } else {
                        old(self).pixels@[at_px(old(self).size.0 as int, px, py, ch)]
                    }),
            final(self).size == old(self).size,
            final(self).next == old(self).next,
            final(self).max_height == old(self).max_height,
            final(self).glyphs@ == old(self).glyphs@,
            final(self).face == old(self).face,
    {
        let ghost pix0 = self.pixels@;
        let wa = self.size.0 as usize;
        let ha = self.size.1 as usize;
        let w = bm.width as usize;
        let h = bm.height as usize;
        let xs = x as usize;
        let ys = y as usize;
        let mut r: usize = 0;
        while r < h
            invariant
                self.pixels@.len() == pix0.len(),
                pix0.len() == wa * ha * 4,
                self.size.0 == wa && self.size.1 == ha,
                bm.width == w && bm.height == h,
                x == xs && y == ys,
                xs + w <= wa,
                ys + h <= ha,
                bm.pixel_data@.len() == w * h * 4,
                1 <= w,
                1 <= h,
                r <= h,
                self.size == old(self).size,
                self.next == old(self).next,
                self.max_height == old(self).max_height,
                self.glyphs@ == old(self).glyphs@,
                self.face == old(self).face,
                forall|px: int, py: int, ch: int|
                    0 <= px < wa && 0 <= py < ha && 0 <= ch < 4 ==> #[trigger] self.pixels@[at_px(
                        wa as int,
                        px,
                        py,
                        ch,
                    )] == (if xs <= px < xs + w && ys <= py < ys + r {
                        bm.pixel_data@[at_px(w as int, px - xs, py - ys, ch)]
                    } else {
                        pix0[at_px(wa as int, px, py, ch)]
                    }),
            decreases h - r,
        {
            let mut c: usize = 0;
            while c < w
                invariant
                    self.pixels@.len() == pix0.len(),
                    pix0.len() == wa * ha * 4,
                    self.size.0 == wa && self.size.1 == ha,
                    bm.width == w && bm.height == h,
                    x == xs && y == ys,
                    xs + w <= wa,
                    ys + h <= ha,
                    bm.pixel_data@.len() == w * h * 4,
                    1 <= w,
                    1 <= h,
                    r < h,
                    c <= w,
                    self.size == old(self).size,
                    self.next == old(self).next,
                    self.max_height == old(self).max_height,
                    self.glyphs@ == old(self).glyphs@,
                    self.face == old(self).face,
                    forall|px: int, py: int, ch: int|
                        0 <= px < wa && 0 <= py < ha && 0 <= ch < 4 ==> #[trigger] self.pixels@[
                            at_px(wa as int, px, py, ch)] == (if xs <= px < xs + w && (ys <= py
                            < ys + r || (py == ys + r && xs <= px < xs + c)) {
                            bm.pixel_data@[at_px(w as int, px - xs, py - ys, ch)]
                        } else {
                            pix0[at_px(wa as int, px, py, ch)]
                        }),
                decreases w - c,
            {
                proof {
                    lemma_cell_in_range(wa as int, ha as int, (xs + c) as int, (ys + r) as int);
                    lemma_cell_in_range(w as int, h as int, c as int, r as int);
                    assert(self.pixels.len() <= usize::MAX);
                    assert(bm.pixel_data.len() <= usize::MAX);
                }
                let dst = ((ys + r) * wa + (xs + c)) * 4;
                let srci = (r * w + c) * 4;
                let ghost before = self.pixels@;
                let v0 = bm.pixel_data[srci];
                let v1 = bm.pixel_data[srci + 1];
                let v2 = bm.pixel_data[srci + 2];
                let v3 = bm.pixel_data[srci + 3];
                self.pixels.set(dst, v0);
                self.pixels.set(dst + 1, v1);
                self.pixels.set(dst + 2, v2);
                self.pixels.set(dst + 3, v3);
                proof {
                    let wi = wa as int;
                    let qx = (xs + c) as int;
                    let qy = (ys + r) as int;
                    assert forall|px: int, py: int, ch: int|
                        0 <= px < wa && 0 <= py < ha && 0 <= ch < 4 implies #[trigger] self.pixels@[
                        at_px(wi, px, py, ch)] == (if xs <= px < xs + w && (ys <= py < ys + r || (
                        py == ys + r && xs <= px < xs + c + 1)) {
                        bm.pixel_data@[at_px(w as int, px - xs, py - ys, ch)]
                    } else {
                        pix0[at_px(wi, px, py, ch)]
                    }) by {
                        lemma_cell_in_range(wi, ha as int, px, py);
                        if px == qx && py == qy {
                            assert(at_px(wi, px, py, ch) == dst + ch);
                            assert(at_px(w as int, px - xs, py - ys, ch) == srci + ch);
                        } else {
                            lemma_at_ne(wi, px, py, ch, qx, qy, 0);
                            lemma_at_ne(wi, px, py, ch, qx, qy, 1);
                            lemma_at_ne(wi, px, py, ch, qx, qy, 2);
                            lemma_at_ne(wi, px, py, ch, qx, qy, 3);
                            assert(self.pixels@[at_px(wi, px, py, ch)] == before[at_px(
                                wi,
                                px,
                                py,
                                ch,
                            )]);
                        }
                    }
                }
                c = c + 1;
            }
            r = r + 1;
        }
    }
}

/// One cache survives into another: every placement stays, unchanged.
pub open spec fn cache_extends(post: Map<u64, GlyphInfo>, pre: Map<u64, GlyphInfo>) -> bool {
    forall|k: u64| #[trigger] pre.contains_key(k) ==> post.contains_key(k) && post[k] == pre[k]
}

/// Everything one atlas lookup guarantees, relating the atlas before and
/// after the call: the invariant, size and rasterizer handle are kept,
/// the cache only grows, a hit changes nothing and returns the cached
/// placement, a failure changes nothing, and a successful miss caches
/// exactly the returned placement and paints only inside its rectangle.
pub open spec fn get_post(
    pre: TextureAtlas,
    post: TextureAtlas,
    g: Glyph,
    r: Option<GlyphInfo>,
) -> bool {
    &&& post.wf()
    &&& post.spec_size() == pre.spec_size()
    &&& post.spec_face() == pre.spec_face()
    &&& post.pixels_view().len() == pre.pixels_view().len()
    &&& cache_extends(post.spec_cache(), pre.spec_cache())
    &&& (pre.has_glyph(g) ==> post == pre && r == Some(pre.cached(g)))
    &&& (r is None ==> post == pre && !pre.has_glyph(g))
    &&& match r {
        Some(info) => {
            &&& post.has_glyph(g)
            &&& post.cached(g) == info
            &&& 1 <= info.width && 1 <= info.height
            &&& in_bounds(info, post.spec_size())
            &&& sane_metrics(info.metrics)
            &&& (!pre.has_glyph(g) ==> {
                &&& post.spec_cache() == pre.spec_cache().insert(g.spec_key(), info)
                &&& forall|px: int, py: int, ch: int|
                    0 <= px < pre.spec_size().0 && 0 <= py < pre.spec_size().1 && 0 <= ch < 4 && !(
                    info.x <= px < info.x + info.width && info.y <= py < info.y + info.height)
                        ==> #[trigger] post.pixels_view()[at_px(
                        pre.spec_size().0 as int,
                        px,
                        py,
                        ch,
                    )] == pre.pixels_view()[at_px(pre.spec_size().0 as int, px, py, ch)]
            })
        },
        None => true,
    }
}

impl TextureAtlas {
    /// Looks a (character, size) pair up, rasterizing, normalizing and
    /// packing it on the first request. A cached pair is returned
    /// immediately, with no rasterizer call and no state change. `None`
    /// means the glyph is unavailable: the rasterizer refused it, its
    /// bitmap could not be normalized, its metrics are unusable, or the
    /// atlas has no room left for it; the atlas is then unchanged, and a
    /// later request may retry cheaply.
    pub fn get(&mut self, ch: char, font_size: u32) -> (r: Option<GlyphInfo>)
        requires
            old(self).wf(),
        ensures
            get_post(*old(self), *final(self), Glyph { ch, font_size }, r),
    {
        let ghost g = Glyph { ch, font_size };
        let key = Glyph { ch, font_size }.key();
        if let Some(info) = self.glyphs.get(&key) {
            return Some(*info);
        }
        if !select_size(&self.face, font_size) {
            return None;
        }
        if !load_rendered(&self.face, ch) {
            return None;
        }
        let raster = glyph_bitmap(&self.face);
        let metrics = glyph_metrics_of(&self.face);
        if !metrics_ok(&metrics) {
            return None;
        }
        let bm = match BitmapRGBA8888::new(&raster) {
            Some(b) => b,
            None => {
                return None;
            },
        };
        let ghost s0 = *self;
        let slot = match self.get_slot(bm.width, bm.height) {
            Some(s) => s,
            None => {
                return None;
            },
        };
        let ghost s1 = *self;
        self.blit(slot.0, slot.1, &bm);
        let info = GlyphInfo {
            x: slot.0,
            y: slot.1,
            width: bm.width,
            height: bm.height,
            metrics,
        };
        self.glyphs.insert(key, info);
        proof {
            let post = *self;
            assert forall|k: u64| #[trigger] post.glyphs@.contains_key(k) implies {
                let pg = post.glyphs@[k];
                &&& 1 <= pg.width
                &&& 1 <= pg.height
                &&& in_bounds(pg, post.size)
                &&& behind_cursor(pg, post.next, post.max_height)
                &&& sane_metrics(pg.metrics)
            } by {
                if k != key {
                    assert(s0.glyphs@.contains_key(k));
                    assert(behind_cursor(s0.glyphs@[k], s0.next, s0.max_height));
                }
            }
            assert forall|k1: u64, k2: u64|
                #[trigger] post.glyphs@.contains_key(k1) && #[trigger] post.glyphs@.contains_key(
                    k2,
                ) && k1 != k2 implies disjoint(post.glyphs@[k1], post.glyphs@[k2]) by {
                if k1 != key && k2 != key {
                    assert(s0.glyphs@.contains_key(k1) && s0.glyphs@.contains_key(k2));
                } else if k1 == key {
                    assert(s0.glyphs@.contains_key(k2));
                    assert(behind_cursor(s0.glyphs@[k2], s0.next, s0.max_height));
                } else {
                    assert(s0.glyphs@.contains_key(k1));
                    assert(behind_cursor(s0.glyphs@[k1], s0.next, s0.max_height));
                }
            }
            assert(post.wf());
        }
        Some(info)
    }

    /// Reselects the rasterizer's active size and reads the per-size
    /// metrics, divided down to whole pixels. `None` means the
    /// rasterizer refused the size or reported metrics the layout
    /// arithmetic cannot carry safely.
    pub fn font_metrics(&self, font_size: u32) -> (r: Option<FontMetrics>)
        ensures
            r matches Some(fm) ==> sane_font_metrics(fm),
    {
        if !select_size(&self.face, font_size) {
            return None;
        }
        match size_metrics_of(&self.face) {
            None => None,
            Some((h, a, d)) => {
                if 64 <= h && h <= MAX_METRIC && 0 <= a && a <= MAX_METRIC && -MAX_METRIC <= d
                    && d <= MAX_METRIC {
                    Some(
                        FontMetrics {
                            line_height: div64(h),
                            ascender: div64(a),
                            descender: div64(d),
                        },
                    )
                } else {
                    None
                }
            },
        }
    }

    /// The line height, in whole pixels, at the given size.
    pub fn line_height(&self, font_size: u32) -> (r: Option<i64>)
        ensures
            r matches Some(lh) ==> 1 <= lh <= crate::MAX_DIM,
    {
        match self.font_metrics(font_size) {
            Some(fm) => Some(fm.line_height),
            None => None,
        }
    }
}

/// How an atlas may change over any number of lookups: it stays
/// well-formed, keeps its size, buffer length and rasterizer handle,
/// and its cache only grows, existing placements untouched.
pub open spec fn atlas_evolves(pre: TextureAtlas, post: TextureAtlas) -> bool {
    &&& post.wf()
    &&& post.spec_size() == pre.spec_size()
    &&& post.spec_face() == pre.spec_face()
    &&& post.pixels_view().len() == pre.pixels_view().len()
    &&& cache_extends(post.spec_cache(), pre.spec_cache())
}

/// Packing safety: any two distinct cached glyphs of a well-formed
/// atlas occupy disjoint rectangles, each fully inside the atlas.
pub proof fn lemma_packing_safety(a: TextureAtlas, g1: Glyph, g2: Glyph)
    requires
        a.wf(),
        a.has_glyph(g1),
        a.has_glyph(g2),
        g1 != g2,
    ensures
        in_bounds(a.cached(g1), a.spec_size()),
        in_bounds(a.cached(g2), a.spec_size()),
        disjoint(a.cached(g1), a.cached(g2)),
{
    if g1.spec_key() == g2.spec_key() {
        Glyph::lemma_key_injective(g1, g2);
    }
}

/// Cache idempotence: once a lookup has produced a placement, looking
/// the same glyph up again returns the identical placement and leaves
/// the atlas untouched; in particular the second lookup rasterizes
/// nothing.
pub proof fn lemma_cache_idempotent(
    a1: TextureAtlas,
    a2: TextureAtlas,
    a3: TextureAtlas,
    g: Glyph,
    r1: Option<GlyphInfo>,
    r2: Option<GlyphInfo>,
)
    requires
        get_post(a1, a2, g, r1),
        get_post(a2, a3, g, r2),
        r1 is Some,
    ensures
        r2 == r1,
        a3 == a2,
{
}

/// The flat index of channel `ch` of pixel (`px`, `py`) in a tightly
/// packed RGBA buffer `w` pixels wide.
pub open spec fn at_px(w: int, px: int, py: int, ch: int) -> int {
    (py * w + px) * 4 + ch
}

/// A cell inside a buffer's bounds has all four of its channel indices
/// inside the buffer.
proof fn lemma_cell_in_range(w: int, h: int, px: int, py: int)
    requires
        0 <= px < w,
        0 <= py < h,
    ensures
        0 <= (py * w + px) * 4,
        (py * w + px) * 4 + 4 <= w * h * 4,
        at_px(w, px, py, 0) == (py * w + px) * 4,
        at_px(w, px, py, 1) == (py * w + px) * 4 + 1,
        at_px(w, px, py, 2) == (py * w + px) * 4 + 2,
        at_px(w, px, py, 3) == (py * w + px) * 4 + 3,
{
    assert(0 <= py * w + px && py * w + px + 1 <= w * h) by (nonlinear_arith)
        requires
            0 <= px < w,
            0 <= py < h,
    ;
}

/// Distinct pixel/channel coordinates map to distinct flat indices.
proof fn lemma_at_ne(w: int, px: int, py: int, ch: int, qx: int, qy: int, qc: int)
    requires
        0 <= px < w,
        0 <= qx < w,
        0 <= ch < 4,
        0 <= qc < 4,
        0 <= py,
        0 <= qy,
        !(px == qx && py == qy && ch == qc),
    ensures
        at_px(w, px, py, ch) != at_px(w, qx, qy, qc),
{
    if at_px(w, px, py, ch) == at_px(w, qx, qy, qc) {
        assert(py * w + px == qy * w + qx && ch == qc);
        assert(py == qy && px == qx) by (nonlinear_arith)
            requires
                py * w + px == qy * w + qx,
                0 <= px < w,
                0 <= qx < w,
                0 <= py,
                0 <= qy,
        ;
    }
}

} // verus!
