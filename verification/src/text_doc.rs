//! The text layout and scroll engine. A document owns its text, a
//! scroll offset with a lazily discovered bound, and an append-only
//! index of line start offsets; each render pass turns the viewport and
//! scroll offset into the visible glyph placements and line separators,
//! extending the index and tightening the scroll bound as it goes.
//!
//! Sign convention: the scroll offset is non-negative and grows as the
//! view moves down the document; `scroll` rejects (as a no-op) any
//! delta that would leave `[0, max_scroll_offset]`.

use vstd::prelude::*;
use vstd::std_specs::iter::IteratorSpec;

use crate::texture_atlas::{atlas_evolves, Glyph, GlyphInfo, TextureAtlas};
use crate::{sane_font_metrics, sane_metrics, spec_div64, FontMetrics, FONT_SIZE, MAX_DIM,
    MAX_TEXT};

verus! {

/// A glyph draw command a render pass emits: a source rectangle in the
/// atlas and the destination position in viewport pixels.
#[derive(Clone, Copy, PartialEq, Eq, Structural, Debug)]
pub struct Blit {
    pub src_x: u32,
    pub src_y: u32,
    pub width: u32,
    pub height: u32,
    pub dst_x: i64,
    pub dst_y: i64,
}

/// A horizontal line-separator a render pass emits, spanning
/// `[x_start, x_end]` at height `y`, in viewport pixels.
#[derive(Clone, Copy, PartialEq, Eq, Structural, Debug)]
pub struct Separator {
    pub x_start: i64,
    pub x_end: i64,
    pub y: i64,
}

/// Everything one render pass tells the drawing surface to do, plus a
/// ghost record of the atlas answer for each character the pass walked.
pub struct Frame {
    pub glyphs: Vec<Blit>,
    pub separators: Vec<Separator>,
    pub lookups: Ghost<Seq<Option<GlyphInfo>>>,
}

/// Why a render pass can fail.
#[derive(Clone, Copy, PartialEq, Eq, Structural, Debug)]
pub enum RenderError {
    /// The rasterizer gave no usable per-size metrics.
    FontUnavailable,
    /// The scroll offset points past every indexed line: the analytic
    /// first-line computation and the line index have diverged, which
    /// is an internal consistency fault, not bad input.
    IndexDivergence,
}

/// The per-pass constants of the character walk: the pen's horizontal
/// span, the viewport height and the line height, all in pixels.
pub struct WalkParams {
    pub x_start: int,
    pub x_end: int,
    pub vh: int,
    pub lh: int,
}

/// The state of the character walk: the next character index, the pen,
/// the current line number, the line index, and what has been emitted.
pub struct WalkState {
    pub i: int,
    pub x: int,
    pub y: int,
    pub line_no: int,
    pub starts: Seq<usize>,
    pub blits: Seq<Blit>,
    pub seps: Seq<Separator>,
    pub stopped: bool,
}

/// How far the pen advances for one character: the glyph's advance in
/// whole pixels when it is available with usable metrics, otherwise one
/// line height as the fallback width.
pub open spec fn adv_px(info: Option<GlyphInfo>, lh: int) -> int {
    match info {
        Some(gi) => if sane_metrics(gi.metrics) {
            spec_div64(gi.metrics.advance as int)
        } else {
            lh
        },
        None => lh,
    }
}

/// The draw command for a glyph at pen position (`x`, `y`): the bitmap
/// is placed bearing-adjusted left of and above the pen.
pub open spec fn make_blit(gi: GlyphInfo, x: int, y: int) -> Blit {
    Blit {
        src_x: gi.x,
        src_y: gi.y,
        width: gi.width,
        height: gi.height,
        dst_x: (x + spec_div64(gi.metrics.bearing_x as int)) as i64,
        dst_y: (y - spec_div64(gi.metrics.bearing_y as int)) as i64,
    }
}

/// The line index may take a new entry only at its frontier, and only
/// one that keeps it strictly increasing; a stale index (left by passes
/// under another viewport) is frozen rather than corrupted.
pub open spec fn may_append(starts: Seq<usize>, line_no: int, off: int) -> bool {
    starts.len() == line_no && (starts.last() as int) < off
}

/// One step of the character walk: how one character, with the atlas
/// answer for it, transforms the walk state. A line break occurs at a
/// line feed, or, for a line that already has content, when the advance
/// would overrun the right edge; the overrunning character itself then
/// starts the new line. Carriage returns are consumed without drawing
/// or advancing. The walk stops once the pen is more than one line
/// height below the viewport, and emits no placements while it is more
/// than one line height above it.
pub open spec fn walk_step(
    st: WalkState,
    c: char,
    info: Option<GlyphInfo>,
    p: WalkParams,
) -> WalkState {
    if st.stopped {
        st
    } else {
        let adv = adv_px(info, p.lh);
        if c == '\n' {
            let ln = st.line_no + 1;
            let starts2 = if may_append(st.starts, ln, st.i + 1) {
                st.starts.push((st.i + 1) as usize)
            } else {
                st.starts
            };
            WalkState {
                i: st.i + 1,
                x: p.x_start,
                y: st.y + p.lh,
                line_no: ln,
                starts: starts2,
                blits: st.blits,
                seps: st.seps.push(
                    Separator { x_start: p.x_start as i64, x_end: p.x_end as i64, y: (st.y + p.lh) as i64 },
                ),
                stopped: false,
            }
        } else {
            let wrapped = st.x > p.x_start && st.x + adv > p.x_end;
            let ln = if wrapped { st.line_no + 1 } else { st.line_no };
            let x1 = if wrapped { p.x_start } else { st.x };
            let y1 = if wrapped { st.y + p.lh } else { st.y };
            let starts1 = if wrapped && may_append(st.starts, ln, st.i) {
                st.starts.push(st.i as usize)
            } else {
                st.starts
            };
            let seps1 = if wrapped {
                st.seps.push(
                    Separator { x_start: p.x_start as i64, x_end: p.x_end as i64, y: y1 as i64 },
                )
            } else {
                st.seps
            };
            if c == '\r' {
                WalkState {
                    i: st.i + 1,
                    x: x1,
                    y: y1,
                    line_no: ln,
                    starts: starts1,
                    blits: st.blits,
                    seps: seps1,
                    stopped: false,
                }
            } else if y1 > p.vh + p.lh {
                WalkState {
                    i: st.i + 1,
                    x: x1,
                    y: y1,
                    line_no: ln,
                    starts: starts1,
                    blits: st.blits,
                    seps: seps1,
                    stopped: true,
                }
            } else {
                let blits2 = if y1 + p.lh >= 0 {
                    match info {
                        Some(gi) => st.blits.push(make_blit(gi, x1, y1)),
                        None => st.blits,
                    }
                } else {
                    st.blits
                };
                WalkState {
                    i: st.i + 1,
                    x: x1 + adv,
                    y: y1,
                    line_no: ln,
                    starts: starts1,
                    blits: blits2,
                    seps: seps1,
                    stopped: false,
                }
            }
        }
    }
}

/// The walk after consuming one atlas answer per entry of `infos`,
/// starting from `st0`: each step reads the character the walk stands
/// on and the corresponding answer.
pub open spec fn walk_upto(
    text: Seq<char>,
    p: WalkParams,
    st0: WalkState,
    infos: Seq<Option<GlyphInfo>>,
) -> WalkState
    decreases infos.len(),
{
    if infos.len() == 0 {
        st0
    } else {
        let prev = walk_upto(text, p, st0, infos.drop_last());
        walk_step(prev, text[prev.i], infos.last(), p)
    }
}

/// The top of the first line the walk starts at: scrolled distance is
/// divided by the line height, so the line chosen and the pixel `y`
/// agree.
pub open spec fn spec_threshold(padding: int, fm: FontMetrics) -> int {
    padding + fm.ascender + fm.line_height
}

/// The number of the first line a pass walks from.
pub open spec fn spec_start_line(scroll: int, padding: int, fm: FontMetrics) -> int {
    if scroll <= spec_threshold(padding, fm) {
        0
    } else {
        1 + (scroll - spec_threshold(padding, fm)) / (fm.line_height as int)
    }
}

/// The pen's starting baseline for that first line.
pub open spec fn spec_y0(scroll: int, padding: int, fm: FontMetrics) -> int {
    (if scroll <= spec_threshold(padding, fm) {
        spec_threshold(padding, fm) - scroll
    } else {
        fm.line_height - ((scroll - spec_threshold(padding, fm)) % (fm.line_height as int))
    }) - fm.line_height
}

/// The walk constants of one pass.
pub open spec fn spec_params(padding: int, vw: int, vh: int, fm: FontMetrics) -> WalkParams {
    WalkParams { x_start: padding, x_end: vw - padding, vh: vh, lh: fm.line_height as int }
}

/// The walk's initial state: the pen at the start line's baseline with
/// that line's separator already emitted.
pub open spec fn spec_init_state(starts: Seq<usize>, sl: int, p: WalkParams, y0: int) -> WalkState {
    WalkState {
        i: starts[sl] as int,
        x: p.x_start,
        y: y0,
        line_no: sl,
        starts,
        blits: Seq::empty(),
        seps: seq![Separator { x_start: p.x_start as i64, x_end: p.x_end as i64, y: y0 as i64 }],
        stopped: false,
    }
}

/// The offsets of a line index are positions in the document's sequence
/// of Unicode scalar values (a byte-order mark, if the source text had
/// one, is stripped on construction, so offset 0 is the first real
/// character).
pub struct TextDoc {
    text: Vec<char>,
    padding: i64,
    scroll_offset: i64,
    max_scroll_offset: i64,
    line_starts: Vec<usize>,
}

/// The text a document keeps: the given scalar values, with one leading
/// byte-order mark stripped.
pub open spec fn spec_strip_bom(s: Seq<char>) -> Seq<char> {
    if s.len() > 0 && s[0] == '\u{feff}' {
        s.subrange(1, s.len() as int)
    } else {
        s
    }
}

impl TextDoc {
    /// The document's characters.
    pub closed spec fn spec_text(self) -> Seq<char> {
        self.text@
    }

    /// The configured horizontal and vertical padding, in pixels.
    pub closed spec fn spec_padding(self) -> i64 {
        self.padding
    }

    /// The current scroll offset, in pixels.
    pub closed spec fn spec_scroll(self) -> i64 {
        self.scroll_offset
    }

    /// The discovered scroll bound; `i64::MAX` while still unknown.
    pub closed spec fn spec_max_scroll(self) -> i64 {
        self.max_scroll_offset
    }

    /// The line index: entry `i` is the offset of the first character
    /// of line `i`, as far as render passes have discovered lines.
    pub closed spec fn spec_line_starts(self) -> Seq<usize> {
        self.line_starts@
    }

    /// Well-formedness: bounded text and padding, a scroll offset
    /// inside `[0, max_scroll_offset]`, and a line index that starts at
    /// offset 0, grows strictly, and stays inside the document.
    pub closed spec fn wf(self) -> bool {
        &&& self.text@.len() <= MAX_TEXT
        &&& 0 <= self.padding <= MAX_DIM
        &&& 0 <= self.scroll_offset
        &&& self.scroll_offset <= self.max_scroll_offset
        &&& 1 <= self.line_starts@.len()
        &&& self.line_starts@[0] == 0
        &&& forall|i: int|
            0 <= i < self.line_starts@.len() - 1 ==> #[trigger] self.line_starts@[i]
                < self.line_starts@[i + 1]
        &&& forall|i: int|
            0 <= i < self.line_starts@.len() ==> #[trigger] self.line_starts@[i] <= self.text@.len()
    }

    /// Creates a document around a text buffer: scroll starts at 0 with
    /// the bound unknown, and line 0 is indexed at offset 0.
    pub fn new(text: String, padding: i64) -> (d: TextDoc)
        requires
            0 <= padding <= MAX_DIM,
            text@.len() <= MAX_TEXT,
        ensures
            d.wf(),
            d.spec_text() == spec_strip_bom(text@),
            d.spec_padding() == padding,
            d.spec_scroll() == 0,
            d.spec_max_scroll() == i64::MAX,
            d.spec_line_starts() == seq![0usize],
    {
        let mut chars: Vec<char> = Vec::new();
        let mut it = text.as_str().chars();
        loop
            invariant
                chars@ + it.remaining() == text@,
                it.decrease() is Some,
            ensures
                chars@ == text@,
            decreases it.decrease()->0,
        {
            match it.next() {
                Some(c) => {
                    chars.push(c);
                },
                None => {
                    proof {
                        assert(chars@ =~= text@);
                    }
                    break ;
                },
            }
        }
        if chars.len() > 0 && chars[0] == '\u{feff}' {
            chars.remove(0);
            proof {
                assert(chars@ =~= spec_strip_bom(text@));
            }
        }
        let mut line_starts: Vec<usize> = Vec::new();
        line_starts.push(0);
        proof {
            assert(line_starts@ =~= seq![0usize]);
        }
        TextDoc { text: chars, padding, scroll_offset: 0, max_scroll_offset: i64::MAX, line_starts }
    }

    /// The offset a scroll delta leads to: the delta is applied if and
    /// only if the resulting offset stays inside
    /// `[0, max_scroll_offset]`; any other delta is a no-op.
    pub open spec fn scroll_result(self, amt: i64) -> int {
        if 0 <= self.spec_scroll() + amt <= self.spec_max_scroll() {
            self.spec_scroll() + amt
        } else {
            self.spec_scroll() as int
        }
    }

    /// Applies a scroll delta if and only if the resulting offset stays
    /// inside `[0, max_scroll_offset]`; any other delta is rejected and
    /// the offset is unchanged.
    pub fn scroll(&mut self, amt: i64)
        requires
            old(self).wf(),
        ensures
            final(self).wf(),
            final(self).spec_text() == old(self).spec_text(),
            final(self).spec_padding() == old(self).spec_padding(),
            final(self).spec_line_starts() == old(self).spec_line_starts(),
            final(self).spec_max_scroll() == old(self).spec_max_scroll(),
            final(self).spec_scroll() as int == old(self).scroll_result(amt),
    {
        match self.scroll_offset.checked_add(amt) {
            Some(next) => {
                if next >= 0 && next <= self.max_scroll_offset {
                    self.scroll_offset = next;
                }
            },
            None => {},
        }
    }

    /// The current scroll offset, in pixels.
    pub fn scroll_offset(&self) -> (r: i64)
        ensures
            r == self.spec_scroll(),
    {
        self.scroll_offset
    }

    /// The discovered scroll bound; `i64::MAX` while still unknown.
    pub fn max_scroll_offset(&self) -> (r: i64)
        ensures
            r == self.spec_max_scroll(),
    {
        self.max_scroll_offset
    }

    /// The line index discovered so far.
    pub fn line_starts(&self) -> (r: &Vec<usize>)
        ensures
            r@ == self.spec_line_starts(),
    {
        &self.line_starts
    }
}

/// What a successful render pass guarantees: the pass found its start
/// line in the index, and the new line index, the emitted placements
/// and separators, and the scroll bound are exactly what the character
/// walk `walk_upto` produces over the atlas answers the frame records;
/// each recorded answer is consistent with the atlas (a placement
/// handed out is cached afterwards, and a glyph already cached before
/// the pass is answered with exactly its cached placement).
pub open spec fn render_pass_post(
    pre: TextDoc,
    post: TextDoc,
    apre: TextureAtlas,
    apost: TextureAtlas,
    vw: int,
    vh: int,
    fm: FontMetrics,
    frame: Frame,
) -> bool {
    let pad = pre.spec_padding() as int;
    let scroll = pre.spec_scroll() as int;
    let p = spec_params(pad, vw, vh, fm);
    let sl = spec_start_line(scroll, pad, fm);
    let st0 = spec_init_state(pre.spec_line_starts(), sl, p, spec_y0(scroll, pad, fm));
    let w = walk_upto(pre.spec_text(), p, st0, frame.lookups@);
    &&& 0 <= sl < pre.spec_line_starts().len()
    &&& post.spec_line_starts() == w.starts
    &&& frame.glyphs@ == w.blits
    &&& frame.separators@ == w.seps
    &&& w.i == st0.i + frame.lookups@.len()
    &&& (w.stopped || w.i == pre.spec_text().len())
    &&& post.spec_max_scroll() as int == (
    if !w.stopped && w.y + fm.descender + pad < vh {
        scroll
    } else {
        pre.spec_max_scroll() as int
    })
    &&& forall|j: int|
        0 <= j < frame.lookups@.len() ==> {
            let gj = Glyph { ch: pre.spec_text()[st0.i + j], font_size: FONT_SIZE };
            &&& (#[trigger] frame.lookups@[j] matches Some(gi) ==> apost.has_glyph(gj)
                && apost.cached(gj) == gi)
            &&& (apre.has_glyph(gj) ==> frame.lookups@[j] == Some(apre.cached(gj)))
        }
}

impl TextDoc {
    /// One render pass at explicitly supplied font metrics: computes
    /// the first visible line analytically, walks characters from that
    /// line's indexed offset, and hands back the glyph placements and
    /// line separators of the visible region. The pass extends the
    /// line index at its frontier, and records the current offset as
    /// the scroll bound once the walk exhausts the document with the
    /// last line fitting above the viewport bottom. It fails exactly
    /// when the scroll offset points past every indexed line.
    #[verifier::rlimit(100)]
    pub fn render_pass(
        &mut self,
        atlas: &mut TextureAtlas,
        viewport_w: i64,
        viewport_h: i64,
        fm: FontMetrics,
    ) -> (res: Result<Frame, RenderError>)
        requires
            old(self).wf(),
            old(atlas).wf(),
            0 <= viewport_w <= MAX_DIM,
            0 <= viewport_h <= MAX_DIM,
            sane_font_metrics(fm),
        ensures
            final(self).wf(),
            atlas_evolves(*old(atlas), *final(atlas)),
            final(self).spec_text() == old(self).spec_text(),
            final(self).spec_padding() == old(self).spec_padding(),
            final(self).spec_scroll() == old(self).spec_scroll(),
            res is Err <==> spec_start_line(
                old(self).spec_scroll() as int,
                old(self).spec_padding() as int,
                fm,
            ) >= old(self).spec_line_starts().len(),
            res matches Err(e) ==> e == RenderError::IndexDivergence && *final(self) == *old(self)
                && *final(atlas) == *old(atlas),
            res matches Ok(frame) ==> render_pass_post(
                *old(self),
                *final(self),
                *old(atlas),
                *final(atlas),
                viewport_w as int,
                viewport_h as int,
                fm,
                frame,
            ),
    {
        let pad = self.padding;
        let x_start = pad;
        let x_end = viewport_w - pad;
        let lh = fm.line_height;
        let th = pad + fm.ascender + lh;
        let scroll = self.scroll_offset;
        let (line_no0, y0): (i64, i64) = if scroll <= th {
            (0, th - scroll - lh)
        } else {
            let d = scroll - th;
            (1 + d / lh, lh - (d % lh) - lh)
        };
        proof {
            assert(line_no0 as int == spec_start_line(scroll as int, pad as int, fm));
            assert(y0 as int == spec_y0(scroll as int, pad as int, fm));
            assert(-MAX_DIM <= y0 <= 3 * MAX_DIM);
            lemma_line_index_len(*self);
        }
        let len_ls = self.line_starts.len();
        if line_no0 >= len_ls as i64 {
            return Err(RenderError::IndexDivergence);
        }
        let start_line = line_no0 as usize;
        let start_i = self.line_starts[start_line];
        let n = self.text.len();
        let ghost text0 = self.text@;
        let ghost starts0 = self.line_starts@;
        let ghost atlas0 = *atlas;
        let ghost max0 = self.max_scroll_offset;
        let ghost p = spec_params(pad as int, viewport_w as int, viewport_h as int, fm);
        let ghost st0 = spec_init_state(starts0, start_line as int, p, y0 as int);
        let mut i = start_i;
        let mut x = x_start;
        let mut y = y0;
        let mut line_no = start_line;
        let mut stopped = false;
        let mut glyphs: Vec<Blit> = Vec::new();
        let mut seps: Vec<Separator> = Vec::new();
        seps.push(Separator { x_start, x_end, y });
        let ghost mut lk: Seq<Option<GlyphInfo>> = Seq::empty();
        proof {
            assert(seps@ =~= st0.seps);
            assert(glyphs@ =~= st0.blits);
        }
        while i < n && !stopped
            invariant
                self.wf(),
                self.text@ == text0,
                self.padding == pad,
                self.scroll_offset == scroll,
                self.max_scroll_offset == max0,
                n == text0.len(),
                n <= MAX_TEXT,
                sane_font_metrics(fm),
                0 <= pad <= MAX_DIM,
                0 <= viewport_w <= MAX_DIM,
                0 <= viewport_h <= MAX_DIM,
                x_start == pad,
                x_end == viewport_w - pad,
                lh == fm.line_height,
                p == spec_params(pad as int, viewport_w as int, viewport_h as int, fm),
                st0 == spec_init_state(starts0, line_no0 as int, p, y0 as int),
                st0.i == start_i as int,
                start_i <= i <= n,
                -MAX_DIM <= y0 <= 3 * MAX_DIM,
                pad <= x <= 2 * MAX_DIM,
                starts0.len() <= n + 1,
                line_no as int <= starts0.len() - 1 + (i - start_i),
                y0 <= y,
                y as int <= y0 + (i - start_i) * (lh as int),
                lk.len() == i - start_i,
                ({
                    let w = walk_upto(text0, p, st0, lk);
                    &&& w.i == i as int
                    &&& w.x == x as int
                    &&& w.y == y as int
                    &&& w.line_no == line_no as int
                    &&& w.stopped == stopped
                    &&& w.starts == self.spec_line_starts()
                    &&& w.blits == glyphs@
                    &&& w.seps == seps@
                }),
                atlas.wf(),
                atlas_evolves(atlas0, *atlas),
                forall|j: int|
                    0 <= j < lk.len() ==> {
                        let gj = Glyph { ch: text0[start_i + j], font_size: FONT_SIZE };
                        &&& (#[trigger] lk[j] matches Some(gi) ==> atlas.has_glyph(gj)
                            && atlas.cached(gj) == gi)
                        &&& (atlas0.has_glyph(gj) ==> lk[j] == Some(atlas0.cached(gj)))
                    },
            decreases n - i,
        {
            let ghost lk0 = lk;
            let ghost w_pre = walk_upto(text0, p, st0, lk0);
            let c = self.text[i];
            let ghost atlas_pre = *atlas;
            let info = atlas.get(c, FONT_SIZE);
            proof {
                lk = lk0.push(info);
                assert(lk.drop_last() =~= lk0);
                assert(lk.last() == info);
                assert(walk_upto(text0, p, st0, lk) == walk_step(w_pre, c, info, p));
            }
            let adv: i64 = match info {
                Some(gi) => {
                    if crate::metrics_ok(&gi.metrics) {
                        crate::div64(gi.metrics.advance)
                    } else {
                        lh
                    }
                },
                None => lh,
            };
            proof {
                assert(adv as int == adv_px(info, p.lh));
                assert((i - start_i) * (lh as int) <= MAX_TEXT * MAX_DIM) by (nonlinear_arith)
                    requires
                        0 <= i - start_i <= MAX_TEXT,
                        0 < lh <= MAX_DIM,
                ;
                assert((i + 1 - start_i) * (lh as int) == (i - start_i) * (lh as int) + lh)
                    by (nonlinear_arith);
            }
            if c == '\n' {
                y = y + lh;
                x = x_start;
                line_no = line_no + 1;
                let ls_len = self.line_starts.len();
                if ls_len == line_no && self.line_starts[ls_len - 1] < i + 1 {
                    self.line_starts.push(i + 1);
                }
                seps.push(Separator { x_start, x_end, y });
                i = i + 1;
            } else {
                let wrapped = x > x_start && x + adv > x_end;
                if wrapped {
                    x = x_start;
                    y = y + lh;
                    line_no = line_no + 1;
                    let ls_len = self.line_starts.len();
                    if ls_len == line_no && self.line_starts[ls_len - 1] < i {
                        self.line_starts.push(i);
                    }
                    seps.push(Separator { x_start, x_end, y });
                }
                if c == '\r' {
                    i = i + 1;
                } else if y > viewport_h + lh {
                    stopped = true;
                    i = i + 1;
                } else {
                    if y + lh >= 0 {
                        if let Some(gi) = info {
                            glyphs.push(
                                Blit {
                                    src_x: gi.x,
                                    src_y: gi.y,
                                    width: gi.width,
                                    height: gi.height,
                                    dst_x: x + crate::div64(gi.metrics.bearing_x),
                                    dst_y: y - crate::div64(gi.metrics.bearing_y),
                                },
                            );
                        }
                    }
                    x = x + adv;
                    i = i + 1;
                }
            }
        }
        proof {
            assert((i - start_i) * (lh as int) <= MAX_TEXT * MAX_DIM) by (nonlinear_arith)
                requires
                    0 <= i - start_i <= MAX_TEXT,
                    0 < lh <= MAX_DIM,
            ;
        }
        if !stopped && y + fm.descender + pad < viewport_h {
            self.max_scroll_offset = self.scroll_offset;
        }
        Ok(Frame { glyphs, separators: seps, lookups: Ghost(lk) })
    }
}

impl TextDoc {
    /// A full render pass: reselects the rasterizer's size through the
    /// atlas, reads the per-size font metrics, and runs the character
    /// walk with them. Fails with `FontUnavailable`, leaving everything
    /// unchanged, when no usable metrics can be had.
    pub fn render(&mut self, atlas: &mut TextureAtlas, viewport_w: i64, viewport_h: i64) -> (res:
        Result<Frame, RenderError>)
        requires
            old(self).wf(),
            old(atlas).wf(),
            0 <= viewport_w <= MAX_DIM,
            0 <= viewport_h <= MAX_DIM,
        ensures
            final(self).wf(),
            atlas_evolves(*old(atlas), *final(atlas)),
            final(self).spec_text() == old(self).spec_text(),
            final(self).spec_padding() == old(self).spec_padding(),
            final(self).spec_scroll() == old(self).spec_scroll(),
            res is Err ==> *final(self) == *old(self) && *final(atlas) == *old(atlas),
            res matches Ok(frame) ==> exists|fm: FontMetrics|
                sane_font_metrics(fm) && #[trigger] render_pass_post(
                    *old(self),
                    *final(self),
                    *old(atlas),
                    *final(atlas),
                    viewport_w as int,
                    viewport_h as int,
                    fm,
                    frame,
                ),
    {
        match atlas.font_metrics(FONT_SIZE) {
            None => Err(RenderError::FontUnavailable),
            Some(fm) => self.render_pass(atlas, viewport_w, viewport_h, fm),
        }
    }
}

/// Scroll bound discovery: once the bound has been tightened to the
/// current offset (as a pass that sees the document end fit does), any
/// delta that would move past the bound is rejected, the offset
/// unchanged, while any delta that stays inside `[0, bound]` is
/// applied.
pub proof fn lemma_scroll_bound_discovery(d: TextDoc, amt: i64)
    requires
        d.wf(),
        d.spec_max_scroll() == d.spec_scroll(),
    ensures
        amt > 0 ==> d.scroll_result(amt) == d.spec_scroll(),
        amt <= 0 && d.spec_scroll() + amt >= 0 ==> d.scroll_result(amt) == d.spec_scroll() + amt,
{
}

/// A walk stops early only because the pen has moved more than one
/// line height below the viewport bottom; together with the one
/// character it consumes per step, this is what bounds a pass's work
/// by the visible region rather than the document length.
pub proof fn lemma_walk_stop_reason(
    text: Seq<char>,
    p: WalkParams,
    st0: WalkState,
    infos: Seq<Option<GlyphInfo>>,
)
    requires
        !st0.stopped,
        walk_upto(text, p, st0, infos).stopped,
    ensures
        walk_upto(text, p, st0, infos).y > p.vh + p.lh,
    decreases infos.len(),
{
    if infos.len() > 0 {
        let prev = walk_upto(text, p, st0, infos.drop_last());
        if prev.stopped {
            lemma_walk_stop_reason(text, p, st0, infos.drop_last());
        }
    }
}

/// The line index never rewinds: a walk only ever appends to it, so
/// the index a pass started from is a prefix of the one it leaves.
pub proof fn lemma_walk_extends_index(
    text: Seq<char>,
    p: WalkParams,
    st0: WalkState,
    infos: Seq<Option<GlyphInfo>>,
)
    ensures
        st0.starts.is_prefix_of(walk_upto(text, p, st0, infos).starts),
    decreases infos.len(),
{
    if infos.len() == 0 {
        assert(st0.starts.is_prefix_of(st0.starts));
    } else {
        lemma_walk_extends_index(text, p, st0, infos.drop_last());
        let prev = walk_upto(text, p, st0, infos.drop_last());
        let next = walk_step(prev, text[prev.i], infos.last(), p);
        assert(next.starts == prev.starts || prev.starts.is_prefix_of(next.starts));
    }
}

/// Line-index monotonicity: in a well-formed document the index starts
/// at offset 0 and is strictly increasing.
pub proof fn lemma_line_index_monotonic(d: TextDoc, i: int, j: int)
    requires
        d.wf(),
        0 <= i < j < d.spec_line_starts().len(),
    ensures
        d.spec_line_starts()[0] == 0,
        d.spec_line_starts()[i] < d.spec_line_starts()[j],
    decreases j - i,
{
    if i + 1 < j {
        lemma_line_index_monotonic(d, i + 1, j);
    }
}

/// A strictly increasing index bounded by the document cannot outgrow
/// it: entry `i` is at least `i`, so there are at most `text.len() + 1`
/// entries.
pub proof fn lemma_line_index_len(d: TextDoc)
    requires
        d.wf(),
    ensures
        d.spec_line_starts().len() <= d.spec_text().len() + 1,
        forall|i: int|
            0 <= i < d.spec_line_starts().len() ==> i <= #[trigger] d.spec_line_starts()[i],
{
    let n = d.spec_line_starts().len() as int;
    assert forall|i: int| 0 <= i < n implies i <= #[trigger] d.spec_line_starts()[i] by {
        lemma_starts_ge_index(d, i);
    }
    assert(n - 1 <= d.spec_line_starts()[n - 1]);
}

proof fn lemma_starts_ge_index(d: TextDoc, i: int)
    requires
        d.wf(),
        0 <= i < d.spec_line_starts().len(),
    ensures
        i <= d.spec_line_starts()[i],
    decreases i,
{
    if i > 0 {
        lemma_starts_ge_index(d, i - 1);
    }
}

} // verus!
