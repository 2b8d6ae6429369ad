use textview::text_doc::{RenderError, TextDoc};
use textview::texture_atlas::TextureAtlas;
use textview::FONT_SIZE;

const MONO_FONT: &str = "/usr/share/fonts/truetype/dejavu/DejaVuSansMono.ttf";

fn mono_atlas(lib: &freetype::Library) -> TextureAtlas {
    TextureAtlas::new((512, 512), lib.new_face(MONO_FONT, 0).expect("test font not found"))
}

fn mono_advance(atlas: &mut TextureAtlas) -> i64 {
    atlas.get('A', FONT_SIZE).expect("probe glyph").metrics.advance / 64
}

#[test]
fn wrap_after_two_characters() {
    // Document "AB\nCDE\n" in a viewport two characters wide: lines
    // break after "AB" (the line feed) and after "CD" (forced wrap),
    // and "E" starts the final implicit line.
    let lib = freetype::Library::init().unwrap();
    let mut atlas = mono_atlas(&lib);
    let adv = mono_advance(&mut atlas);
    for c in "ABCDE".chars() {
        let info = atlas.get(c, FONT_SIZE).unwrap();
        assert_eq!(info.metrics.advance / 64, adv, "monospace advances differ");
    }
    let pad = 10i64;
    let vw = 2 * pad + 2 * adv;
    let mut doc = TextDoc::new("AB\nCDE\n".to_string(), pad);
    let frame = doc.render(&mut atlas, vw, 1000).expect("pass succeeds");
    assert_eq!(doc.line_starts().as_slice(), &[0, 3, 5, 7]);
    assert_eq!(frame.glyphs.len(), 5, "A, B, C, D and E are drawn");
    assert_eq!(frame.separators.len(), 4, "one per line boundary");
}

#[test]
fn scroll_rejected_outside_bounds() {
    // Before any bound is known, scrolling is limited below by 0 only.
    let mut doc = TextDoc::new("hello\nworld\n".to_string(), 5);
    doc.scroll(10);
    assert_eq!(doc.scroll_offset(), 10);
    doc.scroll(-20);
    assert_eq!(doc.scroll_offset(), 10, "a delta below 0 is rejected whole");
    doc.scroll(-10);
    assert_eq!(doc.scroll_offset(), 0);
}

#[test]
fn scroll_bound_discovered_at_document_end() {
    // A pass that sees the whole document fit records the current
    // offset as the bound; deltas past it are then rejected, deltas
    // within it still apply.
    let lib = freetype::Library::init().unwrap();
    let mut atlas = mono_atlas(&lib);
    let mut doc = TextDoc::new("hi".to_string(), 5);
    assert_eq!(doc.max_scroll_offset(), i64::MAX);
    doc.render(&mut atlas, 400, 800).expect("pass succeeds");
    assert_eq!(doc.max_scroll_offset(), 0, "everything visible at offset 0");
    doc.scroll(1);
    assert_eq!(doc.scroll_offset(), 0, "past the bound: rejected");
    doc.scroll(-1);
    assert_eq!(doc.scroll_offset(), 0, "below zero: rejected");
    doc.scroll(0);
    assert_eq!(doc.scroll_offset(), 0);
}

#[test]
fn byte_order_mark_skipped() {
    let lib = freetype::Library::init().unwrap();
    let mut atlas = mono_atlas(&lib);
    let mut with_bom = TextDoc::new("\u{feff}AB".to_string(), 5);
    let frame = with_bom.render(&mut atlas, 400, 800).expect("pass succeeds");
    assert_eq!(frame.glyphs.len(), 2, "the mark itself is never laid out");
    let mut only_bom = TextDoc::new("\u{feff}".to_string(), 5);
    let frame2 = only_bom.render(&mut atlas, 400, 800).expect("pass succeeds");
    assert_eq!(frame2.glyphs.len(), 0);
}

#[test]
fn separator_and_glyph_geometry() {
    let lib = freetype::Library::init().unwrap();
    let mut atlas = mono_atlas(&lib);
    let fm = atlas.font_metrics(FONT_SIZE).expect("metrics");
    let a = atlas.get('A', FONT_SIZE).expect("glyph");
    let pad = 7i64;
    let vw = 300i64;
    let mut doc = TextDoc::new("A".to_string(), pad);
    let frame = doc.render(&mut atlas, vw, 800).expect("pass succeeds");
    let baseline = pad + fm.ascender;
    assert_eq!(frame.separators[0].x_start, pad);
    assert_eq!(frame.separators[0].x_end, vw - pad);
    assert_eq!(frame.separators[0].y, baseline);
    assert_eq!(frame.glyphs.len(), 1);
    assert_eq!(frame.glyphs[0].dst_x, pad + a.metrics.bearing_x / 64);
    assert_eq!(frame.glyphs[0].dst_y, baseline - a.metrics.bearing_y / 64);
    assert_eq!(
        (frame.glyphs[0].src_x, frame.glyphs[0].src_y, frame.glyphs[0].width, frame.glyphs[0].height),
        (a.x, a.y, a.width, a.height),
    );
}

#[test]
fn scrolling_past_index_is_a_fault() {
    // With the bound still unknown, a huge jump lands past every
    // indexed line; the pass reports the divergence instead of walking.
    let lib = freetype::Library::init().unwrap();
    let mut atlas = mono_atlas(&lib);
    let mut doc = TextDoc::new("A\nB\nC\n".to_string(), 5);
    doc.scroll(1_000_000);
    let res = doc.render(&mut atlas, 400, 800);
    assert!(matches!(res, Err(RenderError::IndexDivergence)));
}

#[test]
fn repeated_pass_is_identical() {
    // Rendering twice without scrolling changes nothing: the second
    // pass hits the cache for every glyph and emits the same frame,
    // and the line index does not move.
    let lib = freetype::Library::init().unwrap();
    let mut atlas = mono_atlas(&lib);
    let mut doc = TextDoc::new("one\ntwo\nthree\n".to_string(), 8);
    let first = doc.render(&mut atlas, 400, 800).expect("pass succeeds");
    let starts_after_first = doc.line_starts().clone();
    let second = doc.render(&mut atlas, 400, 800).expect("pass succeeds");
    assert_eq!(first.glyphs, second.glyphs);
    assert_eq!(first.separators, second.separators);
    assert_eq!(&starts_after_first, doc.line_starts());
}

#[test]
fn bounded_work_and_monotone_index() {
    // 10,000 lines, a viewport about 20 lines tall: every pass draws
    // at most the visible lines plus the early-exit margin, and the
    // index it grows stays strictly increasing from 0.
    let lib = freetype::Library::init().unwrap();
    let mut atlas = mono_atlas(&lib);
    let lh = atlas.line_height(FONT_SIZE).expect("line height");
    let mut text = String::new();
    for _ in 0..10_000 {
        text.push_str("X\n");
    }
    let mut doc = TextDoc::new(text, 5);
    let vh = 20 * lh;
    for _ in 0..1_000 {
        let frame = doc.render(&mut atlas, 400, vh).expect("pass succeeds");
        assert!(frame.glyphs.len() <= 25, "a pass drew {} glyphs", frame.glyphs.len());
        doc.scroll(lh);
    }
    let starts = doc.line_starts().clone();
    assert_eq!(starts[0], 0);
    for w in starts.windows(2) {
        assert!(w[0] < w[1], "line index must be strictly increasing");
    }
    assert!(starts.len() <= 1_000 + 25, "the index grew far past what was walked");
}
