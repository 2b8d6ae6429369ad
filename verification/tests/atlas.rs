use textview::texture_atlas::{GlyphInfo, TextureAtlas};
use textview::FONT_SIZE;

const FONT: &str = "/usr/share/fonts/truetype/dejavu/DejaVuSans.ttf";

fn make_face(lib: &freetype::Library) -> freetype::Face {
    lib.new_face(FONT, 0).expect("test font not found")
}

fn overlap(a: &GlyphInfo, b: &GlyphInfo) -> bool {
    !(a.x + a.width <= b.x || b.x + b.width <= a.x || a.y + a.height <= b.y
        || b.y + b.height <= a.y)
}

#[test]
fn cache_idempotent() {
    // Two lookups of the same key give identical placements, and the
    // second changes nothing, so it rasterized and uploaded nothing.
    let lib = freetype::Library::init().unwrap();
    let mut atlas = TextureAtlas::new((256, 256), make_face(&lib));
    let first = atlas.get('A', FONT_SIZE).expect("glyph should fit");
    let pixels_after_first = atlas.texture().clone();
    let second = atlas.get('A', FONT_SIZE).expect("cached glyph");
    assert_eq!(first, second);
    assert_eq!(&pixels_after_first, atlas.texture());
}

#[test]
fn packing_disjoint_and_in_bounds() {
    // Placements from a run of distinct requests never overlap and all
    // lie inside the atlas.
    let lib = freetype::Library::init().unwrap();
    let mut atlas = TextureAtlas::new((512, 512), make_face(&lib));
    let mut placed: Vec<GlyphInfo> = Vec::new();
    for c in "abcdefghijklmnopqrstuvwxyzABCDEFGHIJKLMNOPQRSTUVWXYZ0123456789".chars() {
        let info = atlas.get(c, FONT_SIZE).expect("atlas is large enough");
        assert!(info.x + info.width <= 512, "{c} out of bounds");
        assert!(info.y + info.height <= 512, "{c} out of bounds");
        for p in &placed {
            assert!(!overlap(p, &info), "{c} overlaps an earlier glyph");
        }
        placed.push(info);
    }
}

#[test]
fn exhausted_atlas_keeps_first_placement() {
    // An atlas with room for exactly one glyph: the second distinct
    // request is unavailable, while the first stays valid and
    // re-fetchable.
    let lib = freetype::Library::init().unwrap();
    let mut probe = TextureAtlas::new((256, 256), make_face(&lib));
    let a = probe.get('A', FONT_SIZE).expect("probe");

    let mut tiny = TextureAtlas::new((a.width, a.height), make_face(&lib));
    let first = tiny.get('A', FONT_SIZE).expect("exactly fits");
    assert_eq!((first.x, first.y), (0, 0));
    assert_eq!((first.width, first.height), (a.width, a.height));
    assert!(tiny.get('B', FONT_SIZE).is_none(), "no room for a second glyph");
    let again = tiny.get('A', FONT_SIZE).expect("still cached");
    assert_eq!(first, again);
}

#[test]
fn upload_lands_inside_placement() {
    // A fresh atlas is fully transparent; after one lookup, ink appears
    // only inside the returned rectangle.
    let lib = freetype::Library::init().unwrap();
    let mut atlas = TextureAtlas::new((128, 128), make_face(&lib));
    assert!(atlas.texture().iter().all(|&b| b == 0));
    let info = atlas.get('A', FONT_SIZE).expect("glyph should fit");
    let pixels = atlas.texture();
    let mut saw_ink = false;
    for y in 0..128u32 {
        for x in 0..128u32 {
            let base = ((y * 128 + x) * 4) as usize;
            let inside = x >= info.x && x < info.x + info.width && y >= info.y
                && y < info.y + info.height;
            let zero = (0..4).all(|k| pixels[base + k] == 0);
            if !inside {
                assert!(zero, "byte outside the placement was written");
            } else if !zero {
                saw_ink = true;
            }
        }
    }
    assert!(saw_ink, "the glyph bitmap was uploaded");
}

#[test]
fn font_metrics_usable() {
    let lib = freetype::Library::init().unwrap();
    let atlas = TextureAtlas::new((64, 64), make_face(&lib));
    let fm = atlas.font_metrics(FONT_SIZE).expect("metrics for a real font");
    assert!(fm.line_height >= 1);
    assert!(fm.ascender >= 0);
    let lh = atlas.line_height(FONT_SIZE).expect("line height");
    assert_eq!(lh, fm.line_height);
}
