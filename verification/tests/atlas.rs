use wilhelm_renderer::font::{clear_font_cache, AtlasError, FontAtlas, FontRegistry, GlyphMetrics};
use wilhelm_renderer::rat::Rat;
use wilhelm_renderer::shapes::ShapeRenderable;

fn metrics(w: i32, h: i32, advance_px: i64) -> GlyphMetrics {
    GlyphMetrics { width: w, height: h, bearing_x: 1, bearing_y: h, advance: advance_px * 64 }
}

#[test]
fn placing_a_glyph_caches_its_uv_rect() {
    let mut atlas = FontAtlas::new(16, 64);
    let (info, x, y) = atlas.place_glyph('A', metrics(10, 12, 11)).unwrap();
    assert_eq!((x, y), (0, 0));
    assert_eq!(info.width, 10);
    // UV rect: offsets over the atlas size
    assert!(info.uv_x.eq_rat(Rat::from_int(0)));
    assert!(info.uv_width.eq_rat(Rat::new(10, 64)));
    assert!(info.advance.eq_rat(Rat::from_int(11)));
    // the cursor advanced by the glyph width plus one pixel of padding
    assert_eq!(atlas.cursor_x, 11);

    // asking again returns the identical record and repacks nothing
    let cached1 = atlas.cached_glyph('A').unwrap();
    let cached2 = atlas.cached_glyph('A').unwrap();
    assert_eq!(cached1, info);
    assert_eq!(cached2, info);
    assert_eq!(atlas.cursor_x, 11);
    assert_eq!(atlas.cursor_y, 0);
}

#[test]
fn full_atlas_fails_only_the_offending_glyph() {
    let mut atlas = FontAtlas::new(16, 16);
    let (first, _, _) = atlas.place_glyph('a', metrics(10, 10, 11)).unwrap();

    // the next wide glyph wraps to a new row, which would exceed the
    // atlas height: it fails, and nothing changes
    let err = atlas.place_glyph('b', metrics(10, 10, 11));
    assert_eq!(err, Err(AtlasError::Full));
    assert_eq!(atlas.cursor_x, 11);
    assert_eq!(atlas.cursor_y, 0);
    assert_eq!(atlas.cached_glyph('a').unwrap(), first);
    assert!(atlas.cached_glyph('b').is_none());

    // a narrower glyph still fits on the current shelf
    let (_, x, y) = atlas.place_glyph('i', metrics(4, 10, 5)).unwrap();
    assert_eq!((x, y), (11, 0));
}

#[test]
fn empty_glyph_keeps_the_cursor() {
    let mut atlas = FontAtlas::new(16, 64);
    let (info, _, _) = atlas.place_glyph(' ', metrics(0, 0, 6)).unwrap();
    assert_eq!(atlas.cursor_x, 0);
    assert_eq!(atlas.cursor_y, 0);
    assert!(info.uv_width.eq_rat(Rat::from_int(0)));
    assert!(info.advance.eq_rat(Rat::from_int(6)));
}

#[test]
fn shelf_wrapping_starts_a_new_row() {
    let mut atlas = FontAtlas::new(12, 64);
    atlas.place_glyph('a', metrics(20, 8, 21)).unwrap();
    // 20 + 1 + 20 > 64: wraps below the first row, one pixel apart
    let (_, x, y) = atlas.place_glyph('b', metrics(50, 9, 51)).unwrap();
    assert_eq!(x, 0);
    assert_eq!(y, 9);
    assert_eq!(atlas.row_height, 9);
}

#[test]
fn measure_text_sums_cached_advances() {
    let mut atlas = FontAtlas::new(16, 64);
    atlas.place_glyph('a', metrics(8, 8, 10)).unwrap();
    atlas.place_glyph('b', metrics(8, 8, 12)).unwrap();

    let w = atlas.measure_text("ab").unwrap();
    assert!(w.eq_rat(Rat::from_int(22)));
    // uncached characters contribute nothing
    let w = atlas.measure_text("axb").unwrap();
    assert!(w.eq_rat(Rat::from_int(22)));
}

#[test]
fn text_geometry_emits_quads_for_visible_cached_glyphs() {
    let mut atlas = FontAtlas::new(16, 64);
    atlas.place_glyph('h', metrics(8, 10, 9)).unwrap();
    atlas.place_glyph('i', metrics(3, 10, 4)).unwrap();
    atlas.place_glyph(' ', metrics(0, 0, 5)).unwrap();

    // the space is cached but invisible; the 'x' is not cached at all
    let (g, _) = ShapeRenderable::text_geometry("hi hix", &atlas).unwrap();
    assert_eq!(g.vertex_count, 6 * 4);
    assert_eq!(g.values_per_vertex, 4);
}

#[test]
fn font_registry_clears_on_demand() {
    let mut registry = FontRegistry::new();
    registry.insert(1, 16, FontAtlas::new(16, 64));
    registry.insert(2, 24, FontAtlas::new(24, 128));
    assert_eq!(registry.find(2, 24), Some(1));
    assert_eq!(registry.find(2, 16), None);
    clear_font_cache(&mut registry);
    assert_eq!(registry.find(1, 16), None);
    assert_eq!(registry.atlases.len(), 0);
}

#[test]
fn text_quads_follow_pen_bearing_and_uv() {
    let mut atlas = FontAtlas::new(16, 64);
    let (info, _, _) = atlas.place_glyph('h', metrics(8, 10, 9)).unwrap();
    let (g, _) = ShapeRenderable::text_geometry("h", &atlas).unwrap();
    // x0 = pen 0 + bearing 1; y0 = baseline 16 - bearing_y 10; the quad
    // spans the glyph's pixel size and carries its atlas UV rect
    assert!(g.verts[0].eq_rat(Rat::from_int(1)));
    assert!(g.verts[9].eq_rat(Rat::from_int(6)));
    assert!(g.verts[4].eq_rat(Rat::from_int(9)));
    assert!(g.verts[1].eq_rat(Rat::from_int(16)));
    assert_eq!(g.verts[2], info.uv_x);
    assert_eq!(g.verts[11], info.uv_y);
}
