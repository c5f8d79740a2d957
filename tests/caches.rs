use wezterm_render::atlas::{Atlas, OutOfTextureSpace, Sprite};
use wezterm_render::glyphcache::{
    raster_or_blank, recreate_texture_atlas, AtlasError, GlyphCache, GlyphKey, RasterizedGlyph,
};

fn raster(width: u32, height: u32) -> RasterizedGlyph {
    RasterizedGlyph { width, height, bearing_x: 1, bearing_y: 2, has_color: false }
}

#[test]
fn atlas_fills_rows_then_fails() {
    let mut atlas = Atlas::new(10);
    assert_eq!(atlas.allocate(4, 3), Ok(Sprite { x: 0, y: 0, width: 4, height: 3 }));
    assert_eq!(atlas.allocate(4, 5), Ok(Sprite { x: 4, y: 0, width: 4, height: 5 }));
    assert_eq!(atlas.allocate(4, 2), Ok(Sprite { x: 0, y: 5, width: 4, height: 2 }));
    assert_eq!(atlas.allocate(7, 4), Err(OutOfTextureSpace { size: 20 }));
    assert_eq!(atlas.allocate(6, 3), Ok(Sprite { x: 4, y: 5, width: 6, height: 3 }));
    assert_eq!(Atlas::new(4).allocate(50, 3), Err(OutOfTextureSpace { size: 50 }));
}

#[test]
fn glyph_cache_hit_and_overflow() {
    let mut cache = GlyphCache::new(8);
    let key = GlyphKey { font_id: 0, font_idx: 0, glyph_pos: 65 };
    let first = cache.cached_glyph(0, key, &raster(6, 6)).unwrap();
    assert_eq!(first.texture, Some(Sprite { x: 0, y: 0, width: 6, height: 6 }));
    assert_eq!(first.bearing_y, 2);
    let again = cache.cached_glyph(0, key, &raster(1, 1)).unwrap();
    assert_eq!(again, first);
    assert_eq!(cache.lookup_glyph(0, key), Some(first));
    let space = GlyphKey { font_id: 0, font_idx: 0, glyph_pos: 32 };
    assert_eq!(cache.cached_glyph(0, space, &raster(0, 0)).unwrap().texture, None);
    let big = GlyphKey { font_id: 0, font_idx: 1, glyph_pos: 1 };
    assert_eq!(cache.cached_glyph(0, big, &raster(6, 6)), Err(OutOfTextureSpace { size: 16 }));
    assert_eq!(cache.lookup_glyph(0, big), None);
}

#[test]
fn image_cache_reuses_sprite() {
    let mut cache = GlyphCache::new(16);
    let s = cache.cached_image(3, 4, 4).unwrap();
    assert_eq!(cache.cached_image(3, 9, 9), Ok(s));
    assert_eq!(cache.cached_image(4, 20, 1), Err(OutOfTextureSpace { size: 32 }));
}

#[test]
fn atlas_recreation() {
    let mut cache = GlyphCache::new(8);
    let key = GlyphKey { font_id: 0, font_idx: 0, glyph_pos: 65 };
    cache.cached_glyph(0, key, &raster(2, 2)).unwrap();
    assert_eq!(
        recreate_texture_atlas(&mut cache, Some(4096), 2048),
        Err(AtlasError::TooLarge { requested: 4096, max_side: 2048 })
    );
    assert!(cache.lookup_glyph(0, key).is_some());
    assert_eq!(recreate_texture_atlas(&mut cache, None, 2048), Ok(()));
    assert_eq!(cache.atlas_side(), 8);
    assert!(cache.lookup_glyph(0, key).is_none());
    assert_eq!(recreate_texture_atlas(&mut cache, Some(16), 2048), Ok(()));
    assert_eq!(cache.atlas_side(), 16);
}

#[test]
fn glyphs_follow_font_epoch() {
    let mut cache = GlyphCache::new(16);
    let key = GlyphKey { font_id: 0, font_idx: 0, glyph_pos: 65 };
    let first = cache.cached_glyph(0, key, &raster(2, 2)).unwrap();
    let image = cache.cached_image(1, 2, 2).unwrap();
    assert_eq!(cache.lookup_glyph(0, key), Some(first));
    assert_eq!(cache.lookup_glyph(1, key), None);
    let again = cache.cached_glyph(1, key, &raster(3, 3)).unwrap();
    assert_ne!(again, first);
    assert_eq!(cache.lookup_glyph(0, key), None);
    cache.sync_font_epoch(2);
    assert_eq!(cache.lookup_glyph(1, key), None);
    assert_eq!(cache.cached_image(1, 5, 5), Ok(image));
}

#[test]
fn failed_rasterization_draws_blank() {
    let blank = raster_or_blank(None);
    assert_eq!((blank.width, blank.height, blank.has_color), (0, 0, false));
    assert_eq!(raster_or_blank(Some(raster(3, 4))), raster(3, 4));
    let mut cache = GlyphCache::new(8);
    let key = GlyphKey { font_id: 0, font_idx: 0, glyph_pos: 9 };
    assert_eq!(cache.cached_glyph(0, key, &blank).unwrap().texture, None);
}
