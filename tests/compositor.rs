use wezterm_render::atlas::Sprite;
use wezterm_render::attrs::{CellAttributes, ImageCell, Underline};
use wezterm_render::backend::{
    emit_quads, line_quad_range, render_screen_line, render_screen_line_opengl,
    select_line_sprite, DrawOp,
    LineSprite, Primitive, QuadTexture, SurfaceGeometry, UtilSprite,
};
use wezterm_render::cluster::{cluster_line, utf8_len, Cell};
use wezterm_render::color::{rgbcolor_to_window_color, ColorAttribute, ColorPalette, RgbColor};
use wezterm_render::compositor::{
    compose_line, image_source, CellContent, LineContext, RenderError, RenderGlyph,
    RenderMetrics, ShapedCluster,
};
use wezterm_render::config::{Config, WindowPadding};
use wezterm_render::cursor::{
    CursorOverlay, CursorPosition, CursorShape, DefaultCursorStyle, Selection,
};
use wezterm_render::glyphcache::{CachedGlyph, GlyphInfo};
use wezterm_render::style::{FontAttributes, TextStyle};

fn rgb(v: u8) -> RgbColor {
    RgbColor { red: v, green: v, blue: v }
}

fn palette() -> ColorPalette {
    let mut colors = Vec::new();
    for i in 0..256u32 {
        colors.push(rgb(i as u8));
    }
    ColorPalette {
        colors,
        foreground: RgbColor { red: 1, green: 2, blue: 3 },
        background: RgbColor { red: 4, green: 5, blue: 6 },
        cursor_fg: RgbColor { red: 7, green: 7, blue: 7 },
        cursor_bg: RgbColor { red: 8, green: 8, blue: 8 },
        selection_fg: RgbColor { red: 9, green: 9, blue: 9 },
        selection_bg: RgbColor { red: 10, green: 10, blue: 10 },
    }
}

fn config() -> Config {
    Config {
        generation: 1,
        font: TextStyle {
            font: vec![FontAttributes {
                family: "Mono".to_string(),
                bold: false,
                italic: false,
                is_fallback: false,
            }],
            foreground: None,
        },
        font_rules: vec![],
        font_size_centipoints: 1200,
        dpi: 96,
        cursor_blink_rate: 0,
        default_cursor_style: DefaultCursorStyle::SteadyBlock,
        window_padding: WindowPadding { left: 0, top: 0, right: 0, bottom: 0 },
        enable_tab_bar: false,
    }
}

fn ctx(num_cols: usize) -> LineContext {
    LineContext {
        line_idx: 0,
        num_cols,
        cursor: CursorOverlay {
            position: CursorPosition { x: 100, y: 100, shape: CursorShape::SteadyBlock },
            shows: true,
        },
        selection: Selection { start: 0, end: 0 },
        highlight: None,
        metrics: RenderMetrics { cell_width: 8, cell_height: 16, descender: -4 },
    }
}

fn cell(text: &str, attrs: CellAttributes) -> Cell {
    Cell { text: text.chars().collect(), attrs }
}

fn glyph(cluster: u32, num_cells: u8) -> RenderGlyph {
    RenderGlyph {
        info: GlyphInfo {
            cluster,
            num_cells,
            font_idx: 0,
            glyph_pos: 7,
            x_advance: 8,
            y_advance: 0,
            x_offset: 1,
            y_offset: 0,
        },
        glyph: CachedGlyph {
            texture: Some(Sprite { x: 0, y: 0, width: 16, height: 16 }),
            has_color: false,
            bearing_x: 2,
            bearing_y: 10,
        },
    }
}

#[test]
fn clusters_split_on_attribute_change() {
    let plain = CellAttributes::blank();
    let mut bold = CellAttributes::blank();
    bold.intensity = wezterm_render::attrs::Intensity::Bold;
    let cells = vec![cell("a", plain), cell("é", plain), cell("b", bold), cell("c", plain)];
    let clusters = cluster_line(&cells);
    assert_eq!(clusters.len(), 3);
    assert_eq!(clusters[0].text, vec!['a', 'é']);
    assert_eq!(clusters[0].byte_to_cell_idx, vec![0, 1, 1]);
    assert_eq!(clusters[1].byte_to_cell_idx, vec![2]);
    assert_eq!(clusters[2].byte_to_cell_idx, vec![3]);
    assert!(cluster_line(&vec![]).is_empty());
    assert_eq!(utf8_len('€'), 3);
    assert_eq!(utf8_len('😀'), 4);
}

#[test]
fn double_width_glyph_covers_two_cells() {
    let cells = vec![cell("x", CellAttributes::blank()), cell(" ", CellAttributes::blank())];
    let clusters = cluster_line(&cells);
    let shaped = vec![ShapedCluster { glyphs: vec![glyph(0, 2)], image: None }];
    let units = compose_line(&ctx(4), &config(), &palette(), &clusters, &shaped).unwrap();
    let idx: Vec<usize> = units.iter().map(|u| u.cell_idx).collect();
    assert_eq!(idx, vec![0, 1, 2, 3]);
    match units[1].content {
        CellContent::Glyph { slice, num_cells, .. } => {
            assert_eq!(slice, 1);
            assert_eq!(num_cells, 2);
        }
        _ => panic!("expected a glyph"),
    }
    assert_eq!(units[2].content, CellContent::Blank);
}

#[test]
fn double_width_glyph_truncated_at_line_end() {
    let cells = vec![
        cell("a", CellAttributes::blank()),
        cell("b", CellAttributes::blank()),
        cell("c", CellAttributes::blank()),
    ];
    let clusters = cluster_line(&cells);
    let shaped = vec![ShapedCluster { glyphs: vec![glyph(2, 2)], image: None }];
    let units = compose_line(&ctx(3), &config(), &palette(), &clusters, &shaped).unwrap();
    let idx: Vec<usize> = units.iter().map(|u| u.cell_idx).collect();
    assert_eq!(idx, vec![2, 0, 1]);
    assert_eq!(units[1].content, CellContent::Blank);
}

#[test]
fn uncovered_columns_before_a_glyph_are_cleared() {
    let cells = vec![cell("a", CellAttributes::blank()), cell("b", CellAttributes::blank())];
    let clusters = cluster_line(&cells);
    let shaped = vec![ShapedCluster { glyphs: vec![glyph(1, 1)], image: None }];
    let mut c = ctx(4);
    c.cursor.position = CursorPosition { x: 0, y: 0, shape: CursorShape::SteadyBlock };
    let units = compose_line(&c, &config(), &palette(), &clusters, &shaped).unwrap();
    let idx: Vec<usize> = units.iter().map(|u| u.cell_idx).collect();
    assert_eq!(idx, vec![1, 0, 2, 3]);
    assert_eq!(units[1].content, CellContent::Blank);
    assert_eq!(units[1].bg, rgbcolor_to_window_color(palette().cursor_bg));
}

#[test]
fn oversized_line_is_rejected_by_software_renderer() {
    let geo = SurfaceGeometry {
        cell_width: 8,
        cell_height: 16,
        padding: WindowPadding { left: 0, top: 0, right: 0, bottom: 0 },
        pixel_width: 30,
    };
    let mut c = ctx(2);
    c.line_idx = u32::MAX as usize + 1;
    assert_eq!(
        render_screen_line(&geo, &c, &config(), &palette(), &vec![], &vec![]),
        Err(RenderError::ScreenSizeMismatch)
    );
}

#[test]
fn empty_line_is_cleared_from_first_column() {
    let units = compose_line(&ctx(3), &config(), &palette(), &vec![], &vec![]).unwrap();
    let idx: Vec<usize> = units.iter().map(|u| u.cell_idx).collect();
    assert_eq!(idx, vec![0, 1, 2]);
    assert!(units.iter().all(|u| u.content == CellContent::Blank));
    assert_eq!(units[0].bg, rgbcolor_to_window_color(palette().background));
}

#[test]
fn mismatched_shaping_is_rejected() {
    let cells = vec![cell("a", CellAttributes::blank())];
    let clusters = cluster_line(&cells);
    let bad = vec![ShapedCluster { glyphs: vec![glyph(5, 1)], image: None }];
    assert_eq!(
        compose_line(&ctx(3), &config(), &palette(), &clusters, &bad),
        Err(RenderError::ShapingMismatch)
    );
    assert_eq!(
        compose_line(&ctx(3), &config(), &palette(), &clusters, &vec![]),
        Err(RenderError::ShapingMismatch)
    );
}

#[test]
fn recomposing_unchanged_line_is_identical() {
    let mut attrs = CellAttributes::blank();
    attrs.foreground = ColorAttribute::PaletteIndex(2);
    let cells = vec![cell("a", attrs), cell("b", attrs)];
    let clusters = cluster_line(&cells);
    let shaped = vec![ShapedCluster { glyphs: vec![glyph(0, 1), glyph(1, 1)], image: None }];
    let mut c = ctx(5);
    c.selection = Selection { start: 1, end: 3 };
    c.cursor.position = CursorPosition { x: 0, y: 0, shape: CursorShape::SteadyBlock };
    let first = compose_line(&c, &config(), &palette(), &clusters, &shaped).unwrap();
    let second = compose_line(&c, &config(), &palette(), &clusters, &shaped).unwrap();
    assert_eq!(first, second);
    let p = palette();
    assert_eq!(first[0].bg, rgbcolor_to_window_color(p.cursor_bg));
    assert_eq!(first[1].bg, rgbcolor_to_window_color(p.selection_bg));
    assert_eq!(first[2].bg, rgbcolor_to_window_color(p.selection_bg));
    assert_eq!(first[2].content, CellContent::Blank);
    assert_eq!(first[3].bg, rgbcolor_to_window_color(p.background));
}

#[test]
fn highlighted_hyperlink_gets_underline() {
    let mut attrs = CellAttributes::blank();
    attrs.hyperlink = Some(9);
    let cells = vec![cell("a", attrs)];
    let clusters = cluster_line(&cells);
    let shaped = vec![ShapedCluster { glyphs: vec![glyph(0, 1)], image: None }];
    let mut c = ctx(1);
    c.highlight = Some(9);
    let units = compose_line(&c, &config(), &palette(), &clusters, &shaped).unwrap();
    match units[0].content {
        CellContent::Glyph { underline, left, top, .. } => {
            assert_eq!(underline, Underline::Single);
            assert_eq!(left, 3);
            assert_eq!(top, 16 - 4 - 10);
        }
        _ => panic!("expected a glyph"),
    }
    c.highlight = Some(8);
    let units = compose_line(&c, &config(), &palette(), &clusters, &shaped).unwrap();
    match units[0].content {
        CellContent::Glyph { underline, .. } => assert_eq!(underline, Underline::Off),
        _ => panic!("expected a glyph"),
    }
}

#[test]
fn image_cell_draws_part_of_sprite() {
    let sprite = Sprite { x: 100, y: 200, width: 64, height: 32 };
    let part = ImageCell { image_id: 1, left: 16384, top: 0, right: 49152, bottom: 32768 };
    assert_eq!(
        image_source(Some(part), Some(sprite)),
        Some(Sprite { x: 116, y: 200, width: 32, height: 16 })
    );
    let bad = ImageCell { image_id: 1, left: 2, top: 0, right: 1, bottom: 0 };
    assert_eq!(image_source(Some(bad), Some(sprite)), None);
    assert_eq!(image_source(Some(part), None), None);
    let mut attrs = CellAttributes::blank();
    attrs.image = Some(part);
    let clusters = cluster_line(&vec![cell(" ", attrs)]);
    let shaped = vec![ShapedCluster { glyphs: vec![glyph(0, 1)], image: Some(sprite) }];
    let units = compose_line(&ctx(1), &config(), &palette(), &clusters, &shaped).unwrap();
    assert_eq!(
        units[0].content,
        CellContent::Image {
            source: Sprite { x: 116, y: 200, width: 32, height: 16 },
            underline: Underline::Off,
            strikethrough: false
        }
    );
}

#[test]
fn highlighted_link_image_cell_is_underlined() {
    let sprite = Sprite { x: 0, y: 0, width: 64, height: 32 };
    let part = ImageCell { image_id: 1, left: 0, top: 0, right: 65536, bottom: 65536 };
    let mut attrs = CellAttributes::blank();
    attrs.image = Some(part);
    attrs.hyperlink = Some(4);
    attrs.strikethrough = true;
    let clusters = cluster_line(&vec![cell(" ", attrs)]);
    let shaped = vec![ShapedCluster { glyphs: vec![glyph(0, 1)], image: Some(sprite) }];
    let mut c = ctx(1);
    c.highlight = Some(4);
    let geo = SurfaceGeometry {
        cell_width: 8,
        cell_height: 16,
        padding: WindowPadding { left: 0, top: 0, right: 0, bottom: 0 },
        pixel_width: 8,
    };
    let prims = render_screen_line(&geo, &c, &config(), &palette(), &clusters, &shaped).unwrap();
    let fg = rgbcolor_to_window_color(palette().foreground);
    assert_eq!(prims.len(), 5);
    assert_eq!(
        prims[1],
        Primitive::Decoration {
            x: 0,
            y: 0,
            sprite: UtilSprite::SingleUnderline,
            op: DrawOp::MultiplyThenOver(fg)
        }
    );
    assert_eq!(
        prims[2],
        Primitive::Decoration { x: 0, y: 0, sprite: UtilSprite::StrikeThrough, op: DrawOp::MultiplyThenOver(fg) }
    );
    assert_eq!(prims[3], Primitive::ImagePart { x: 0, y: 0, source: sprite });
    let quads =
        render_screen_line_opengl(&c, &config(), &palette(), &clusters, &shaped, 1).unwrap();
    assert_eq!(quads[0].underline, LineSprite::SingleStrike);
    assert_eq!(quads[0].texture, QuadTexture::Image(sprite));
}

#[test]
fn software_backend_draw_calls() {
    let mut attrs = CellAttributes::blank();
    attrs.strikethrough = true;
    attrs.underline = Underline::Double;
    let clusters = cluster_line(&vec![cell("a", attrs)]);
    let shaped = vec![ShapedCluster { glyphs: vec![glyph(0, 1)], image: None }];
    let geo = SurfaceGeometry {
        cell_width: 8,
        cell_height: 16,
        padding: WindowPadding { left: 2, top: 3, right: 0, bottom: 0 },
        pixel_width: 30,
    };
    let mut c = ctx(2);
    c.line_idx = 1;
    let prims = render_screen_line(&geo, &c, &config(), &palette(), &clusters, &shaped).unwrap();
    let fg = rgbcolor_to_window_color(palette().foreground);
    let bg = rgbcolor_to_window_color(palette().background);
    assert_eq!(prims.len(), 6);
    assert_eq!(prims[0], Primitive::ClearRect { x: 2, y: 19, width: 8, height: 16, color: bg });
    assert_eq!(
        prims[1],
        Primitive::Decoration {
            x: 2,
            y: 19,
            sprite: UtilSprite::DoubleUnderline,
            op: DrawOp::MultiplyThenOver(fg)
        }
    );
    assert_eq!(
        prims[2],
        Primitive::Decoration {
            x: 2,
            y: 19,
            sprite: UtilSprite::StrikeThrough,
            op: DrawOp::MultiplyThenOver(fg)
        }
    );
    match prims[3] {
        Primitive::GlyphSlice { x, y, op, .. } => {
            assert_eq!((x, y), (5, 21));
            assert_eq!(op, DrawOp::MultiplyThenOver(fg));
        }
        _ => panic!("expected the glyph"),
    }
    assert_eq!(prims[4], Primitive::ClearRect { x: 10, y: 19, width: 8, height: 16, color: bg });
    assert_eq!(prims[5], Primitive::ClearRect { x: 18, y: 19, width: 12, height: 16, color: bg });
}

#[test]
fn gpu_backend_quads() {
    let mut attrs = CellAttributes::blank();
    attrs.underline = Underline::Single;
    attrs.strikethrough = true;
    let clusters = cluster_line(&vec![cell("a", attrs)]);
    let shaped = vec![ShapedCluster { glyphs: vec![glyph(0, 2)], image: None }];
    let quads =
        render_screen_line_opengl(&ctx(3), &config(), &palette(), &clusters, &shaped, 6).unwrap();
    assert_eq!(quads.len(), 3);
    assert_eq!(quads[0].underline, LineSprite::SingleStrike);
    assert_eq!(quads[0].left, 3);
    assert_eq!(quads[1].left, 0);
    assert_eq!(
        quads[1].texture,
        QuadTexture::Glyph {
            texture: Sprite { x: 0, y: 0, width: 16, height: 16 },
            slice: 1,
            num_cells: 2
        }
    );
    assert_eq!(quads[2].texture, QuadTexture::WhiteSpace);
    assert!(!quads[2].has_color);
    let units = compose_line(&ctx(3), &config(), &palette(), &clusters, &shaped).unwrap();
    assert_eq!(emit_quads(&units), quads);
    assert_eq!(select_line_sprite(Underline::Off, false), LineSprite::Blank);
    assert_eq!(select_line_sprite(Underline::Double, true), LineSprite::DoubleStrike);
}

#[test]
fn quad_buffer_range() {
    assert_eq!(line_quad_range(2, 10, 30), Ok((20, 30)));
    assert_eq!(line_quad_range(3, 10, 30), Err(RenderError::ScreenSizeMismatch));
    let clusters = cluster_line(&vec![cell("a", CellAttributes::blank())]);
    let shaped = vec![ShapedCluster { glyphs: vec![glyph(0, 1)], image: None }];
    let mut c = ctx(3);
    c.line_idx = 1;
    assert_eq!(
        render_screen_line_opengl(&c, &config(), &palette(), &clusters, &shaped, 5),
        Err(RenderError::ScreenSizeMismatch)
    );
    assert!(render_screen_line_opengl(&c, &config(), &palette(), &clusters, &shaped, 6).is_ok());
}
