use wezterm_render::config::{Config, WindowPadding};
use wezterm_render::cursor::DefaultCursorStyle;
use wezterm_render::fonts::{FontConfiguration, FontError, FontMetrics, FontResolution};
use wezterm_render::fontsearch::{
    font_info_matches, search_fonts, FontDataHandle, FontInfo, FontPick, FontSources,
    LocatedFont, Names, SourceKind, WarningKind,
};
use wezterm_render::glyphcache::GlyphInfo;
use wezterm_render::shaping::{
    assign_clusters, glyph_index_for_char, split_runs, split_runs_with, variation_selector,
    MaybeShaped, RawGlyph, Run, ShapedItem, VariationSelector,
};
use wezterm_render::style::{FontAttributes, TextStyle};

fn attr(family: &str, bold: bool, italic: bool, is_fallback: bool) -> FontAttributes {
    FontAttributes { family: family.to_string(), bold, italic, is_fallback }
}

fn names(full: &str, family: Option<&str>, sub: Option<&str>) -> Names {
    Names {
        full_name: full.to_string(),
        unique: None,
        family: family.map(|s| s.to_string()),
        sub_family: sub.map(|s| s.to_string()),
        postscript_name: None,
    }
}

fn disk(path: &str) -> FontDataHandle {
    FontDataHandle::OnDisk { path: path.to_string(), index: 0 }
}

fn config(font: Vec<FontAttributes>, generation: u64) -> Config {
    Config {
        generation,
        font: TextStyle { font, foreground: None },
        font_rules: vec![],
        font_size_centipoints: 1200,
        dpi: 96,
        cursor_blink_rate: 0,
        default_cursor_style: DefaultCursorStyle::SteadyBlock,
        window_padding: WindowPadding { left: 0, top: 0, right: 0, bottom: 0 },
        enable_tab_bar: false,
    }
}

fn metrics() -> FontMetrics {
    FontMetrics {
        cell_width: 8,
        cell_height: 16,
        descender: -4,
        underline_thickness: 1,
        underline_position: -2,
    }
}

#[test]
fn face_matching_by_family_and_variant() {
    let regular = names("Fira Code", Some("Fira Code"), Some("Regular"));
    let bold = names("Fira Code Bold", Some("Fira Code"), Some("Bold"));
    let bold_italic = names("Fira Code BI", Some("Fira Code"), Some("Bold Italic"));
    assert!(font_info_matches(&attr("Fira Code", false, false, false), &regular));
    assert!(!font_info_matches(&attr("Fira Code", true, false, false), &regular));
    assert!(font_info_matches(&attr("Fira Code", true, false, false), &bold));
    assert!(font_info_matches(&attr("Fira Code", true, true, false), &bold_italic));
    assert!(!font_info_matches(&attr("Fira Code", false, true, false), &bold_italic));
    assert!(font_info_matches(&attr("Fira Code Bold", false, false, false), &bold));
    assert!(font_info_matches(&attr("Solo", false, false, false), &names("X", Some("Solo"), None)));
}

#[test]
fn search_order_and_warnings() {
    let primary = vec![attr("Mono", false, false, false)];
    let attrs = vec![
        attr("Mono", false, false, false),
        attr("Mono", true, false, false),
        attr("Emoji", false, false, true),
        attr("Missing", false, false, false),
    ];
    let sources = FontSources {
        font_dirs: vec![FontInfo { names: names("Mono", Some("Mono"), Some("Regular")), handle: disk("/a") }],
        locator: vec![
            LocatedFont { attr: attr("Mono", false, false, false), handle: disk("/b") },
            LocatedFont { attr: attr("Emoji", false, false, true), handle: disk("/c") },
        ],
        built_in: vec![FontInfo {
            names: names("Mono Bold", Some("Mono"), Some("Bold")),
            handle: FontDataHandle::Memory { name: "bold".to_string(), index: 0 },
        }],
    };
    let search = search_fonts(&primary, &attrs, &sources);
    assert_eq!(
        search.picks,
        vec![
            FontPick { source: SourceKind::FontDirs, index: 0 },
            FontPick { source: SourceKind::BuiltIn, index: 0 },
            FontPick { source: SourceKind::Locator, index: 1 },
        ]
    );
    match &search.handles[1] {
        FontDataHandle::Memory { name, .. } => assert_eq!(name, "bold"),
        _ => panic!("expected the built-in face"),
    }
    assert_eq!(search.warnings.len(), 1);
    assert_eq!(search.warnings[0].attr.family, "Missing");
    assert_eq!(search.warnings[0].kind, WarningKind::FontRule);
    let missing_primary = search_fonts(&primary, &primary, &FontSources {
        font_dirs: vec![],
        locator: vec![],
        built_in: vec![],
    });
    assert!(missing_primary.handles.is_empty());
    assert_eq!(missing_primary.warnings[0].kind, WarningKind::PrimaryFont);
    let derived = vec![attr("Mono", true, true, false)];
    let w = search_fonts(&primary, &derived, &FontSources {
        font_dirs: vec![],
        locator: vec![],
        built_in: vec![],
    });
    assert_eq!(w.warnings[0].kind, WarningKind::DerivedFromPrimary);
    assert!(w.warnings[0].styled_variant);
}

#[test]
fn font_cache_generation_and_scaling() {
    let cfg = config(vec![attr("Mono", false, false, false)], 1);
    let style = cfg.font.clone();
    let sources = FontSources { font_dirs: vec![], locator: vec![], built_in: vec![] };
    let mut fonts = FontConfiguration::new(1);
    assert_eq!(fonts.default_font_metrics(&cfg), None);
    match fonts.resolve_font(&cfg, &style, &sources) {
        FontResolution::Miss(search) => assert_eq!(search.warnings.len(), 1),
        FontResolution::Cached(_) => panic!("empty cache"),
    }
    let id = fonts.insert_font(&cfg, &style, vec![disk("/a"), disk("/b")], metrics());
    match fonts.resolve_font(&cfg, &style, &sources) {
        FontResolution::Cached(i) => assert_eq!(i, id),
        FontResolution::Miss(_) => panic!("expected a hit"),
    }
    assert_eq!(fonts.insert_font(&cfg, &style, vec![], metrics()), id);
    assert_eq!(fonts.default_font_metrics(&cfg), Some(metrics()));
    let first = fonts.rasterize_glyph(id, 5, 1).unwrap();
    assert!(first.construct);
    assert_eq!(first.font_size_centipoints, 1200);
    assert_eq!(first.dpi, 96);
    assert!(fonts.rasterize_glyph(id, 6, 1).unwrap().construct);
    assert_eq!(fonts.rasterizer_built(id, 1), Ok(()));
    assert!(!fonts.rasterize_glyph(id, 6, 1).unwrap().construct);
    assert_eq!(fonts.rasterizer_built(id, 2), Err(FontError::NoSuchFallback(2)));
    assert_eq!(fonts.rasterizer_built(9, 0), Err(FontError::NoSuchFont(9)));
    assert!(fonts.rasterize_glyph(id, 6, 0).unwrap().construct);
    assert_eq!(fonts.rasterize_glyph(id, 6, 2), Err(FontError::NoSuchFallback(2)));
    assert_eq!(fonts.rasterize_glyph(9, 6, 0), Err(FontError::NoSuchFont(9)));

    let epoch = fonts.epoch();
    let reloaded = config(vec![attr("Mono", false, false, false)], 2);
    assert_eq!(fonts.default_font_metrics(&reloaded), None);
    assert_ne!(fonts.epoch(), epoch);
    let epoch = fonts.epoch();
    match fonts.resolve_font(&reloaded, &style, &sources) {
        FontResolution::Miss(_) => {}
        FontResolution::Cached(_) => panic!("a reload drops the cache"),
    }
    assert_eq!(fonts.epoch(), epoch);
    let id = fonts.insert_font(&reloaded, &style, vec![disk("/a")], metrics());
    let epoch = fonts.epoch();
    fonts.change_scaling(1100, 2000);
    assert_ne!(fonts.epoch(), epoch);
    assert_eq!(fonts.get_font_scale(), 1100);
    assert!(fonts.font(id).is_err());
    let id = fonts.insert_font(&reloaded, &style, vec![disk("/a")], metrics());
    let req = fonts.rasterize_glyph(id, 1, 0).unwrap();
    assert_eq!(req.font_size_centipoints, 1320);
    assert_eq!(req.dpi, 192);
    assert_eq!(fonts.font(id).unwrap().num_handles(), 1);
}

#[test]
fn runs_split_on_missing_glyphs() {
    let text: Vec<char> = "ab\u{FE0F}c".chars().collect();
    let glyphs = vec![Some(1), Some(2), None, None];
    let runs = split_runs_with(&text, &glyphs, &vec![false; 4]);
    assert_eq!(runs.len(), 2);
    match &runs[0] {
        Run::Glyphs(g) => {
            assert_eq!(g.len(), 2);
            assert_eq!(g[1], RawGlyph { ch: 'b', glyph_index: 2, variation: Some(VariationSelector::VS16) });
        }
        _ => panic!("expected glyphs"),
    }
    match &runs[1] {
        Run::Unresolved(s) => assert_eq!(s, &vec!['c']),
        _ => panic!("expected unresolved text"),
    }
}

#[test]
fn enclosing_mark_sweeps_prior_glyph() {
    let text: Vec<char> = "x0\u{FE0F}\u{20E3}".chars().collect();
    let glyphs = vec![Some(1), Some(2), None, None];
    let runs = split_runs(&text, &glyphs);
    assert_eq!(runs.len(), 2);
    match &runs[0] {
        Run::Glyphs(g) => assert_eq!(g.len(), 1),
        _ => panic!("expected glyphs"),
    }
    match &runs[1] {
        Run::Unresolved(s) => assert_eq!(s, &vec!['0', '\u{FE0F}', '\u{20E3}']),
        _ => panic!("expected unresolved text"),
    }
    let no_mark = split_runs_with(&text, &glyphs, &vec![false; 4]);
    match &no_mark[1] {
        Run::Unresolved(s) => assert_eq!(s, &vec!['\u{20E3}']),
        _ => panic!("expected unresolved text"),
    }
}

#[test]
fn selectors_and_zero_width_non_joiner() {
    assert_eq!(variation_selector('\u{FE0E}'), Some(VariationSelector::VS15));
    assert_eq!(variation_selector('a'), None);
    assert_eq!(glyph_index_for_char('\u{200C}', None, Some(3)), Some(3));
    assert_eq!(glyph_index_for_char('a', None, Some(3)), None);
    assert_eq!(glyph_index_for_char('a', Some(4), Some(3)), Some(4));
}

#[test]
fn clusters_count_bytes() {
    let items = vec![
        ShapedItem::Glyph { text: vec!['é'], num_cells: 1, glyph_index: 9, x_advance: 8, y_advance: 0 },
        ShapedItem::Unresolved(vec!['😀']),
        ShapedItem::Glyph { text: vec!['a'], num_cells: 1, glyph_index: 2, x_advance: 8, y_advance: 0 },
    ];
    let out = assign_clusters(10, 1, &items).unwrap();
    match &out[0] {
        MaybeShaped::Resolved(GlyphInfo { cluster, font_idx, glyph_pos, .. }) => {
            assert_eq!((*cluster, *font_idx, *glyph_pos), (10, 1, 9));
        }
        _ => panic!("expected a glyph"),
    }
    match &out[1] {
        MaybeShaped::Unresolved { slice_start, .. } => assert_eq!(*slice_start, 12),
        _ => panic!("expected unresolved text"),
    }
    match &out[2] {
        MaybeShaped::Resolved(info) => assert_eq!(info.cluster, 16),
        _ => panic!("expected a glyph"),
    }
    assert!(assign_clusters(u32::MAX as usize, 0, &items).is_none());
}

#[test]
fn catalog_prefers_least_full_name() {
    let primary = vec![attr("Mono", false, false, false)];
    let sources = FontSources {
        font_dirs: vec![
            FontInfo { names: names("Mono Zeta", Some("Mono"), Some("Regular")), handle: disk("/z") },
            FontInfo { names: names("Mono Alpha", Some("Mono"), Some("Regular")), handle: disk("/a") },
            FontInfo { names: names("Mono Alpha", Some("Mono"), None), handle: disk("/a2") },
        ],
        locator: vec![],
        built_in: vec![],
    };
    let search = search_fonts(&primary, &primary, &sources);
    assert_eq!(search.picks, vec![FontPick { source: SourceKind::FontDirs, index: 1 }]);
    assert!(search.warnings.is_empty());
}

#[test]
fn nonspacing_mark_does_not_sweep() {
    let text: Vec<char> = "e\u{0301}".chars().collect();
    let runs = split_runs(&text, &vec![Some(1), None]);
    assert_eq!(runs.len(), 2);
    match &runs[1] {
        Run::Unresolved(s) => assert_eq!(s, &vec!['\u{0301}']),
        _ => panic!("expected unresolved text"),
    }
    let ring: Vec<char> = "a\u{20DD}".chars().collect();
    match &split_runs(&ring, &vec![Some(1), None])[1] {
        Run::Unresolved(s) => assert_eq!(s, &vec!['a', '\u{20DD}']),
        _ => panic!("expected unresolved text"),
    }
}
