use wezterm_render::attrs::{Blink, CellAttributes, Intensity, Underline};
use wezterm_render::color::{
    brighten_for_intensity, resolve_cell_colors, rgbcolor_to_window_color, Color, ColorAttribute,
    ColorPalette, RgbColor,
};
use wezterm_render::config::{Config, WindowPadding};
use wezterm_render::cursor::{
    blink_tick_repaints, compute_cell_fg_bg, cursor_overlay, cursor_shows, CursorOverlay,
    CursorPosition, CursorShape, DefaultCursorStyle, Selection,
};
use wezterm_render::fonts::FontConfiguration;
use wezterm_render::style::{rule_matches, select_style, FontAttributes, FontRule, TextStyle};

fn rgb(v: u8) -> RgbColor {
    RgbColor { red: v, green: v, blue: v }
}

fn palette() -> ColorPalette {
    let mut colors = Vec::new();
    for i in 0..256u32 {
        colors.push(rgb(i as u8));
    }
    ColorPalette {
        colors,
        foreground: RgbColor { red: 1, green: 2, blue: 3 },
        background: RgbColor { red: 4, green: 5, blue: 6 },
        cursor_fg: RgbColor { red: 7, green: 7, blue: 7 },
        cursor_bg: RgbColor { red: 8, green: 8, blue: 8 },
        selection_fg: RgbColor { red: 9, green: 9, blue: 9 },
        selection_bg: RgbColor { red: 10, green: 10, blue: 10 },
    }
}

fn style(family: &str) -> TextStyle {
    TextStyle {
        font: vec![FontAttributes {
            family: family.to_string(),
            bold: false,
            italic: false,
            is_fallback: false,
        }],
        foreground: None,
    }
}

fn rule(font: TextStyle) -> FontRule {
    FontRule {
        intensity: None,
        underline: None,
        italic: None,
        blink: None,
        reverse: None,
        strikethrough: None,
        invisible: None,
        font,
    }
}

fn config(rules: Vec<FontRule>) -> Config {
    Config {
        generation: 1,
        font: style("Default"),
        font_rules: rules,
        font_size_centipoints: 1200,
        dpi: 96,
        cursor_blink_rate: 500,
        default_cursor_style: DefaultCursorStyle::SteadyBlock,
        window_padding: WindowPadding { left: 0, top: 0, right: 0, bottom: 0 },
        enable_tab_bar: false,
    }
}

#[test]
fn bold_standard_color_is_brightened() {
    for i in 0..8u8 {
        assert_eq!(
            brighten_for_intensity(ColorAttribute::PaletteIndex(i), Intensity::Bold),
            ColorAttribute::PaletteIndex(i + 8)
        );
        assert_eq!(
            brighten_for_intensity(ColorAttribute::PaletteIndex(i), Intensity::Normal),
            ColorAttribute::PaletteIndex(i)
        );
    }
    assert_eq!(
        brighten_for_intensity(ColorAttribute::PaletteIndex(8), Intensity::Bold),
        ColorAttribute::PaletteIndex(8)
    );
    let p = palette();
    let mut attrs = CellAttributes::blank();
    attrs.foreground = ColorAttribute::PaletteIndex(1);
    attrs.intensity = Intensity::Bold;
    assert_eq!(resolve_cell_colors(&attrs, None, &p).0, rgb(9));
    attrs.intensity = Intensity::Half;
    assert_eq!(resolve_cell_colors(&attrs, None, &p).0, rgb(1));
}

#[test]
fn foreground_precedence() {
    let p = palette();
    let mut attrs = CellAttributes::blank();
    let style_fg = Some(RgbColor { red: 100, green: 0, blue: 0 });
    assert_eq!(resolve_cell_colors(&attrs, style_fg, &p).0, style_fg.unwrap());
    assert_eq!(resolve_cell_colors(&attrs, None, &p).0, p.foreground);
    let explicit = RgbColor { red: 0, green: 200, blue: 0 };
    attrs.foreground = ColorAttribute::TrueColor(explicit);
    assert_eq!(resolve_cell_colors(&attrs, style_fg, &p).0, explicit);
    attrs.background = ColorAttribute::PaletteIndex(42);
    assert_eq!(resolve_cell_colors(&attrs, style_fg, &p).1, rgb(42));
}

#[test]
fn reverse_swaps_fg_and_bg() {
    let p = palette();
    let mut attrs = CellAttributes::blank();
    attrs.foreground = ColorAttribute::PaletteIndex(3);
    attrs.background = ColorAttribute::PaletteIndex(200);
    let plain = resolve_cell_colors(&attrs, None, &p);
    attrs.reverse = true;
    let reversed = resolve_cell_colors(&attrs, None, &p);
    assert_eq!(reversed, (plain.1, plain.0));
    assert_eq!((reversed.1, reversed.0), plain);
}

#[test]
fn window_color_is_opaque() {
    assert_eq!(
        rgbcolor_to_window_color(RgbColor { red: 1, green: 2, blue: 3 }),
        Color { red: 1, green: 2, blue: 3, alpha: 0xff }
    );
}

#[test]
fn wildcard_rule_matches_every_cell() {
    let r = rule(style("Any"));
    let mut attrs = CellAttributes::blank();
    assert!(rule_matches(&r, &attrs));
    attrs.italic = true;
    attrs.intensity = Intensity::Bold;
    attrs.underline = Underline::Double;
    attrs.blink = Blink::Rapid;
    attrs.reverse = true;
    attrs.strikethrough = true;
    attrs.invisible = true;
    assert!(rule_matches(&r, &attrs));
}

#[test]
fn single_predicate_rule_matches_only_that_attribute() {
    let mut r = rule(style("Italic"));
    r.italic = Some(true);
    let mut attrs = CellAttributes::blank();
    assert!(!rule_matches(&r, &attrs));
    attrs.italic = true;
    assert!(rule_matches(&r, &attrs));
    attrs.reverse = true;
    assert!(rule_matches(&r, &attrs));
}

#[test]
fn first_matching_rule_wins() {
    let mut italic = rule(style("First"));
    italic.italic = Some(true);
    let wildcard = rule(style("Second"));
    let cfg = config(vec![italic, wildcard]);
    let fonts = FontConfiguration::new(1);
    let mut attrs = CellAttributes::blank();
    attrs.italic = true;
    assert_eq!(fonts.match_style(&cfg, &attrs).font[0].family, "First");
    attrs.italic = false;
    assert_eq!(fonts.match_style(&cfg, &attrs).font[0].family, "Second");
    let no_rules = config(vec![]);
    assert_eq!(select_style(&no_rules.font_rules, &no_rules.font, &attrs).font[0].family, "Default");
}

#[test]
fn blink_parity() {
    assert!(cursor_shows(CursorShape::BlinkingBlock, 500, 1200));
    assert!(!cursor_shows(CursorShape::BlinkingBlock, 500, 1700));
    assert!(cursor_shows(CursorShape::BlinkingBlock, 0, 1700));
    assert!(cursor_shows(CursorShape::SteadyBlock, 500, 1700));
    assert!(!cursor_shows(CursorShape::Hidden, 0, 0));
    let blinking = DefaultCursorStyle::BlinkingBlock;
    assert!(blink_tick_repaints(blinking, CursorShape::Default, 500, 1200, 1700));
    assert!(!blink_tick_repaints(blinking, CursorShape::Default, 500, 1000, 1499));
    assert!(!blink_tick_repaints(blinking, CursorShape::Default, 0, 1200, 1700));
    assert!(!blink_tick_repaints(blinking, CursorShape::SteadyBar, 500, 1200, 1700));
    assert!(!blink_tick_repaints(blinking, CursorShape::Hidden, 500, 1200, 1700));
    assert!(!blink_tick_repaints(DefaultCursorStyle::SteadyBlock, CursorShape::Default, 500, 1200, 1700));
}

#[test]
fn default_shape_follows_configuration() {
    let pos = CursorPosition { x: 0, y: 0, shape: CursorShape::Default };
    assert!(!cursor_overlay(pos, DefaultCursorStyle::BlinkingBar, 500, 1700).shows);
    assert!(cursor_overlay(pos, DefaultCursorStyle::SteadyBar, 500, 1700).shows);
    let explicit = CursorPosition { x: 0, y: 0, shape: CursorShape::SteadyUnderline };
    assert!(cursor_overlay(explicit, DefaultCursorStyle::BlinkingBar, 500, 1700).shows);
}

#[test]
fn overlay_precedence() {
    let p = palette();
    let fg = Color { red: 1, green: 1, blue: 1, alpha: 0xff };
    let bg = Color { red: 2, green: 2, blue: 2, alpha: 0xff };
    let cursor = CursorOverlay {
        position: CursorPosition { x: 3, y: 5, shape: CursorShape::SteadyBlock },
        shows: true,
    };
    let sel = Selection { start: 2, end: 6 };
    let cur = compute_cell_fg_bg(5, 3, &cursor, &sel, fg, bg, &p);
    assert_eq!(cur, (rgbcolor_to_window_color(p.cursor_fg), rgbcolor_to_window_color(p.cursor_bg)));
    let selected = compute_cell_fg_bg(5, 4, &cursor, &sel, fg, bg, &p);
    assert_eq!(
        selected,
        (rgbcolor_to_window_color(p.selection_fg), rgbcolor_to_window_color(p.selection_bg))
    );
    assert_eq!(compute_cell_fg_bg(5, 6, &cursor, &sel, fg, bg, &p), (fg, bg));
    let hidden = CursorOverlay { shows: false, ..cursor };
    assert_eq!(
        compute_cell_fg_bg(5, 3, &hidden, &sel, fg, bg, &p),
        (rgbcolor_to_window_color(p.selection_fg), rgbcolor_to_window_color(p.selection_bg))
    );
    assert_eq!(compute_cell_fg_bg(4, 3, &cursor, &Selection { start: 0, end: 0 }, fg, bg, &p), (fg, bg));
}
