//! Colors, the palette, and how a cell's colors are resolved.
use vstd::prelude::*;

use crate::attrs::{CellAttributes, Intensity};

verus! {

/// A color with 8 bits per channel.
#[derive(Clone, Copy, Debug, PartialEq, Eq, Structural)]
pub struct RgbColor {
    pub red: u8,
    pub green: u8,
    pub blue: u8,
}

/// A color as the drawing surface takes it, with an alpha channel.
#[derive(Clone, Copy, Debug, PartialEq, Eq, Structural)]
pub struct Color {
    pub red: u8,
    pub green: u8,
    pub blue: u8,
    pub alpha: u8,
}

/// How a cell names its foreground or background color.
#[derive(Clone, Copy, Debug, PartialEq, Eq, Structural)]
pub enum ColorAttribute {
    Default,
    PaletteIndex(u8),
    TrueColor(RgbColor),
}

/// Number of entries of a palette.
pub const PALETTE_SIZE: usize = 256;

/// The colors of a terminal: the indexed palette and the named colors.
#[derive(Clone, Debug)]
pub struct ColorPalette {
    pub colors: Vec<RgbColor>,
    pub foreground: RgbColor,
    pub background: RgbColor,
    pub cursor_fg: RgbColor,
    pub cursor_bg: RgbColor,
    pub selection_fg: RgbColor,
    pub selection_bg: RgbColor,
}

pub open spec fn opaque_color(c: RgbColor) -> Color {
    Color { red: c.red, green: c.green, blue: c.blue, alpha: 0xff }
}

/// The fully opaque window color for `color`.
pub fn rgbcolor_to_window_color(color: RgbColor) -> (r: Color)
    ensures
        r == opaque_color(color),
{
    Color { red: color.red, green: color.green, blue: color.blue, alpha: 0xff }
}

impl ColorPalette {
    /// Every palette index names an entry.
    pub open spec fn wf(&self) -> bool {
        self.colors@.len() == PALETTE_SIZE
    }

    pub open spec fn spec_resolve(&self, c: ColorAttribute, default: RgbColor) -> RgbColor {
        match c {
            ColorAttribute::Default => default,
            ColorAttribute::PaletteIndex(i) => self.colors@[i as int],
            ColorAttribute::TrueColor(rgb) => rgb,
        }
    }

    pub open spec fn spec_resolve_fg(&self, c: ColorAttribute) -> RgbColor {
        self.spec_resolve(c, self.foreground)
    }

    pub open spec fn spec_resolve_bg(&self, c: ColorAttribute) -> RgbColor {
        self.spec_resolve(c, self.background)
    }

    /// The color that `c` names when used as a foreground.
    pub fn resolve_fg(&self, c: ColorAttribute) -> (r: RgbColor)
        requires
            self.wf(),
        ensures
            r == self.spec_resolve_fg(c),
    {
        match c {
            ColorAttribute::Default => self.foreground,
            ColorAttribute::PaletteIndex(i) => self.colors[i as usize],
            ColorAttribute::TrueColor(rgb) => rgb,
        }
    }

    /// The color that `c` names when used as a background.
    pub fn resolve_bg(&self, c: ColorAttribute) -> (r: RgbColor)
        requires
            self.wf(),
        ensures
            r == self.spec_resolve_bg(c),
    {
        match c {
            ColorAttribute::Default => self.background,
            ColorAttribute::PaletteIndex(i) => self.colors[i as usize],
            ColorAttribute::TrueColor(rgb) => rgb,
        }
    }
}

/// The foreground attribute after bold brightening: one of the eight
/// standard colors becomes its bright variant when the text is bold.
pub open spec fn spec_brightened(fg: ColorAttribute, intensity: Intensity) -> ColorAttribute {
    match fg {
        ColorAttribute::PaletteIndex(i) => if i < 8 && intensity == Intensity::Bold {
            ColorAttribute::PaletteIndex((i + 8) as u8)
        } else {
            fg
        },
        _ => fg,
    }
}

/// Lifts a standard palette color to its bright variant for bold text.
pub fn brighten_for_intensity(fg: ColorAttribute, intensity: Intensity) -> (r: ColorAttribute)
    ensures
        r == spec_brightened(fg, intensity),
        fg is PaletteIndex && fg->PaletteIndex_0 < 8 ==> r == ColorAttribute::PaletteIndex(
            if intensity == Intensity::Bold {
                (fg->PaletteIndex_0 + 8) as u8
            } else {
                fg->PaletteIndex_0
            },
        ),
{
    match fg {
        ColorAttribute::PaletteIndex(i) => {
            if i < 8 && intensity == Intensity::Bold {
                ColorAttribute::PaletteIndex(i + 8)
            } else {
                fg
            }
        },
        _ => fg,
    }
}

/// The foreground of a run of cells before `reverse` is applied:
/// an explicit color wins, then the style's color, then the palette's.
pub open spec fn spec_base_fg(
    attrs: CellAttributes,
    style_fg: Option<RgbColor>,
    palette: ColorPalette,
) -> RgbColor {
    match attrs.foreground {
        ColorAttribute::Default => match style_fg {
            Some(fg) => fg,
            None => palette.foreground,
        },
        _ => palette.spec_resolve_fg(spec_brightened(attrs.foreground, attrs.intensity)),
    }
}

/// The (foreground, background) of a run of cells with attributes `attrs`.
pub open spec fn spec_cell_colors(
    attrs: CellAttributes,
    style_fg: Option<RgbColor>,
    palette: ColorPalette,
) -> (RgbColor, RgbColor) {
    let fg = spec_base_fg(attrs, style_fg, palette);
    let bg = palette.spec_resolve_bg(attrs.background);
    if attrs.reverse {
        (bg, fg)
    } else {
        (fg, bg)
    }
}

pub open spec fn swap_pair(p: (RgbColor, RgbColor)) -> (RgbColor, RgbColor) {
    (p.1, p.0)
}

/// Resolves the foreground and background of a run of cells.
pub fn resolve_cell_colors(
    attrs: &CellAttributes,
    style_fg: Option<RgbColor>,
    palette: &ColorPalette,
) -> (r: (RgbColor, RgbColor))
    requires
        palette.wf(),
    ensures
        r == spec_cell_colors(*attrs, style_fg, *palette),
{
    let bg = palette.resolve_bg(attrs.background);
    let fg = match attrs.foreground {
        ColorAttribute::Default => match style_fg {
            Some(fg) => fg,
            None => palette.foreground,
        },
        _ => palette.resolve_fg(brighten_for_intensity(attrs.foreground, attrs.intensity)),
    };
    if attrs.reverse {
        (bg, fg)
    } else {
        (fg, bg)
    }
}

/// A bold standard color `i < 8` is looked up at `i + 8`; without bold
/// it is looked up at `i`.
pub proof fn lemma_bold_brightens(attrs: CellAttributes, style_fg: Option<RgbColor>, palette: ColorPalette, i: u8)
    requires
        palette.wf(),
        i < 8,
        attrs.foreground == ColorAttribute::PaletteIndex(i),
    ensures
        attrs.intensity == Intensity::Bold ==> spec_base_fg(attrs, style_fg, palette)
            == palette.colors@[i + 8],
        attrs.intensity != Intensity::Bold ==> spec_base_fg(attrs, style_fg, palette)
            == palette.colors@[i as int],
{
}

/// With `reverse` set, the final foreground and background are the
/// background and foreground that the cell has without it; swapping twice
/// gives the starting pair back.
pub proof fn lemma_reverse_swaps(attrs: CellAttributes, style_fg: Option<RgbColor>, palette: ColorPalette)
    requires
        attrs.reverse,
    ensures
        spec_cell_colors(attrs, style_fg, palette) == swap_pair(
            spec_cell_colors(CellAttributes { reverse: false, ..attrs }, style_fg, palette),
        ),
        swap_pair(swap_pair(spec_cell_colors(attrs, style_fg, palette))) == spec_cell_colors(
            attrs,
            style_fg,
            palette,
        ),
{
}

} // verus!
