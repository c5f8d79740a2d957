//! Cursor shapes, blink timing and the per-cell overlay colors.
use vstd::prelude::*;

use crate::color::{opaque_color, Color, ColorPalette};

verus! {

/// The shape the terminal asks for.
#[derive(Clone, Copy, Debug, PartialEq, Eq, Structural)]
pub enum CursorShape {
    Default,
    Hidden,
    BlinkingBlock,
    SteadyBlock,
    BlinkingUnderline,
    SteadyUnderline,
    BlinkingBar,
    SteadyBar,
}

impl CursorShape {
    pub open spec fn spec_is_blinking(self) -> bool {
        self is BlinkingBlock || self is BlinkingUnderline || self is BlinkingBar
    }

    /// Whether the shape blinks.
    pub fn is_blinking(self) -> (r: bool)
        ensures
            r == self.spec_is_blinking(),
    {
        match self {
            CursorShape::BlinkingBlock | CursorShape::BlinkingUnderline
            | CursorShape::BlinkingBar => true,
            _ => false,
        }
    }
}

/// The shape that the configuration gives to a cursor whose shape the
/// terminal left at its default.
#[derive(Clone, Copy, Debug, PartialEq, Eq, Structural)]
pub enum DefaultCursorStyle {
    BlinkingBlock,
    SteadyBlock,
    BlinkingUnderline,
    SteadyUnderline,
    BlinkingBar,
    SteadyBar,
}

impl DefaultCursorStyle {
    pub open spec fn spec_effective_shape(self, shape: CursorShape) -> CursorShape {
        match shape {
            CursorShape::Default => match self {
                DefaultCursorStyle::BlinkingBlock => CursorShape::BlinkingBlock,
                DefaultCursorStyle::SteadyBlock => CursorShape::SteadyBlock,
                DefaultCursorStyle::BlinkingUnderline => CursorShape::BlinkingUnderline,
                DefaultCursorStyle::SteadyUnderline => CursorShape::SteadyUnderline,
                DefaultCursorStyle::BlinkingBar => CursorShape::BlinkingBar,
                DefaultCursorStyle::SteadyBar => CursorShape::SteadyBar,
            },
            _ => shape,
        }
    }

    /// The shape to draw: `shape` itself unless it is `Default`.
    pub fn effective_shape(self, shape: CursorShape) -> (r: CursorShape)
        ensures
            r == self.spec_effective_shape(shape),
    {
        match shape {
            CursorShape::Default => match self {
                DefaultCursorStyle::BlinkingBlock => CursorShape::BlinkingBlock,
                DefaultCursorStyle::SteadyBlock => CursorShape::SteadyBlock,
                DefaultCursorStyle::BlinkingUnderline => CursorShape::BlinkingUnderline,
                DefaultCursorStyle::SteadyUnderline => CursorShape::SteadyUnderline,
                DefaultCursorStyle::BlinkingBar => CursorShape::BlinkingBar,
                DefaultCursorStyle::SteadyBar => CursorShape::SteadyBar,
            },
            _ => shape,
        }
    }
}

/// Where the cursor is and which shape the terminal gave it.
#[derive(Clone, Copy, Debug, PartialEq, Eq, Structural)]
pub struct CursorPosition {
    pub x: usize,
    pub y: i64,
    pub shape: CursorShape,
}

/// Number of whole blink periods in `elapsed_ms`.
pub open spec fn spec_blink_ticks(elapsed_ms: u64, blink_rate_ms: u64) -> int
    recommends
        blink_rate_ms > 0,
{
    elapsed_ms as int / blink_rate_ms as int
}

/// Whether a cursor of shape `shape` (already made effective) shows after
/// `elapsed_ms` milliseconds since the window was created.
pub open spec fn spec_cursor_shows(shape: CursorShape, blink_rate_ms: u64, elapsed_ms: u64) -> bool {
    if shape is Hidden {
        false
    } else if !shape.spec_is_blinking() || blink_rate_ms == 0 {
        true
    } else {
        spec_blink_ticks(elapsed_ms, blink_rate_ms) % 2 == 0
    }
}

/// With blinking turned off, a cursor that is not hidden shows whatever
/// time has passed; a blinking cursor shows exactly in the even periods.
pub proof fn lemma_blink_visibility(shape: CursorShape, blink_rate_ms: u64, elapsed_ms: u64)
    requires
        !(shape is Hidden),
    ensures
        blink_rate_ms == 0 ==> spec_cursor_shows(shape, blink_rate_ms, elapsed_ms),
        blink_rate_ms > 0 && shape.spec_is_blinking() ==> (spec_cursor_shows(
            shape,
            blink_rate_ms,
            elapsed_ms,
        ) <==> (elapsed_ms as int / blink_rate_ms as int) % 2 == 0),
{
}

/// Number of whole blink periods since the window was created.
pub fn blink_ticks(elapsed_ms: u64, blink_rate_ms: u64) -> (r: u64)
    requires
        blink_rate_ms > 0,
    ensures
        r == spec_blink_ticks(elapsed_ms, blink_rate_ms),
{
    elapsed_ms / blink_rate_ms
}

/// Whether the cursor shows this frame: never when hidden; always when
/// its shape does not blink or blinking is off; otherwise when an even
/// number of blink periods has passed since the window was created.
pub fn cursor_shows(shape: CursorShape, blink_rate_ms: u64, elapsed_ms: u64) -> (r: bool)
    ensures
        r == spec_cursor_shows(shape, blink_rate_ms, elapsed_ms),
{
    if shape == CursorShape::Hidden {
        false
    } else if !shape.is_blinking() || blink_rate_ms == 0 {
        true
    } else {
        blink_ticks(elapsed_ms, blink_rate_ms) % 2 == 0
    }
}

/// Whether a periodic tick at `now_ms` must repaint: blinking is on,
/// the cursor's shape blinks, and the blink phase differs from the one at
/// the previous tick, `before_ms`.
pub open spec fn spec_blink_tick_repaints(
    shape: CursorShape,
    blink_rate_ms: u64,
    before_ms: u64,
    now_ms: u64,
) -> bool {
    &&& blink_rate_ms > 0
    &&& shape.spec_is_blinking()
    &&& spec_blink_ticks(before_ms, blink_rate_ms) % 2 != spec_blink_ticks(now_ms, blink_rate_ms) % 2
}

/// Decides whether the periodic blink tick marks all lines dirty.  It
/// only detects a flip of the blink phase of a blinking cursor; whether the
/// cursor shows is decided at paint time.
pub fn blink_tick_repaints(
    style: DefaultCursorStyle,
    shape: CursorShape,
    blink_rate_ms: u64,
    before_ms: u64,
    now_ms: u64,
) -> (r: bool)
    ensures
        r == spec_blink_tick_repaints(
            style.spec_effective_shape(shape),
            blink_rate_ms,
            before_ms,
            now_ms,
        ),
{
    let shape = style.effective_shape(shape);
    if blink_rate_ms == 0 || !shape.is_blinking() {
        false
    } else {
        blink_ticks(before_ms, blink_rate_ms) % 2 != blink_ticks(now_ms, blink_rate_ms) % 2
    }
}

/// Colors of one cell after the overlays: a showing cursor wins over the
/// selection, which wins over the cell's own colors.
pub open spec fn spec_cell_fg_bg(
    is_cursor_cell: bool,
    cursor_shows: bool,
    selected: bool,
    fg: Color,
    bg: Color,
    palette: ColorPalette,
) -> (Color, Color) {
    if is_cursor_cell && cursor_shows {
        (opaque_color(palette.cursor_fg), opaque_color(palette.cursor_bg))
    } else if selected {
        (opaque_color(palette.selection_fg), opaque_color(palette.selection_bg))
    } else {
        (fg, bg)
    }
}

/// A half-open range of columns.
#[derive(Clone, Copy, Debug, PartialEq, Eq, Structural)]
pub struct Selection {
    pub start: usize,
    pub end: usize,
}

impl Selection {
    pub open spec fn spec_contains(self, i: usize) -> bool {
        self.start <= i < self.end
    }

    pub fn contains(&self, i: usize) -> (r: bool)
        ensures
            r == self.spec_contains(i),
    {
        self.start <= i && i < self.end
    }
}

/// The cursor sits in column `cell_idx` of screen line `line_idx`.
pub open spec fn spec_is_cursor_cell(cursor: CursorPosition, line_idx: usize, cell_idx: usize) -> bool {
    line_idx as int == cursor.y as int && cursor.x == cell_idx
}

/// What the overlay computation needs to know of the cursor this frame.
#[derive(Clone, Copy, Debug, PartialEq, Eq, Structural)]
pub struct CursorOverlay {
    pub position: CursorPosition,
    /// Whether the cursor shows this frame.
    pub shows: bool,
}

/// Computes the overlay for this frame from the configured default
/// style, the blink rate and the time since the window was created.
pub fn cursor_overlay(
    position: CursorPosition,
    style: DefaultCursorStyle,
    blink_rate_ms: u64,
    elapsed_ms: u64,
) -> (r: CursorOverlay)
    ensures
        r.position == position,
        r.shows == spec_cursor_shows(style.spec_effective_shape(position.shape), blink_rate_ms, elapsed_ms),
{
    let shape = style.effective_shape(position.shape);
    CursorOverlay { position, shows: cursor_shows(shape, blink_rate_ms, elapsed_ms) }
}

/// Final colors of the cell in column `cell_idx` of line `line_idx`.
pub fn compute_cell_fg_bg(
    line_idx: usize,
    cell_idx: usize,
    cursor: &CursorOverlay,
    selection: &Selection,
    fg_color: Color,
    bg_color: Color,
    palette: &ColorPalette,
) -> (r: (Color, Color))
    ensures
        r == spec_cell_fg_bg(
            spec_is_cursor_cell(cursor.position, line_idx, cell_idx),
            cursor.shows,
            selection.spec_contains(cell_idx),
            fg_color,
            bg_color,
            *palette,
        ),
{
    let selected = selection.contains(cell_idx);
    let is_cursor = (line_idx as u64) <= (i64::MAX as u64) && line_idx as i64 == cursor.position.y
        && cursor.position.x == cell_idx;
    if is_cursor && cursor.shows {
        (
            crate::color::rgbcolor_to_window_color(palette.cursor_fg),
            crate::color::rgbcolor_to_window_color(palette.cursor_bg),
        )
    } else if selected {
        (
            crate::color::rgbcolor_to_window_color(palette.selection_fg),
            crate::color::rgbcolor_to_window_color(palette.selection_bg),
        )
    } else {
        (fg_color, bg_color)
    }
}

} // verus!
