//! The paint entry points' decisions: recovering from a full atlas, the
//! padding fills around the grid, and the sizes derived from the window.
use vstd::prelude::*;

use crate::config::WindowPadding;

verus! {

/// Where a paint pass stands.
#[derive(Clone, Copy, Debug, PartialEq, Eq, Structural)]
pub enum PaintPhase {
    /// Lines are being painted; `retried` is set once the pass has
    /// recovered from a full atlas.
    Painting { retried: bool },
    /// The atlas is being recreated at the larger size that was asked for.
    GrowingAtlas,
    /// Growing failed; the atlas is being recreated at its current size.
    RecreatingAtlas,
    /// The pass is over.
    Done,
    /// The atlas could not be recovered: rendering cannot go on.
    Fatal,
}

/// What happened at the last step.
#[derive(Clone, Copy, Debug, PartialEq, Eq, Structural)]
pub enum PaintEvent {
    Painted,
    PaintFailed,
    OutOfTextureSpace { size: u64 },
    AtlasRecreated,
    AtlasRecreateFailed,
}

/// What the paint entry point must do next.
#[derive(Clone, Copy, Debug, PartialEq, Eq, Structural)]
pub enum PaintAction {
    /// Recreate the atlas, at the given side or else at its current one.
    RecreateAtlas(Option<u64>),
    /// Mark every line dirty and paint again.
    Repaint,
    /// Report the error of this pass; the pass ends.
    ReportError,
    /// Nothing more to do.
    Finish,
    /// Give up: the atlas cannot be recreated.
    Abort,
    /// The event does not belong to this phase; nothing changes.
    Ignore,
}

pub open spec fn spec_paint_step(phase: PaintPhase, event: PaintEvent) -> (PaintPhase, PaintAction) {
    match (phase, event) {
        (PaintPhase::Painting { .. }, PaintEvent::Painted) => (PaintPhase::Done, PaintAction::Finish),
        (PaintPhase::Painting { .. }, PaintEvent::PaintFailed) => (
            PaintPhase::Done,
            PaintAction::ReportError,
        ),
        (PaintPhase::Painting { retried }, PaintEvent::OutOfTextureSpace { size }) => if retried {
            (PaintPhase::Fatal, PaintAction::Abort)
        } else {
            (PaintPhase::GrowingAtlas, PaintAction::RecreateAtlas(Some(size)))
        },
        (PaintPhase::GrowingAtlas, PaintEvent::AtlasRecreated) => (
            PaintPhase::Painting { retried: true },
            PaintAction::Repaint,
        ),
        (PaintPhase::GrowingAtlas, PaintEvent::AtlasRecreateFailed) => (
            PaintPhase::RecreatingAtlas,
            PaintAction::RecreateAtlas(None),
        ),
        (PaintPhase::RecreatingAtlas, PaintEvent::AtlasRecreated) => (
            PaintPhase::Painting { retried: true },
            PaintAction::Repaint,
        ),
        (PaintPhase::RecreatingAtlas, PaintEvent::AtlasRecreateFailed) => (
            PaintPhase::Fatal,
            PaintAction::Abort,
        ),
        _ => (phase, PaintAction::Ignore),
    }
}

/// The next phase and action of a paint pass.  A full atlas is recovered
/// from at most once per pass: the atlas is recreated at the size asked
/// for, or failing that at its current size, every line is marked dirty
/// and the pass paints once more; a second full atlas, or a failure of
/// both recreations, is fatal.
pub fn next_paint_step(phase: PaintPhase, event: PaintEvent) -> (r: (PaintPhase, PaintAction))
    ensures
        r == spec_paint_step(phase, event),
{
    match (phase, event) {
        (PaintPhase::Painting { .. }, PaintEvent::Painted) => (PaintPhase::Done, PaintAction::Finish),
        (PaintPhase::Painting { .. }, PaintEvent::PaintFailed) => (
            PaintPhase::Done,
            PaintAction::ReportError,
        ),
        (PaintPhase::Painting { retried }, PaintEvent::OutOfTextureSpace { size }) => {
            if retried {
                (PaintPhase::Fatal, PaintAction::Abort)
            } else {
                (PaintPhase::GrowingAtlas, PaintAction::RecreateAtlas(Some(size)))
            }
        },
        (PaintPhase::GrowingAtlas, PaintEvent::AtlasRecreated) => (
            PaintPhase::Painting { retried: true },
            PaintAction::Repaint,
        ),
        (PaintPhase::GrowingAtlas, PaintEvent::AtlasRecreateFailed) => (
            PaintPhase::RecreatingAtlas,
            PaintAction::RecreateAtlas(None),
        ),
        (PaintPhase::RecreatingAtlas, PaintEvent::AtlasRecreated) => (
            PaintPhase::Painting { retried: true },
            PaintAction::Repaint,
        ),
        (PaintPhase::RecreatingAtlas, PaintEvent::AtlasRecreateFailed) => (
            PaintPhase::Fatal,
            PaintAction::Abort,
        ),
        _ => (phase, PaintAction::Ignore),
    }
}

/// The actions of a pass that starts in `phase` and sees `events`.
pub open spec fn spec_paint_actions(phase: PaintPhase, events: Seq<PaintEvent>) -> Seq<PaintAction>
    decreases events.len(),
{
    if events.len() == 0 {
        Seq::empty()
    } else {
        let (next, action) = spec_paint_step(phase, events[0]);
        seq![action] + spec_paint_actions(next, events.drop_first())
    }
}

pub open spec fn is_recreate(a: PaintAction) -> bool {
    a is RecreateAtlas
}

/// Number of atlas recreations among `actions`.
pub open spec fn spec_recreations(actions: Seq<PaintAction>) -> nat
    decreases actions.len(),
{
    if actions.len() == 0 {
        0
    } else {
        (if is_recreate(actions[0]) {
            1nat
        } else {
            0nat
        }) + spec_recreations(actions.drop_first())
    }
}

/// How many recreations a pass in `phase` may still perform.
pub open spec fn spec_recreation_budget(phase: PaintPhase) -> nat {
    match phase {
        PaintPhase::Painting { retried } => if retried {
            0
        } else {
            2
        },
        PaintPhase::GrowingAtlas => 1,
        _ => 0,
    }
}

pub proof fn lemma_recreations_bounded(phase: PaintPhase, events: Seq<PaintEvent>)
    ensures
        spec_recreations(spec_paint_actions(phase, events)) <= spec_recreation_budget(phase),
    decreases events.len(),
{
    if events.len() > 0 {
        let (next, action) = spec_paint_step(phase, events[0]);
        lemma_recreations_bounded(next, events.drop_first());
        let actions = spec_paint_actions(phase, events);
        assert(actions.drop_first() =~= spec_paint_actions(next, events.drop_first()));
    }
}

/// A paint pass recreates the atlas at most twice, whatever happens: a
/// full atlas causes one recreation at the signaled size and, if that
/// fails, one at the current size.
pub proof fn lemma_paint_recreates_at_most_twice(events: Seq<PaintEvent>)
    ensures
        spec_recreations(spec_paint_actions(PaintPhase::Painting { retried: false }, events)) <= 2,
{
    lemma_recreations_bounded(PaintPhase::Painting { retried: false }, events);
}

/// The recovery sequence: a full atlas asks for the signaled size; a
/// failure then asks for the current size; a second failure is fatal.
pub proof fn lemma_overflow_recovery_order(size: u64)
    ensures
        spec_paint_step(
            PaintPhase::Painting { retried: false },
            PaintEvent::OutOfTextureSpace { size },
        ) == (PaintPhase::GrowingAtlas, PaintAction::RecreateAtlas(Some(size))),
        spec_paint_step(PaintPhase::GrowingAtlas, PaintEvent::AtlasRecreateFailed) == (
            PaintPhase::RecreatingAtlas,
            PaintAction::RecreateAtlas(None),
        ),
        spec_paint_step(PaintPhase::RecreatingAtlas, PaintEvent::AtlasRecreateFailed) == (
            PaintPhase::Fatal,
            PaintAction::Abort,
        ),
        spec_paint_step(
            PaintPhase::Painting { retried: true },
            PaintEvent::OutOfTextureSpace { size },
        ) == (PaintPhase::Fatal, PaintAction::Abort),
{
}

/// A rectangle in window pixels.
#[derive(Clone, Copy, Debug, PartialEq, Eq, Structural)]
pub struct PixelRect {
    pub x: i64,
    pub y: i64,
    pub width: i64,
    pub height: i64,
}

pub open spec fn sat_sub(a: int, b: int) -> int {
    if a > b {
        a - b
    } else {
        0
    }
}

/// The fills around the grid: below the last row, the top padding, the
/// left padding and the right padding.
pub open spec fn spec_padding_rects(
    pixel_width: u32,
    pixel_height: u32,
    padding: WindowPadding,
    num_rows: u32,
    first_line_offset: u32,
    cell_height: u16,
) -> Seq<PixelRect> {
    let cells_bottom = padding.top + (num_rows + first_line_offset) * cell_height;
    seq![
        PixelRect {
            x: 0,
            y: cells_bottom as i64,
            width: pixel_width as i64,
            height: sat_sub(pixel_height as int, cells_bottom) as i64,
        },
        PixelRect { x: 0, y: 0, width: pixel_width as i64, height: padding.top as i64 },
        PixelRect {
            x: 0,
            y: padding.top as i64,
            width: padding.left as i64,
            height: sat_sub(pixel_height as int, padding.top as int) as i64,
        },
        PixelRect {
            x: sat_sub(pixel_width as int, padding.right as int) as i64,
            y: padding.top as i64,
            width: padding.right as i64,
            height: sat_sub(pixel_height as int, padding.top as int) as i64,
        },
    ]
}

/// The rectangles that a paint fills with the background around the grid.
pub fn padding_rects(
    pixel_width: u32,
    pixel_height: u32,
    padding: WindowPadding,
    num_rows: u32,
    first_line_offset: u32,
    cell_height: u16,
) -> (r: Vec<PixelRect>)
    ensures
        r@ == spec_padding_rects(
            pixel_width,
            pixel_height,
            padding,
            num_rows,
            first_line_offset,
            cell_height,
        ),
{
    assert((num_rows as int + first_line_offset as int) * cell_height as int <= 0x1_ffff_fffe * 0xffff)
        by (nonlinear_arith)
        requires
            num_rows <= u32::MAX,
            first_line_offset <= u32::MAX,
            cell_height <= 0xffff,
    ;
    let cells_bottom: i64 = padding.top as i64 + (num_rows as i64 + first_line_offset as i64)
        * cell_height as i64;
    let below = if pixel_height as i64 > cells_bottom {
        pixel_height as i64 - cells_bottom
    } else {
        0
    };
    let side_height = if pixel_height as i64 > padding.top as i64 {
        pixel_height as i64 - padding.top as i64
    } else {
        0
    };
    let right_x = if pixel_width as i64 > padding.right as i64 {
        pixel_width as i64 - padding.right as i64
    } else {
        0
    };
    let r = vec![
        PixelRect { x: 0, y: cells_bottom, width: pixel_width as i64, height: below },
        PixelRect { x: 0, y: 0, width: pixel_width as i64, height: padding.top as i64 },
        PixelRect { x: 0, y: padding.top as i64, width: padding.left as i64, height: side_height },
        PixelRect {
            x: right_x,
            y: padding.top as i64,
            width: padding.right as i64,
            height: side_height,
        },
    ];
    proof {
        assert(r@ =~= spec_padding_rects(
            pixel_width,
            pixel_height,
            padding,
            num_rows,
            first_line_offset,
            cell_height,
        ));
    }
    r
}

/// The rectangle of the text cursor, for input methods: its cell, with
/// negative coordinates clamped to the grid's first row or column.
pub fn text_cursor_rect(
    x: i64,
    y: i64,
    cell_width: u16,
    cell_height: u16,
    padding: WindowPadding,
) -> (r: PixelRect)
    requires
        -0x1_0000_0000 <= x <= 0x1_0000_0000,
        -0x1_0000_0000 <= y <= 0x1_0000_0000,
    ensures
        r.x == (if x > 0 {
            x
        } else {
            0
        }) * cell_width + padding.left,
        r.y == (if y > 0 {
            y
        } else {
            0
        }) * cell_height + padding.top,
        r.width == cell_width,
        r.height == cell_height,
{
    let cx: i64 = if x > 0 {
        x
    } else {
        0
    };
    let cy: i64 = if y > 0 {
        y
    } else {
        0
    };
    assert(cx * cell_width <= 0x1_0000_0000 * 0xffff) by (nonlinear_arith)
        requires
            0 <= cx <= 0x1_0000_0000,
            cell_width <= 0xffff,
    ;
    assert(cy * cell_height <= 0x1_0000_0000 * 0xffff) by (nonlinear_arith)
        requires
            0 <= cy <= 0x1_0000_0000,
            cell_height <= 0xffff,
    ;
    assert(cx * cell_width >= 0) by (nonlinear_arith)
        requires
            0 <= cx,
    ;
    assert(cy * cell_height >= 0) by (nonlinear_arith)
        requires
            0 <= cy,
    ;
    PixelRect {
        x: cx * cell_width as i64 + padding.left as i64,
        y: cy * cell_height as i64 + padding.top as i64,
        width: cell_width as i64,
        height: cell_height as i64,
    }
}

/// Size of the terminal in cells and in pixels.
#[derive(Clone, Copy, Debug, PartialEq, Eq, Structural)]
pub struct TerminalSize {
    pub rows: u16,
    pub cols: u16,
    pub pixel_width: u16,
    pub pixel_height: u16,
}

pub open spec fn clamp_u16(v: int) -> u16 {
    if v > 0xffff {
        0xffff
    } else if v < 0 {
        0
    } else {
        v as u16
    }
}

fn clamp16(v: u64) -> (r: u16)
    ensures
        r == clamp_u16(v as int),
{
    if v > 0xffff {
        0xffff
    } else {
        v as u16
    }
}

/// The terminal size that a window of the given pixel size holds: the
/// area inside the padding divided into cells, less a row for the tab bar
/// when it is shown.  Values past 16 bits are clamped.
pub fn terminal_size_for_window(
    pixel_width: u32,
    pixel_height: u32,
    padding: WindowPadding,
    cell_width: u16,
    cell_height: u16,
    show_tab_bar: bool,
) -> (r: TerminalSize)
    requires
        cell_width > 0,
        cell_height > 0,
    ensures
        ({
            let avail_w = sat_sub(pixel_width as int, padding.left + padding.right);
            let avail_h = sat_sub(pixel_height as int, padding.top + padding.bottom);
            &&& r.rows == clamp_u16(
                sat_sub(
                    avail_h / cell_height as int,
                    if show_tab_bar {
                        1
                    } else {
                        0
                    },
                ),
            )
            &&& r.cols == clamp_u16(avail_w / cell_width as int)
            &&& r.pixel_width == clamp_u16(avail_w)
            &&& r.pixel_height == clamp_u16(avail_h)
        }),
{
    let hpad = padding.left as u64 + padding.right as u64;
    let vpad = padding.top as u64 + padding.bottom as u64;
    let avail_w: u64 = if pixel_width as u64 > hpad {
        pixel_width as u64 - hpad
    } else {
        0
    };
    let avail_h: u64 = if pixel_height as u64 > vpad {
        pixel_height as u64 - vpad
    } else {
        0
    };
    let rows_all = avail_h / cell_height as u64;
    let tab: u64 = if show_tab_bar {
        1
    } else {
        0
    };
    let rows = if rows_all > tab {
        rows_all - tab
    } else {
        0
    };
    TerminalSize {
        rows: clamp16(rows),
        cols: clamp16(avail_w / cell_width as u64),
        pixel_width: clamp16(avail_w),
        pixel_height: clamp16(avail_h),
    }
}

/// The window size, in pixels, that keeps `rows` x `cols` cells after a
/// scale change: the cells, a row for the tab bar when it is shown, and
/// the padding.
pub fn window_size_for_cells(
    rows: u16,
    cols: u16,
    padding: WindowPadding,
    cell_width: u16,
    cell_height: u16,
    show_tab_bar: bool,
) -> (r: (u64, u64))
    ensures
        r.0 == cols * cell_width + padding.left + padding.right,
        r.1 == (rows + if show_tab_bar {
            1int
        } else {
            0int
        }) * cell_height + padding.top + padding.bottom,
{
    let total_rows: u64 = rows as u64 + if show_tab_bar {
        1
    } else {
        0
    };
    assert(total_rows * cell_height <= 0x10000 * 0xffff) by (nonlinear_arith)
        requires
            total_rows <= 0x10000,
            cell_height <= 0xffff,
    ;
    assert(cols * cell_width <= 0xffff * 0xffff) by (nonlinear_arith)
        requires
            cols <= 0xffff,
            cell_width <= 0xffff,
    ;
    (
        cols as u64 * cell_width as u64 + padding.left as u64 + padding.right as u64,
        total_rows * cell_height as u64 + padding.top as u64 + padding.bottom as u64,
    )
}

/// Why a tab could not be activated.
#[derive(Clone, Copy, Debug, PartialEq, Eq, Structural)]
pub enum TabError {
    NoTabs,
}

/// The tab `delta` places from the active one, wrapping around at both
/// ends.
pub fn relative_tab_index(active: usize, delta: isize, num_tabs: usize) -> (r: Result<usize, TabError>)
    ensures
        r is Err <==> num_tabs == 0,
        r matches Ok(i) ==> i as int == (active as int + delta as int) % (num_tabs as int),
{
    if num_tabs == 0 {
        return Err(TabError::NoTabs);
    }
    let n = num_tabs;
    let a = active % n;
    let ghost qa = active as int / n as int;
    proof {
        vstd::arithmetic::div_mod::lemma_fundamental_div_mod(active as int, n as int);
    }
    let res: usize;
    if delta >= 0 {
        let b = (delta as usize) % n;
        let ghost qd = delta as int / n as int;
        proof {
            vstd::arithmetic::div_mod::lemma_fundamental_div_mod(delta as int, n as int);
        }
        if a < n - b {
            res = a + b;
            proof {
                assert(active as int + delta as int == (qa + qd) * n + res) by (nonlinear_arith)
                    requires
                        active as int == n * qa + a,
                        delta as int == n * qd + b,
                        res == a + b,
                ;
                vstd::arithmetic::div_mod::lemma_fundamental_div_mod_converse_mod(
                    active as int + delta as int,
                    n as int,
                    qa + qd,
                    res as int,
                );
            }
        } else {
            res = a - (n - b);
            proof {
                assert(active as int + delta as int == (qa + qd + 1) * n + res) by (nonlinear_arith)
                    requires
                        active as int == n * qa + a,
                        delta as int == n * qd + b,
                        res == a + b - n,
                ;
                vstd::arithmetic::div_mod::lemma_fundamental_div_mod_converse_mod(
                    active as int + delta as int,
                    n as int,
                    qa + qd + 1,
                    res as int,
                );
            }
        }
    } else {
        let nd: u128 = (0 - delta as i128) as u128;
        let b = (nd % n as u128) as usize;
        let ghost qd = nd as int / n as int;
        proof {
            vstd::arithmetic::div_mod::lemma_fundamental_div_mod(nd as int, n as int);
        }
        if b <= a {
            res = a - b;
            proof {
                assert(active as int + delta as int == (qa - qd) * n + res) by (nonlinear_arith)
                    requires
                        active as int == n * qa + a,
                        nd as int == n * qd + b,
                        nd as int == -delta,
                        res == a - b,
                ;
                vstd::arithmetic::div_mod::lemma_fundamental_div_mod_converse_mod(
                    active as int + delta as int,
                    n as int,
                    qa - qd,
                    res as int,
                );
            }
        } else {
            res = n - (b - a);
            proof {
                assert(active as int + delta as int == (qa - qd - 1) * n + res) by (nonlinear_arith)
                    requires
                        active as int == n * qa + a,
                        nd as int == n * qd + b,
                        nd as int == -delta,
                        res == a + n - b,
                ;
                vstd::arithmetic::div_mod::lemma_fundamental_div_mod_converse_mod(
                    active as int + delta as int,
                    n as int,
                    qa - qd - 1,
                    res as int,
                );
            }
        }
    }
    Ok(res)
}

/// A step of the font size.
#[derive(Clone, Copy, Debug, PartialEq, Eq, Structural)]
pub enum FontSizeChange {
    Decrease,
    Increase,
    Reset,
}

pub open spec fn spec_adjusted_font_scale(scale_permille: u32, change: FontSizeChange) -> u32 {
    match change {
        FontSizeChange::Decrease => (scale_permille as int * 9 / 10) as u32,
        FontSizeChange::Increase => {
            let v = scale_permille as int * 11 / 10;
            if v > u32::MAX {
                u32::MAX
            } else {
                v as u32
            }
        },
        FontSizeChange::Reset => 1000,
    }
}

/// The font scale, in thousandths, after a size step: a tenth smaller, a
/// tenth larger (saturating), or back to one.
pub fn adjusted_font_scale(scale_permille: u32, change: FontSizeChange) -> (r: u32)
    ensures
        r == spec_adjusted_font_scale(scale_permille, change),
{
    match change {
        FontSizeChange::Decrease => (scale_permille as u64 * 9 / 10) as u32,
        FontSizeChange::Increase => {
            let v = scale_permille as u64 * 11 / 10;
            if v > u32::MAX as u64 {
                u32::MAX
            } else {
                v as u32
            }
        },
        FontSizeChange::Reset => 1000,
    }
}

/// Whether a change of dpi or font scale requires the fonts to be
/// reloaded (and the terminal's rows and columns to be kept).
pub fn scaling_changed(old_dpi: u32, new_dpi: u32, old_scale_permille: u32, new_scale_permille: u32) -> (r:
    bool)
    ensures
        r == (old_dpi != new_dpi || old_scale_permille != new_scale_permille),
{
    old_dpi != new_dpi || old_scale_permille != new_scale_permille
}

/// Reference dpi at which the dpi scale is one.
pub const BASE_DPI: u32 = 96;

/// The dpi scale, in thousandths of the reference dpi (saturating).
pub fn dpi_scale_for(dpi: u32) -> (r: u32)
    ensures
        r == (if dpi as int * 1000 / BASE_DPI as int > u32::MAX {
            u32::MAX as int
        } else {
            dpi as int * 1000 / BASE_DPI as int
        }),
{
    let v = dpi as u64 * 1000 / BASE_DPI as u64;
    if v > u32::MAX as u64 {
        u32::MAX
    } else {
        v as u32
    }
}

/// The screen line of the terminal's first line: one down when the tab
/// bar takes the top line.
pub fn first_line_offset(show_tab_bar: bool) -> (r: usize)
    ensures
        r == (if show_tab_bar {
            1int
        } else {
            0int
        }),
{
    if show_tab_bar {
        1
    } else {
        0
    }
}

/// The cursor in screen lines: moved down by the tab bar when it is shown.
pub fn screen_cursor(cursor: crate::cursor::CursorPosition, show_tab_bar: bool) -> (r:
    crate::cursor::CursorPosition)
    requires
        cursor.y < i64::MAX,
    ensures
        r.x == cursor.x,
        r.shape == cursor.shape,
        r.y == cursor.y + (if show_tab_bar {
            1int
        } else {
            0int
        }),
{
    crate::cursor::CursorPosition {
        x: cursor.x,
        y: if show_tab_bar {
            cursor.y + 1
        } else {
            cursor.y
        },
        shape: cursor.shape,
    }
}

pub open spec fn spec_digit(d: nat) -> char {
    if d == 0 {
        '0'
    } else if d == 1 {
        '1'
    } else if d == 2 {
        '2'
    } else if d == 3 {
        '3'
    } else if d == 4 {
        '4'
    } else if d == 5 {
        '5'
    } else if d == 6 {
        '6'
    } else if d == 7 {
        '7'
    } else if d == 8 {
        '8'
    } else {
        '9'
    }
}

/// The decimal digits of `n`.
pub open spec fn spec_decimal(n: nat) -> Seq<char>
    decreases n,
{
    if n < 10 {
        seq![spec_digit(n)]
    } else {
        spec_decimal(n / 10).push(spec_digit(n % 10))
    }
}

fn digit(d: u128) -> (r: char)
    requires
        d < 10,
    ensures
        r == spec_digit(d as nat),
{
    if d == 0 {
        '0'
    } else if d == 1 {
        '1'
    } else if d == 2 {
        '2'
    } else if d == 3 {
        '3'
    } else if d == 4 {
        '4'
    } else if d == 5 {
        '5'
    } else if d == 6 {
        '6'
    } else if d == 7 {
        '7'
    } else if d == 8 {
        '8'
    } else {
        '9'
    }
}

fn push_decimal(out: &mut Vec<char>, n: u128)
    ensures
        final(out)@ == old(out)@ + spec_decimal(n as nat),
    decreases n,
{
    if n >= 10 {
        push_decimal(out, n / 10);
    }
    out.push(digit(n % 10));
    proof {
        if n < 10 {
            assert(final(out)@ =~= old(out)@ + spec_decimal(n as nat));
        } else {
            assert(final(out)@ =~= old(out)@ + spec_decimal(n as nat));
        }
    }
}

/// The window title for the active tab's title: the title alone with one
/// tab, prefixed by `[position/count] ` with several, and none without
/// tabs.
pub open spec fn spec_window_title(active_idx: usize, num_tabs: usize, title: Seq<char>) -> Option<
    Seq<char>,
> {
    if num_tabs == 0 {
        None
    } else if num_tabs == 1 {
        Some(title)
    } else {
        Some(
            seq!['['] + spec_decimal((active_idx + 1) as nat) + seq!['/'] + spec_decimal(
                num_tabs as nat,
            ) + seq![']', ' '] + title,
        )
    }
}

/// Composes the window title from the active tab's position and title.
pub fn window_title(active_idx: usize, num_tabs: usize, title: &Vec<char>) -> (r: Option<Vec<char>>)
    ensures
        match r {
            Some(v) => spec_window_title(active_idx, num_tabs, title@) == Some(v@),
            None => spec_window_title(active_idx, num_tabs, title@) is None,
        },
{
    if num_tabs == 0 {
        return None;
    }
    let mut out: Vec<char> = Vec::new();
    if num_tabs > 1 {
        out.push('[');
        push_decimal(&mut out, active_idx as u128 + 1);
        out.push('/');
        push_decimal(&mut out, num_tabs as u128);
        out.push(']');
        out.push(' ');
    }
    let ghost prefix = out@;
    let mut i: usize = 0;
    while i < title.len()
        invariant
            i <= title.len(),
            out@ == prefix + title@.subrange(0, i as int),
        decreases title.len() - i,
    {
        out.push(title[i]);
        i = i + 1;
        proof {
            assert(out@ =~= prefix + title@.subrange(0, i as int));
        }
    }
    proof {
        assert(title@.subrange(0, title@.len() as int) =~= title@);
        if num_tabs > 1 {
            assert(out@ =~= seq!['['] + spec_decimal((active_idx + 1) as nat) + seq!['/']
                + spec_decimal(num_tabs as nat) + seq![']', ' '] + title@);
        } else {
            assert(out@ =~= title@);
        }
    }
    Some(out)
}

} // verus!
