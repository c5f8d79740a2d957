//! The configuration snapshot that rendering consults.
use vstd::prelude::*;

use crate::cursor::DefaultCursorStyle;
use crate::style::{FontRule, TextStyle};

verus! {

/// Padding between the window edge and the cell grid, in pixels.
#[derive(Clone, Copy, Debug, PartialEq, Eq, Structural)]
pub struct WindowPadding {
    pub left: u16,
    pub top: u16,
    pub right: u16,
    pub bottom: u16,
}

/// One immutable configuration value.  `generation` changes whenever the
/// configuration is reloaded, and caches compare it to what they last saw.
#[derive(Clone, Debug)]
pub struct Config {
    pub generation: u64,
    /// The default style.
    pub font: TextStyle,
    /// Rules that override the default style, tried in order.
    pub font_rules: Vec<FontRule>,
    /// Font size in hundredths of a point.
    pub font_size_centipoints: u32,
    pub dpi: u32,
    /// Blink period of the cursor in milliseconds; 0 turns blinking off.
    pub cursor_blink_rate: u64,
    pub default_cursor_style: DefaultCursorStyle,
    pub window_padding: WindowPadding,
    pub enable_tab_bar: bool,
}

} // verus!
