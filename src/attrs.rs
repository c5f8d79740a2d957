//! Attributes that the terminal model attaches to each cell.
use vstd::prelude::*;

use crate::color::ColorAttribute;

verus! {

/// Text intensity of a cell.
#[derive(Clone, Copy, Debug, PartialEq, Eq, Structural)]
pub enum Intensity {
    Normal,
    Bold,
    Half,
}

/// Underline style of a cell.
#[derive(Clone, Copy, Debug, PartialEq, Eq, Structural)]
pub enum Underline {
    Off,
    Single,
    Double,
}

/// Blink style of a cell.
#[derive(Clone, Copy, Debug, PartialEq, Eq, Structural)]
pub enum Blink {
    Off,
    Slow,
    Rapid,
}

/// Denominator of the fixed-point fractions that place an image slice.
pub const IMAGE_FRACTION_ONE: u32 = 65536;

/// A cell that shows a slice of an image.  The slice is given by its
/// top-left and bottom-right corners as fractions of the image size,
/// in units of `1 / IMAGE_FRACTION_ONE`.
#[derive(Clone, Copy, Debug, PartialEq, Eq, Structural)]
pub struct ImageCell {
    pub image_id: u64,
    pub left: u32,
    pub top: u32,
    pub right: u32,
    pub bottom: u32,
}

impl ImageCell {
    /// The corners are ordered and lie within the image.
    pub open spec fn wf(&self) -> bool {
        &&& self.left <= self.right <= IMAGE_FRACTION_ONE
        &&& self.top <= self.bottom <= IMAGE_FRACTION_ONE
    }
}

/// Everything that decides how a cell is drawn, apart from its text.
#[derive(Clone, Copy, Debug, PartialEq, Eq, Structural)]
pub struct CellAttributes {
    pub intensity: Intensity,
    pub underline: Underline,
    pub italic: bool,
    pub blink: Blink,
    pub reverse: bool,
    pub strikethrough: bool,
    pub invisible: bool,
    pub foreground: ColorAttribute,
    pub background: ColorAttribute,
    /// Identity of the hyperlink that the cell belongs to.
    pub hyperlink: Option<u64>,
    pub image: Option<ImageCell>,
}

impl CellAttributes {
    /// Plain attributes: default colors, no styling.
    pub fn blank() -> (r: CellAttributes)
        ensures
            r.intensity == Intensity::Normal,
            r.underline == Underline::Off,
            !r.italic && !r.reverse && !r.strikethrough && !r.invisible,
            r.blink == Blink::Off,
            r.foreground == ColorAttribute::Default,
            r.background == ColorAttribute::Default,
            r.hyperlink is None,
            r.image is None,
    {
        CellAttributes {
            intensity: Intensity::Normal,
            underline: Underline::Off,
            italic: false,
            blink: Blink::Off,
            reverse: false,
            strikethrough: false,
            invisible: false,
            foreground: ColorAttribute::Default,
            background: ColorAttribute::Default,
            hyperlink: None,
            image: None,
        }
    }
}

} // verus!
