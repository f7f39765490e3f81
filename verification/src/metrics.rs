//! Font metrics and the layout of the window.

use vstd::prelude::*;

verus! {

/// Metrics of the font, in subpixels. Positions are heights above the
/// baseline, so a line below the baseline has a negative position.
#[derive(Clone, Copy, Debug, PartialEq, Eq, Structural)]
pub struct Metrics {
    /// Position of the lowest point of the glyphs.
    pub descent: i32,
    /// Position of the middle of the underline.
    pub underline_position: i32,
    /// Thickness of the underline.
    pub underline_thickness: i32,
    /// Position of the middle of the strikeout line.
    pub strikeout_position: i32,
    /// Thickness of the strikeout line.
    pub strikeout_thickness: i32,
}

/// Size of the window and of its cells, in subpixels.
#[derive(Clone, Copy, Debug, PartialEq, Eq, Structural)]
pub struct SizeInfo {
    /// Width of the viewport.
    pub width: i32,
    /// Height of the viewport.
    pub height: i32,
    /// Width of one cell.
    pub cell_width: i32,
    /// Height of one cell.
    pub cell_height: i32,
    /// Margin to the left of the grid.
    pub padding_x: i32,
    /// Margin above the grid.
    pub padding_y: i32,
}

} // verus!
