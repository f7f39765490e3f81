//! Positions in the grid and the decorated cells found there.

use vstd::prelude::*;
use crate::color::Rgb;
use crate::flags::Flags;

verus! {

/// A position in the grid: rows count from the top, columns from the left.
#[derive(Clone, Copy, Debug, PartialEq, Eq, Structural)]
pub struct Point {
    pub row: u16,
    pub column: u16,
}

impl Point {
    /// The position in row `row` and column `column`.
    pub fn new(row: u16, column: u16) -> (point: Point)
        ensures
            point == (Point { row, column }),
    {
        Point { row, column }
    }
}

/// A cell of the grid that carries at least one decoration.
#[derive(Clone, Copy, Debug, PartialEq, Eq, Structural)]
pub struct DecoratedCell {
    /// Where the cell lies.
    pub point: Point,
    /// The foreground color, in which the decorations are drawn.
    pub fg: Rgb,
    /// The decorations, and whether the glyph is of double width.
    pub flags: Flags,
}

impl DecoratedCell {
    /// The last column that the cell's glyph covers: its own, or the next
    /// one for a glyph of double width.
    pub open spec fn end_column(self) -> int {
        if self.flags.wide() {
            self.point.column + 1
        } else {
            self.point.column as int
        }
    }

    /// A glyph of double width has a column to its right.
    pub open spec fn wf(self) -> bool {
        self.end_column() <= u16::MAX
    }

    /// The last position that the cell's glyph covers.
    pub open spec fn end(self) -> Point {
        Point { row: self.point.row, column: self.end_column() as u16 }
    }

    /// The cell at `point` with foreground `fg` and the given flags.
    pub fn new(point: Point, fg: Rgb, flags: Flags) -> (cell: DecoratedCell)
        ensures
            cell == (DecoratedCell { point, fg, flags }),
    {
        DecoratedCell { point, fg, flags }
    }

    /// Whether the cell is well formed.
    pub fn is_well_formed(&self) -> (ok: bool)
        ensures
            ok == self.wf(),
    {
        !self.flags.is_wide() || self.point.column < u16::MAX
    }

    /// The last position that the cell's glyph covers.
    pub fn end_point(&self) -> (end: Point)
        requires
            self.wf(),
        ensures
            end == self.end(),
    {
        if self.flags.is_wide() {
            Point { row: self.point.row, column: self.point.column + 1 }
        } else {
            self.point
        }
    }
}

} // verus!
