//! The view of the grid: how wide each column has to be.
use vstd::prelude::*;
use vstd::string::StringSliceAdditionalSpecFns;

use crate::grid::{Grid, GridModel, Text};

verus! {

/// The width that a text takes: the length of its UTF-8 form.
pub open spec fn text_width(t: Text) -> nat {
    vstd::utf8::encode_utf8(t).len()
}

/// The width of the widest of the first `rows` cells of column `col`.
pub open spec fn widest(g: GridModel, col: int, rows: int) -> nat
    decreases rows,
{
    if rows <= 0 {
        0
    } else {
        let above = widest(g, col, rows - 1);
        let this = text_width(g.rows[rows - 1][col]);
        if this > above {
            this
        } else {
            above
        }
    }
}

/// The width that column `col` of the grid is given: that of its widest
/// cell, as far as sixteen bits hold it.
pub open spec fn column_width(g: GridModel, col: int) -> int {
    let w = widest(g, col, g.height() as int);
    if w <= u16::MAX {
        w as int
    } else {
        u16::MAX as int
    }
}

/// A grid about to be shown.
pub struct GridView<'g> {
    grid: &'g Grid,
}

impl<'g> GridView<'g> {
    /// The grid to be shown.
    pub closed spec fn grid(&self) -> &'g Grid {
        self.grid
    }

    /// The view of `grid`.
    pub fn new(grid: &'g Grid) -> (v: Self)
        ensures
            v.grid() == grid,
    {
        Self { grid }
    }

    /// The width of each column: see [`column_width`]. A grid without rows
    /// has no column to show.
    pub fn widths(&self) -> (widths: Vec<u16>)
        requires
            self.grid().wf(),
        ensures
            widths@.len() == (if self.grid()@.height() == 0 {
                0
            } else {
                self.grid()@.width
            }),
            forall|c: int|
                0 <= c < widths@.len() ==> (#[trigger] widths@[c]) as int == column_width(
                    self.grid()@,
                    c,
                ),
    {
        let cells = self.grid.cells();
        let size = self.grid.size();
        let mut widths: Vec<u16> = Vec::new();
        if size.y == 0 {
            return widths;
        }
        let mut c: usize = 0;
        while c < size.x
            invariant
                self.grid().wf(),
                size.x == self.grid()@.width,
                size.y == self.grid()@.height(),
                cells@.len() == size.y,
                forall|r: int|
                    0 <= r < cells@.len() ==> crate::grid::texts((#[trigger] cells@[r])@)
                        == self.grid()@.rows[r],
                c <= size.x,
                widths@.len() == c,
                forall|k: int|
                    0 <= k < c ==> (#[trigger] widths@[k]) as int == column_width(self.grid()@, k),
            decreases size.x - c,
        {
            let mut longest: usize = 0;
            let mut r: usize = 0;
            while r < size.y
                invariant
                    self.grid().wf(),
                    size.x == self.grid()@.width,
                    size.y == self.grid()@.height(),
                    cells@.len() == size.y,
                    forall|r: int|
                        0 <= r < cells@.len() ==> crate::grid::texts((#[trigger] cells@[r])@)
                            == self.grid()@.rows[r],
                    c < size.x,
                    r <= size.y,
                    longest == widest(self.grid()@, c as int, r as int),
                decreases size.y - r,
            {
                assert(crate::grid::texts(cells@[r as int]@) == self.grid()@.rows[r as int]);
                assert(self.grid()@.rows[r as int].len() == size.x);
                assert(crate::grid::texts(cells@[r as int]@)[c as int] == cells@[r as int]@[c as int]@);
                let len = cells[r][c].as_str().as_bytes().len();
                if len > longest {
                    longest = len;
                }
                r += 1;
            }
            let width: u16 = if longest <= u16::MAX as usize {
                longest as u16
            } else {
                u16::MAX
            };
            widths.push(width);
            c += 1;
        }
        widths
    }
}

} // verus!
