//! The window onto the grid: which rows and columns are shown, given the
//! room on screen, the scroll offset and the selection.
use vstd::prelude::*;

use crate::geometry::{Rect, XY};

verus! {

/// The width of a column that the table has no width for.
pub const DEFAULT_WIDTH: u16 = 12;

/// The least of two numbers.
pub open spec fn least(a: int, b: int) -> int {
    if a <= b {
        a
    } else {
        b
    }
}

/// The rows shown, first and one past the last, of `count` rows in a
/// window `budget` rows high that was scrolled to `offset`.
///
/// Without rows or room nothing is shown. Otherwise the window holds
/// `budget` rows, or those that are left. It starts at `offset`, unless
/// the selected row is outside it: then it moves just far enough to hold
/// that row. A selection beyond the last row counts as the last row.
pub open spec fn row_bounds(count: int, budget: int, offset: int, selected: Option<int>) -> (
    int,
    int,
) {
    let o = least(offset, count);
    if count <= 0 || budget <= 0 {
        (o, o)
    } else {
        let start = match selected {
            None => o,
            Some(s) => {
                let s = least(s, count - 1);
                if s < o {
                    s
                } else if s >= o + budget {
                    s + 1 - budget
                } else {
                    o
                }
            },
        };
        (start, least(start + budget, count))
    }
}

/// The widths of the columns of a table, as mathematics: the widths of the
/// cells, and the spacing that follows each column.
pub struct Columns {
    pub widths: Seq<u16>,
    pub spacing: u16,
}

impl Columns {
    /// The width of the cells of column `col`.
    pub open spec fn cell_width(self, col: int) -> int {
        if 0 <= col < self.widths.len() {
            self.widths[col] as int
        } else {
            DEFAULT_WIDTH as int
        }
    }

    /// The width that column `col` takes on screen, spacing included.
    pub open spec fn col_width(self, col: int) -> int {
        self.cell_width(col) + self.spacing
    }

    /// The width that the columns from `lo` up to, not including, `hi`
    /// take together.
    pub open spec fn span(self, lo: int, hi: int) -> int
        decreases hi - lo,
    {
        if lo >= hi {
            0
        } else {
            self.span(lo, hi - 1) + self.col_width(hi - 1)
        }
    }

    /// Where a window ends that holds the columns up to `end`, `used` wide
    /// together, and takes further columns as long as there is room left
    /// and there are columns left. The last column taken may stick out.
    pub open spec fn fill(self, count: int, budget: int, end: int, used: int) -> int
        decreases count - end,
    {
        if end >= count || used >= budget {
            end
        } else {
            self.fill(count, budget, end + 1, used + self.col_width(end))
        }
    }

    /// Where a window begins that ends with column `last` and holds the
    /// columns from `start` on, `used` wide together, and takes columns to
    /// the left as long as they fit wholly and come no earlier than `from`;
    /// and how wide it is then.
    pub open spec fn fit(self, budget: int, from: int, start: int, used: int) -> (int, int)
        decreases start - from,
    {
        if start <= from || used + self.col_width(start - 1) > budget {
            (start, used)
        } else {
            self.fit(budget, from, start - 1, used + self.col_width(start - 1))
        }
    }

    /// Where a window ends that holds the columns up to `end`, `used` wide
    /// together, and takes further columns, up to `limit`, as long as those
    /// it holds fit wholly.
    pub open spec fn cut(self, budget: int, limit: int, end: int, used: int) -> int
        decreases limit - end,
    {
        if end >= limit || used > budget {
            end
        } else {
            self.cut(budget, limit, end + 1, used + self.col_width(end))
        }
    }

    /// The columns shown, first and one past the last, of `count` columns
    /// in a window `budget` wide that was scrolled to `offset`.
    ///
    /// Without columns or room nothing is shown. Otherwise the window is
    /// first filled from `offset` on. Where the selected column lies before
    /// it, the window begins with that column instead and loses at its end
    /// what no longer fits. Where the selected column is the last one shown,
    /// or lies beyond, the window ends with it, begins where the selected
    /// column fits wholly, and is then filled up again at its end. The last
    /// column shown may stick out of the window. A selection beyond the
    /// last column counts as the last column.
    pub open spec fn bounds(self, count: int, budget: int, offset: int, selected: Option<int>) -> (
        int,
        int,
    ) {
        let o = least(offset, count);
        if count <= 0 || budget <= 0 {
            (o, o)
        } else {
            let end = self.fill(count, budget, o, 0);
            match selected {
                None => (o, end),
                Some(s) => {
                    let s = least(s, count - 1);
                    if s < o {
                        (s, self.cut(budget, end, s + 1, self.col_width(s)))
                    } else if s + 1 >= end {
                        let (start, used) = self.fit(budget, o, s, self.col_width(s));
                        (start, self.fill(count, budget, s + 1, used))
                    } else {
                        (o, end)
                    }
                },
            }
        }
    }
}

/// A table about to be laid out: the rows of cells, the width of each
/// column, and the spacing between columns.
#[derive(Debug, Clone)]
pub struct Table<'a> {
    /// Width constraints for each column
    widths: &'a [u16],
    /// Space between each column
    column_spacing: u16,
    /// Data to display in each row
    rows: &'a Vec<Vec<String>>,
}

impl<'a> Table<'a> {
    /// The number of rows.
    pub closed spec fn row_count(&self) -> int {
        self.rows@.len() as int
    }

    /// The number of columns: the number of cells of the first row.
    pub closed spec fn col_count(&self) -> int {
        if self.rows@.len() == 0 {
            0
        } else {
            self.rows@[0]@.len() as int
        }
    }

    /// The widths of the columns.
    pub closed spec fn columns(&self) -> Columns {
        Columns { widths: self.widths@, spacing: self.column_spacing }
    }

    /// A table of `rows`, one space between columns, that has no widths yet.
    pub fn new(rows: &'a Vec<Vec<String>>) -> (t: Self)
        ensures
            t.row_count() == rows@.len(),
            t.col_count() == (if rows@.len() == 0 {
                0
            } else {
                rows@[0]@.len() as int
            }),
            t.columns() == (Columns { widths: Seq::empty(), spacing: 1 }),
    {
        let none: &[u16] = &[];
        assert(none@ =~= Seq::<u16>::empty());
        Self { widths: none, column_spacing: 1, rows }
    }

    /// The table with `widths` as the widths of its columns, from the left.
    pub fn with_widths(self, widths: &'a [u16]) -> (t: Self)
        ensures
            t.row_count() == self.row_count(),
            t.col_count() == self.col_count(),
            t.columns() == (Columns { widths: widths@, spacing: self.columns().spacing }),
    {
        let mut t = self;
        t.widths = widths;
        t
    }

    /// [start, end) indices of visible rows
    pub fn get_row_bounds(&self, selected: Option<usize>, offset: usize, max_height: u16) -> (r: (
        usize,
        usize,
    ))
        ensures
            (r.0 as int, r.1 as int) == row_bounds(
                self.row_count(),
                max_height as int,
                offset as int,
                match selected {
                    Some(s) => Some(s as int),
                    None => None,
                },
            ),
            r.0 <= r.1 <= self.row_count(),
            r.1 - r.0 <= max_height,
            selected matches Some(s) ==> s < self.row_count() && max_height > 0 ==> r.0 <= s < r.1,
    {
        let count = self.rows.len();
        let o = if offset < count {
            offset
        } else {
            count
        };
        if count == 0 || max_height == 0 {
            return (o, o);
        }
        let budget = max_height as usize;
        let start = match selected {
            None => o,
            Some(s) => {
                let s = if s < count - 1 {
                    s
                } else {
                    count - 1
                };
                if s < o {
                    s
                } else if s - o >= budget {
                    s + 1 - budget
                } else {
                    o
                }
            },
        };
        let end = if count - start <= budget {
            count
        } else {
            start + budget
        };
        (start, end)
    }

    /// The width of the cells of column `col`.
    pub fn cell_width_at(&self, col: usize) -> (w: u16)
        ensures
            w == self.columns().cell_width(col as int),
    {
        if col < self.widths.len() {
            self.widths[col]
        } else {
            DEFAULT_WIDTH
        }
    }

    /// The width that column `col` takes on screen, spacing included.
    pub fn col_width_at(&self, col: usize) -> (w: u32)
        ensures
            w == self.columns().col_width(col as int),
    {
        self.cell_width_at(col) as u32 + self.column_spacing as u32
    }
}

impl<'a> Table<'a> {
    /// Fills the window at its end: see [`Columns::fill`].
    fn fill_from(&self, count: usize, budget: u16, end: usize, used: u32) -> (e: usize)
        ensures
            e == self.columns().fill(count as int, budget as int, end as int, used as int),
    {
        let mut e = end;
        let mut u = used;
        while e < count && u < budget as u32
            invariant
                self.columns().fill(count as int, budget as int, e as int, u as int)
                    == self.columns().fill(count as int, budget as int, end as int, used as int),
            decreases count - e,
        {
            u += self.col_width_at(e);
            e += 1;
        }
        e
    }

    /// Extends the window at its beginning: see [`Columns::fit`].
    fn fit_from(&self, budget: u16, from: usize, start: usize, used: u32) -> (r: (usize, u32))
        requires
            used <= 0x2_0000,
        ensures
            (r.0 as int, r.1 as int) == self.columns().fit(
                budget as int,
                from as int,
                start as int,
                used as int,
            ),
    {
        let mut t = start;
        let mut u = used;
        while t > from && u + self.col_width_at(t - 1) <= budget as u32
            invariant
                u <= 0x2_0000,
                self.columns().fit(budget as int, from as int, t as int, u as int)
                    == self.columns().fit(budget as int, from as int, start as int, used as int),
            decreases t,
        {
            u += self.col_width_at(t - 1);
            t -= 1;
        }
        (t, u)
    }

    /// Cuts the window at its end: see [`Columns::cut`].
    fn cut_from(&self, budget: u16, limit: usize, end: usize, used: u32) -> (e: usize)
        requires
            used <= 0x4_0000,
        ensures
            e == self.columns().cut(budget as int, limit as int, end as int, used as int),
    {
        let mut e = end;
        let mut u = used;
        while e < limit && u <= budget as u32
            invariant
                u <= 0x4_0000,
                self.columns().cut(budget as int, limit as int, e as int, u as int)
                    == self.columns().cut(budget as int, limit as int, end as int, used as int),
            decreases limit - e,
        {
            u += self.col_width_at(e);
            e += 1;
        }
        e
    }

    /// [start, end) indices of visible cols.
    ///
    /// The final column may only be partially visible.
    pub fn get_col_bounds(&self, selected: Option<usize>, offset: usize, max_width: u16) -> (r: (
        usize,
        usize,
    ))
        ensures
            (r.0 as int, r.1 as int) == self.columns().bounds(
                self.col_count(),
                max_width as int,
                offset as int,
                match selected {
                    Some(s) => Some(s as int),
                    None => None,
                },
            ),
            r.0 <= r.1 <= self.col_count(),
            r.0 < r.1 ==> self.columns().span(r.0 as int, r.1 - 1) <= max_width,
            selected matches Some(s) ==> s < self.col_count() && max_width > 0 ==> r.0 <= s < r.1,
    {
        proof {
            self.columns().lemma_bounds_show_selection(
                self.col_count(),
                max_width as int,
                offset as int,
                match selected {
                    Some(s) => Some(s as int),
                    None => None,
                },
            );
        }
        let count = if self.rows.len() == 0 {
            0
        } else {
            self.rows[0].len()
        };
        let o = if offset < count {
            offset
        } else {
            count
        };
        if count == 0 || max_width == 0 {
            return (o, o);
        }
        let end = self.fill_from(count, max_width, o, 0);
        let s = match selected {
            None => {
                return (o, end);
            },
            Some(s) => if s < count - 1 {
                s
            } else {
                count - 1
            },
        };
        if s < o {
            let used = self.col_width_at(s);
            (s, self.cut_from(max_width, end, s + 1, used))
        } else if s + 1 >= end {
            let (start, used) = self.fit_from(max_width, o, s, self.col_width_at(s));
            (start, self.fill_from(count, max_width, s + 1, used))
        } else {
            (o, end)
        }
    }
}

impl Columns {
    /// More columns are no narrower.
    pub proof fn lemma_span_grows(self, lo: int, mid: int, hi: int)
        requires
            lo <= mid <= hi,
        ensures
            self.span(lo, hi) == self.span(lo, mid) + self.span(mid, hi),
            self.span(mid, hi) >= 0,
        decreases hi - mid,
    {
        if mid < hi {
            self.lemma_span_grows(lo, mid, hi - 1);
        }
    }

    /// What [`Columns::fill`] gives: it takes at least one column where
    /// there is room and a column left, never more columns than there are,
    /// and stops as soon as the room is used up, so that the columns
    /// before the last one taken leave room.
    pub proof fn lemma_fill(self, count: int, budget: int, start: int, end: int, used: int)
        requires
            start <= end <= count,
            used == self.span(start, end),
        ensures
            end <= self.fill(count, budget, end, used) <= count,
            end < count && used < budget ==> end < self.fill(count, budget, end, used),
            end < self.fill(count, budget, end, used) ==> self.span(
                start,
                self.fill(count, budget, end, used) - 1,
            ) < budget,
            self.fill(count, budget, end, used) < count ==> self.span(
                start,
                self.fill(count, budget, end, used),
            ) >= budget,
        decreases count - end,
    {
        if !(end >= count || used >= budget) {
            self.lemma_fill(count, budget, start, end + 1, used + self.col_width(end));
        }
    }

    /// What [`Columns::fit`] gives: a beginning between `from` and `start`,
    /// and the width of the window that begins there; the window fits if it
    /// did before, and no further column to the left would fit with it.
    pub proof fn lemma_fit(self, budget: int, from: int, start: int, last: int, used: int)
        requires
            from <= start <= last,
            used == self.span(start, last),
        ensures
            from <= self.fit(budget, from, start, used).0 <= start,
            self.fit(budget, from, start, used).1 == self.span(
                self.fit(budget, from, start, used).0,
                last,
            ),
            self.fit(budget, from, start, used).0 < start ==> self.fit(budget, from, start, used).1
                <= budget,
            self.fit(budget, from, start, used).0 > from ==> self.span(
                self.fit(budget, from, start, used).0 - 1,
                last,
            ) > budget,
        decreases start - from,
    {
        if start > from {
            self.lemma_span_grows(start - 1, start, last);
            assert(self.span(start - 1, start) == self.col_width(start - 1)) by {
                assert(self.span(start - 1, start - 1) == 0);
            }
            if used + self.col_width(start - 1) <= budget {
                self.lemma_fit(budget, from, start - 1, last, used + self.col_width(start - 1));
            }
        }
    }

    /// What [`Columns::cut`] gives: an end between `end` and `limit`, such
    /// that the columns before the last one shown fit, if they did before.
    pub proof fn lemma_cut(self, budget: int, limit: int, start: int, end: int, used: int)
        requires
            start < end <= limit,
            used == self.span(start, end),
            self.span(start, end - 1) <= budget,
        ensures
            end <= self.cut(budget, limit, end, used) <= limit,
            self.span(start, self.cut(budget, limit, end, used) - 1) <= budget,
            self.cut(budget, limit, end, used) < limit ==> self.span(
                start,
                self.cut(budget, limit, end, used),
            ) > budget,
        decreases limit - end,
    {
        if !(end >= limit || used > budget) {
            self.lemma_cut(budget, limit, start, end + 1, used + self.col_width(end));
        }
    }

    /// The columns shown lie within the table, and all of them but the last
    /// fit into the window together. Where a column of the table is
    /// selected and there is room at all, the selected column is shown.
    pub proof fn lemma_bounds_show_selection(
        self,
        count: int,
        budget: int,
        offset: int,
        selected: Option<int>,
    )
        requires
            0 <= count,
            0 <= offset,
            selected matches Some(s) ==> 0 <= s,
        ensures
            ({
                let (start, end) = self.bounds(count, budget, offset, selected);
                &&& 0 <= start <= end <= count
                &&& start < end ==> self.span(start, end - 1) <= budget
                &&& (selected matches Some(s) ==> s < count && budget > 0 ==> start <= s < end)
            }),
    {
        let o = least(offset, count);
        if count > 0 && budget > 0 {
            let end = self.fill(count, budget, o, 0);
            self.lemma_fill(count, budget, o, o, 0);
            match selected {
                None => {},
                Some(s0) => {
                    let s = least(s0, count - 1);
                    if s < o {
                        self.lemma_span_grows(s, s, s + 1);
                        self.lemma_cut(budget, end, s, s + 1, self.col_width(s));
                    } else if s + 1 >= end {
                        self.lemma_span_grows(s, s, s + 1);
                        self.lemma_fit(budget, o, s, s + 1, self.col_width(s));
                        let (start, used) = self.fit(budget, o, s, self.col_width(s));
                        self.lemma_fill(count, budget, start, s + 1, used);
                        self.lemma_span_grows(start, s, s + 1);
                    } else {
                    }
                },
            }
        }
    }
}

impl Columns {
    /// A window that was fitted at its beginning stays as it is when it is
    /// fitted again from where it begins.
    pub proof fn lemma_fit_again(self, budget: int, from: int, start: int, used: int)
        requires
            from <= start,
        ensures
            self.fit(budget, self.fit(budget, from, start, used).0, start, used) == self.fit(
                budget,
                from,
                start,
                used,
            ),
        decreases start - from,
    {
        if !(start <= from || used + self.col_width(start - 1) > budget) {
            let next = used + self.col_width(start - 1);
            self.lemma_fit_again(budget, from, start - 1, next);
            self.lemma_fit(budget, from, start - 1, start - 1, 0);
            self.lemma_fit_range(budget, from, start - 1, next);
        }
    }

    /// A window that is fitted begins between `from` and `start`.
    proof fn lemma_fit_range(self, budget: int, from: int, start: int, used: int)
        requires
            from <= start,
        ensures
            from <= self.fit(budget, from, start, used).0 <= start,
        decreases start - from,
    {
        if !(start <= from || used + self.col_width(start - 1) > budget) {
            self.lemma_fit_range(budget, from, start - 1, used + self.col_width(start - 1));
        }
    }

    /// The view settles: laid out again from where the window began, the
    /// window begins at the same column.
    pub proof fn lemma_bounds_settle(
        self,
        count: int,
        budget: int,
        offset: int,
        selected: Option<int>,
    )
        requires
            0 <= count,
            0 <= offset,
            selected matches Some(s) ==> 0 <= s,
        ensures
            self.bounds(count, budget, self.bounds(count, budget, offset, selected).0, selected).0
                == self.bounds(count, budget, offset, selected).0,
    {
        let o = least(offset, count);
        if count > 0 && budget > 0 {
            if let Some(s0) = selected {
                let s = least(s0, count - 1);
                let end = self.fill(count, budget, o, 0);
                if s >= o && s + 1 >= end {
                    self.lemma_fit_range(budget, o, s, self.col_width(s));
                    self.lemma_fit_again(budget, o, s, self.col_width(s));
                }
            }
        }
    }
}

/// The view settles: laid out again from where the window began, the same
/// rows are shown.
pub proof fn lemma_row_bounds_settle(count: int, budget: int, offset: int, selected: Option<int>)
    requires
        0 <= count,
        0 <= offset,
        selected matches Some(s) ==> 0 <= s,
    ensures
        row_bounds(count, budget, row_bounds(count, budget, offset, selected).0, selected)
            == row_bounds(count, budget, offset, selected),
{
}

/// The rows shown lie within the table and are no more than the window is
/// high. Where a row of the table is selected and there is room at all,
/// the selected row is shown.
pub proof fn lemma_row_bounds_show_selection(
    count: int,
    budget: int,
    offset: int,
    selected: Option<int>,
)
    requires
        0 <= count,
        0 <= offset,
        selected matches Some(s) ==> 0 <= s,
    ensures
        ({
            let (start, end) = row_bounds(count, budget, offset, selected);
            &&& 0 <= start <= end <= count
            &&& budget >= 0 ==> end - start <= budget
            &&& (selected matches Some(s) ==> s < count && budget > 0 ==> start <= s < end)
        }),
{
}

/// What the table view keeps between two layouts: how far it is scrolled,
/// what is selected, and where the selected cell was laid out last.
#[derive(Debug, Clone)]
pub struct TableState {
    offset: XY<usize>,
    selected: Option<XY<usize>>,
    selected_area: Option<Rect>,
    /// Stored for movements based on screen size
    visible: XY<usize>,
}

impl Default for TableState {
    /// The state of a view that is not scrolled and has no selection.
    fn default() -> (s: TableState)
        ensures
            s.scroll() == (XY::<usize> { x: 0, y: 0 }),
            s.selected() is None,
            s.selected_area() is None,
            s.visible_cells() == (XY::<usize> { x: 0, y: 0 }),
    {
        TableState {
            offset: XY { x: 0, y: 0 },
            selected: None,
            selected_area: None,
            visible: XY { x: 0, y: 0 },
        }
    }
}

impl TableState {
    pub closed spec fn spec_selected(&self) -> Option<XY<usize>> {
        self.selected
    }

    pub closed spec fn spec_scroll(&self) -> XY<usize> {
        self.offset
    }

    pub closed spec fn spec_selected_area(&self) -> Option<Rect> {
        self.selected_area
    }

    pub closed spec fn spec_visible_cells(&self) -> XY<usize> {
        self.visible
    }

    /// The selected cell, if any.
    #[verifier::when_used_as_spec(spec_selected)]
    pub fn selected(&self) -> (s: Option<XY<usize>>)
        ensures
            s == self.selected(),
    {
        self.selected
    }

    /// Selects the cell at `index`, or nothing. Without a selection the
    /// view scrolls back to the first cell.
    pub fn select(&mut self, index: Option<XY<usize>>)
        ensures
            final(self).selected() == index,
            final(self).scroll() == (if index is None {
                XY::<usize> { x: 0, y: 0 }
            } else {
                old(self).scroll()
            }),
            final(self).selected_area() == old(self).selected_area(),
            final(self).visible_cells() == old(self).visible_cells(),
    {
        self.selected = index;
        if index.is_none() {
            self.offset = XY { x: 0, y: 0 };
        }
    }

    /// The first column and the first row shown.
    #[verifier::when_used_as_spec(spec_scroll)]
    pub fn scroll(&self) -> (o: XY<usize>)
        ensures
            o == self.scroll(),
    {
        self.offset
    }

    /// Scrolls the view so that `offset` names the first column and row
    /// shown, as far as the next layout allows.
    pub fn set_scroll(&mut self, offset: XY<usize>)
        ensures
            final(self).scroll() == offset,
            final(self).selected() == old(self).selected(),
            final(self).selected_area() == old(self).selected_area(),
            final(self).visible_cells() == old(self).visible_cells(),
    {
        self.offset = offset;
    }

    /// Retrieve the location and area of the selected cell in the last layout
    #[verifier::when_used_as_spec(spec_selected_area)]
    pub fn selected_area(&self) -> (a: Option<Rect>)
        ensures
            a == self.selected_area(),
    {
        self.selected_area
    }

    /// How many columns and rows the last layout showed.
    #[verifier::when_used_as_spec(spec_visible_cells)]
    pub fn visible_cells(&self) -> (v: XY<usize>)
        ensures
            v == self.visible_cells(),
    {
        self.visible
    }
}

/// The part of a table that a layout shows: rows and columns, each from
/// `.0` up to, not including, `.1`.
#[derive(Debug, Clone, Copy, PartialEq, Eq)]
pub struct TableLayout {
    pub rows: (usize, usize),
    pub cols: (usize, usize),
}

/// The index of a selection along one axis.
pub open spec fn along(selected: Option<XY<usize>>, x_axis: bool) -> Option<int> {
    match selected {
        Some(s) => Some(
            if x_axis {
                s.x as int
            } else {
                s.y as int
            },
        ),
        None => None,
    }
}

impl Columns {
    /// Where the cell at column `x` of row `y` lies on screen, when the
    /// table is laid out in `area` and shows the columns from `first.x` and
    /// the rows from `first.y` on: one row high, as wide as its column, cut
    /// at the right edge of `area`.
    pub open spec fn cell_area(self, area: Rect, first: XY<usize>, x: int, y: int) -> Rect {
        let dx = self.span(first.x as int, x);
        Rect {
            x: (area.x + dx) as u16,
            y: (area.y + (y - first.y)) as u16,
            width: least(self.cell_width(x), area.width - dx) as u16,
            height: 1,
        }
    }
}

impl Columns {
    /// What a layout of `rows` rows and `cols` columns in `area` shows,
    /// given how the view was scrolled and what was selected. Nothing,
    /// where the area or the table is empty.
    pub open spec fn layout(
        self,
        rows: int,
        cols: int,
        area: Rect,
        scroll: XY<usize>,
        selected: Option<XY<usize>>,
    ) -> Option<TableLayout> {
        if area.width == 0 || area.height == 0 || rows == 0 {
            None
        } else {
            let r = row_bounds(rows, area.height as int, scroll.y as int, along(selected, false));
            let c = self.bounds(cols, area.width as int, scroll.x as int, along(selected, true));
            Some(TableLayout { rows: (r.0 as usize, r.1 as usize), cols: (c.0 as usize, c.1 as usize) })
        }
    }

    /// Where the selected cell lies after a layout that shows `shown`:
    /// where it is laid out, if it is among the cells shown, and else
    /// where it was noted to lie before.
    pub open spec fn placed(
        self,
        area: Rect,
        shown: TableLayout,
        selected: Option<XY<usize>>,
        before: Option<Rect>,
    ) -> Option<Rect> {
        match selected {
            Some(s) if shown.cols.0 <= s.x < shown.cols.1 && shown.rows.0 <= s.y < shown.rows.1 => Some(
                self.cell_area(
                    area,
                    XY::<usize> { x: shown.cols.0, y: shown.rows.0 },
                    s.x as int,
                    s.y as int,
                ),
            ),
            _ => before,
        }
    }
}

impl<'a> Table<'a> {
    /// The width that the columns from `lo` up to, not including, `hi` take
    /// together, where that is no more than `limit`.
    fn span_between(&self, lo: usize, hi: usize, limit: u16) -> (w: u32)
        requires
            lo <= hi,
            self.columns().span(lo as int, hi as int) <= limit,
        ensures
            w == self.columns().span(lo as int, hi as int),
    {
        let mut w: u32 = 0;
        let mut c = lo;
        while c < hi
            invariant
                lo <= c <= hi,
                w == self.columns().span(lo as int, c as int),
                self.columns().span(lo as int, hi as int) <= limit,
            decreases hi - c,
        {
            proof {
                self.columns().lemma_span_grows(lo as int, c + 1, hi as int);
            }
            w += self.col_width_at(c);
            c += 1;
        }
        w
    }

    /// What a layout in `area` shows, given how the view was scrolled and
    /// what was selected: see [`Columns::layout`].
    pub open spec fn spec_layout(&self, area: Rect, before: &TableState) -> Option<TableLayout> {
        self.columns().layout(
            self.row_count(),
            self.col_count(),
            area,
            before.scroll(),
            before.selected(),
        )
    }

    /// Lays the table out in `area`: decides which rows and columns are
    /// shown, scrolls the view there, and notes where the selected cell
    /// lies, if it is shown.
    ///
    /// Where the area or the table is empty there is nothing to lay out,
    /// and the state stays as it was.
    pub fn layout(&self, area: Rect, state: &mut TableState) -> (shown: Option<TableLayout>)
        requires
            area.x + area.width <= u16::MAX,
            area.y + area.height <= u16::MAX,
        ensures
            shown == self.spec_layout(area, old(state)),
            shown is None ==> *final(state) == *old(state),
            final(state).selected() == old(state).selected(),
            shown matches Some(l) ==> {
                &&& l.rows.0 <= l.rows.1 <= self.row_count()
                &&& l.cols.0 <= l.cols.1 <= self.col_count()
                &&& final(state).scroll() == (XY::<usize> { x: l.cols.0, y: l.rows.0 })
                &&& final(state).visible_cells() == (XY::<usize> {
                    x: (l.cols.1 - l.cols.0) as usize,
                    y: (l.rows.1 - l.rows.0) as usize,
                })
                &&& final(state).selected_area() == self.columns().placed(
                    area,
                    l,
                    old(state).selected(),
                    old(state).selected_area(),
                )
            },
    {
        if area.width == 0 || area.height == 0 || self.rows.len() == 0 {
            return None;
        }
        let sel_y = match state.selected {
            Some(s) => Some(s.y),
            None => None,
        };
        let sel_x = match state.selected {
            Some(s) => Some(s.x),
            None => None,
        };
        let rows = self.get_row_bounds(sel_y, state.offset.y, area.height);
        let cols = self.get_col_bounds(sel_x, state.offset.x, area.width);
        proof {
            lemma_row_bounds_show_selection(
                self.row_count(),
                area.height as int,
                old(state).offset.y as int,
                along(old(state).selected, false),
            );
            self.columns().lemma_bounds_show_selection(
                self.col_count(),
                area.width as int,
                old(state).offset.x as int,
                along(old(state).selected, true),
            );
        }
        state.offset = XY { x: cols.0, y: rows.0 };
        state.visible = XY { x: cols.1 - cols.0, y: rows.1 - rows.0 };
        let selected = state.selected;
        if let Some(s) = selected {
            if cols.0 <= s.x && s.x < cols.1 && rows.0 <= s.y && s.y < rows.1 {
                proof {
                    self.columns().lemma_span_grows(cols.0 as int, s.x as int, cols.1 - 1);
                }
                let dx = self.span_between(cols.0, s.x, area.width);
                let room = area.width as u32 - dx;
                let cell = self.cell_width_at(s.x);
                let width = if (cell as u32) < room {
                    cell
                } else {
                    room as u16
                };
                state.selected_area = Some(
                    Rect {
                        x: (area.x as u32 + dx) as u16,
                        y: (area.y as usize + (s.y - rows.0)) as u16,
                        width,
                        height: 1,
                    },
                );
            }
        }
        Some(TableLayout { rows, cols })
    }
}

} // verus!
