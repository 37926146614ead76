//! The cell store: a rectangular grid of text cells and the edits that
//! change it. Every edit hands back a [`Change`] that undoes it exactly.
use vstd::prelude::*;

use crate::geometry::XY;

verus! {

/// The text of one cell.
pub type Text = Seq<char>;

/// What a grid holds, as mathematics: a width and the rows of cell texts.
///
/// The width is kept beside the rows because a grid without rows still has
/// a width: it decides how long a row inserted next will be.
pub struct GridModel {
    pub width: nat,
    pub rows: Seq<Seq<Text>>,
}

/// `contents`, cut or filled up with empty texts to exactly `len` entries.
pub open spec fn padded(contents: Seq<Text>, len: nat) -> Seq<Text> {
    Seq::new(
        len,
        |i: int|
            if i < contents.len() {
                contents[i]
            } else {
                Seq::<char>::empty()
            },
    )
}

impl GridModel {
    /// The number of rows.
    pub open spec fn height(self) -> nat {
        self.rows.len()
    }

    /// Every row has exactly `width` cells, and a machine word holds the
    /// width.
    pub open spec fn wf(self) -> bool {
        &&& self.width <= usize::MAX
        &&& forall|r: int|
            0 <= r < self.rows.len() ==> (#[trigger] self.rows[r]).len() == self.width
    }

    /// Whether column `x` of row `y` is a cell of the grid.
    pub open spec fn has_cell(self, x: int, y: int) -> bool {
        0 <= x < self.width && 0 <= y < self.height()
    }

    /// The text at column `x` of row `y`.
    pub open spec fn cell(self, x: int, y: int) -> Text {
        self.rows[y][x]
    }

    /// Column `x`, top to bottom.
    pub open spec fn column(self, x: int) -> Seq<Text> {
        Seq::new(self.height(), |r: int| self.rows[r][x])
    }

    /// The grid with the text at column `x` of row `y` replaced.
    pub open spec fn with_cell(self, x: int, y: int, text: Text) -> GridModel {
        GridModel { width: self.width, rows: self.rows.update(y, self.rows[y].update(x, text)) }
    }

    /// The grid with a new row before row `y`, holding `contents` filled up
    /// with empty cells.
    pub open spec fn with_row_inserted(self, y: int, contents: Seq<Text>) -> GridModel {
        GridModel { width: self.width, rows: self.rows.insert(y, padded(contents, self.width)) }
    }

    /// The grid without row `y`.
    pub open spec fn with_row_deleted(self, y: int) -> GridModel {
        GridModel { width: self.width, rows: self.rows.remove(y) }
    }

    /// The grid with a new column before column `x`, holding `contents`
    /// filled up with empty cells.
    pub open spec fn with_col_inserted(self, x: int, contents: Seq<Text>) -> GridModel {
        GridModel {
            width: self.width + 1,
            rows: Seq::new(
                self.height(),
                |r: int| self.rows[r].insert(x, padded(contents, self.height())[r]),
            ),
        }
    }

    /// The grid without column `x`.
    pub open spec fn with_col_deleted(self, x: int) -> GridModel {
        GridModel {
            width: (self.width - 1) as nat,
            rows: Seq::new(self.height(), |r: int| self.rows[r].remove(x)),
        }
    }
}

/// The texts of a row of cells.
pub open spec fn texts(cells: Seq<String>) -> Seq<Text> {
    Seq::new(cells.len(), |i: int| cells[i]@)
}

/// What a [`Change`] records, as mathematics.
#[allow(inconsistent_fields)]
pub enum ChangeModel {
    /// A cell was overwritten; `old` is the text it had.
    Replace { x: nat, y: nat, old: Text },
    /// The whole grid was exchanged; `old` is the grid it was.
    ReplaceGrid { old: GridModel },
    /// A column was deleted; `old` are its cells.
    DeleteCol { col: nat, old: Seq<Text> },
    /// A column was inserted before `col`.
    InsertCol { col: nat },
    /// A row was deleted; `old` are its cells.
    DeleteRow { row: nat, old: Seq<Text> },
    /// A row was inserted before `row`.
    InsertRow { row: nat },
}

impl ChangeModel {
    /// Whether the change can be undone on `g`: the cell, row or column it
    /// names is there, or there is room for what it puts back.
    pub open spec fn fits(self, g: GridModel) -> bool {
        match self {
            ChangeModel::Replace { x, y, old } => g.has_cell(x as int, y as int),
            ChangeModel::ReplaceGrid { old } => old.wf(),
            ChangeModel::DeleteCol { col, old } => col <= g.width && old.len() <= g.height()
                && g.width < usize::MAX,
            ChangeModel::InsertCol { col } => col < g.width,
            ChangeModel::DeleteRow { row, old } => row <= g.height() && old.len() <= g.width,
            ChangeModel::InsertRow { row } => row < g.height(),
        }
    }

    /// The grid that undoing the change on `g` gives.
    pub open spec fn undone(self, g: GridModel) -> GridModel {
        match self {
            ChangeModel::Replace { x, y, old } => g.with_cell(x as int, y as int, old),
            ChangeModel::ReplaceGrid { old } => old,
            ChangeModel::DeleteCol { col, old } => g.with_col_inserted(col as int, old),
            ChangeModel::InsertCol { col } => g.with_col_deleted(col as int),
            ChangeModel::DeleteRow { row, old } => g.with_row_inserted(row as int, old),
            ChangeModel::InsertRow { row } => g.with_row_deleted(row as int),
        }
    }

    /// The change that undoing this one on `g` hands back: the one that
    /// brings `g` back.
    pub open spec fn reversed(self, g: GridModel) -> ChangeModel {
        match self {
            ChangeModel::Replace { x, y, old } => ChangeModel::Replace {
                x,
                y,
                old: g.cell(x as int, y as int),
            },
            ChangeModel::ReplaceGrid { old } => ChangeModel::ReplaceGrid { old: g },
            ChangeModel::DeleteCol { col, old } => ChangeModel::InsertCol { col },
            ChangeModel::InsertCol { col } => ChangeModel::DeleteCol {
                col,
                old: g.column(col as int),
            },
            ChangeModel::DeleteRow { row, old } => ChangeModel::InsertRow { row },
            ChangeModel::InsertRow { row } => ChangeModel::DeleteRow {
                row,
                old: g.rows[row as int],
            },
        }
    }
}

/// One edit of a grid, as mathematics.
pub enum EditModel {
    /// Put `text` into the cell at column `x` of row `y`.
    SetCell { x: nat, y: nat, text: Text },
    /// Exchange the whole grid for `new`.
    ReplaceGrid { new: GridModel },
    /// Insert a row before `row`.
    InsertRow { row: nat, contents: Seq<Text> },
    /// Delete row `row`.
    DeleteRow { row: nat },
    /// Insert a column before `col`.
    InsertCol { col: nat, contents: Seq<Text> },
    /// Delete column `col`.
    DeleteCol { col: nat },
}

impl EditModel {
    /// Whether the edit is valid on `g`: what the grid's operation of the
    /// same name asks of its arguments.
    pub open spec fn fits(self, g: GridModel) -> bool {
        match self {
            EditModel::SetCell { x, y, text } => g.has_cell(x as int, y as int),
            EditModel::ReplaceGrid { new } => new.wf(),
            EditModel::InsertRow { row, contents } => row <= g.height() && contents.len()
                <= g.width,
            EditModel::DeleteRow { row } => row < g.height(),
            EditModel::InsertCol { col, contents } => col <= g.width && contents.len()
                <= g.height() && g.width < usize::MAX,
            EditModel::DeleteCol { col } => col < g.width,
        }
    }

    /// The grid after the edit.
    pub open spec fn applied(self, g: GridModel) -> GridModel {
        match self {
            EditModel::SetCell { x, y, text } => g.with_cell(x as int, y as int, text),
            EditModel::ReplaceGrid { new } => new,
            EditModel::InsertRow { row, contents } => g.with_row_inserted(row as int, contents),
            EditModel::DeleteRow { row } => g.with_row_deleted(row as int),
            EditModel::InsertCol { col, contents } => g.with_col_inserted(col as int, contents),
            EditModel::DeleteCol { col } => g.with_col_deleted(col as int),
        }
    }

    /// The change that the edit hands back.
    pub open spec fn change(self, g: GridModel) -> ChangeModel {
        match self {
            EditModel::SetCell { x, y, text } => ChangeModel::Replace {
                x,
                y,
                old: g.cell(x as int, y as int),
            },
            EditModel::ReplaceGrid { new } => ChangeModel::ReplaceGrid { old: g },
            EditModel::InsertRow { row, contents } => ChangeModel::InsertRow { row },
            EditModel::DeleteRow { row } => ChangeModel::DeleteRow { row, old: g.rows[row as int] },
            EditModel::InsertCol { col, contents } => ChangeModel::InsertCol { col },
            EditModel::DeleteCol { col } => ChangeModel::DeleteCol {
                col,
                old: g.column(col as int),
            },
        }
    }
}

/// What a [`ChangeTracker`] holds, as mathematics: the changes that can be
/// undone and those that can be redone, the next one last.
pub struct HistoryModel {
    pub undos: Seq<ChangeModel>,
    pub redos: Seq<ChangeModel>,
}

impl HistoryModel {
    /// The history after a new change: it can be undone, and nothing can be
    /// redone any more.
    pub open spec fn push(self, change: ChangeModel) -> HistoryModel {
        HistoryModel { undos: self.undos.push(change), redos: Seq::empty() }
    }

    /// The grid after one undo on `g`. With nothing to undo it is `g`.
    pub open spec fn undo_grid(self, g: GridModel) -> GridModel {
        if self.undos.len() == 0 {
            g
        } else {
            self.undos.last().undone(g)
        }
    }

    /// The history after one undo on `g`: the last change moves, reversed,
    /// to the redos.
    pub open spec fn undo(self, g: GridModel) -> HistoryModel {
        if self.undos.len() == 0 {
            self
        } else {
            HistoryModel {
                undos: self.undos.drop_last(),
                redos: self.redos.push(self.undos.last().reversed(g)),
            }
        }
    }

    /// The grid after one redo on `g`. With nothing to redo it is `g`.
    pub open spec fn redo_grid(self, g: GridModel) -> GridModel {
        if self.redos.len() == 0 {
            g
        } else {
            self.redos.last().undone(g)
        }
    }

    /// The history after one redo on `g`: the last undone change moves,
    /// reversed, back to the undos.
    pub open spec fn redo(self, g: GridModel) -> HistoryModel {
        if self.redos.len() == 0 {
            self
        } else {
            HistoryModel {
                undos: self.undos.push(self.redos.last().reversed(g)),
                redos: self.redos.drop_last(),
            }
        }
    }
}

/// Why a set of records is no grid.
#[derive(Debug, Clone, Copy, PartialEq, Eq)]
pub enum GridError {
    /// Some record is longer or shorter than the first one.
    UnequalLengths,
}

/// A rectangular store of text cells, addressed by column `x` and row `y`.
#[derive(Debug, Clone)]
pub struct Grid {
    cells: Vec<Vec<String>>,
    /// Dimensions of cells
    size: XY<usize>,
}

impl View for Grid {
    type V = GridModel;

    closed spec fn view(&self) -> GridModel {
        GridModel {
            width: self.size.x as nat,
            rows: Seq::new(self.cells@.len(), |r: int| texts(self.cells@[r]@)),
        }
    }
}

impl Default for Grid {
    /// The grid without any cell.
    fn default() -> (g: Grid)
        ensures
            g.wf(),
            g@.width == 0,
            g@.rows.len() == 0,
    {
        Grid { cells: Vec::new(), size: XY { x: 0, y: 0 } }
    }
}

impl Grid {
    /// The stored size agrees with the stored cells.
    pub closed spec fn consistent(&self) -> bool {
        &&& self.cells@.len() == self.size.y
        &&& forall|r: int|
            0 <= r < self.cells@.len() ==> (#[trigger] self.cells@[r])@.len() == self.size.x
    }

    /// The grid is a rectangle.
    pub open spec fn wf(&self) -> bool {
        self.consistent() && self@.wf()
    }

    proof fn lemma_consistent_wf(&self)
        requires
            self.consistent(),
        ensures
            self.wf(),
    {
        assert forall|r: int| 0 <= r < self@.rows.len() implies (#[trigger] self@.rows[r]).len()
            == self@.width by {
            assert(self.cells@[r]@.len() == self.size.x);
        }
    }

    /// Builds a grid from the records of a table, one record per row.
    ///
    /// The first record decides the width; records of any other length are
    /// refused.
    pub fn from_csv(records: Vec<Vec<String>>) -> (r: Result<Grid, GridError>)
        ensures
            r is Ok <==> forall|i: int|
                0 <= i < records@.len() ==> (#[trigger] records@[i])@.len() == records@[0]@.len(),
            r matches Ok(g) ==> {
                &&& g.wf()
                &&& g@.width == (if records@.len() == 0 {
                    0
                } else {
                    records@[0]@.len()
                })
                &&& g@.rows == Seq::new(records@.len(), |i: int| texts(records@[i]@))
            },
            r matches Err(e) ==> e == GridError::UnequalLengths,
    {
        let height = records.len();
        let width = if height == 0 {
            0
        } else {
            records[0].len()
        };
        let mut i: usize = 0;
        while i < height
            invariant
                height == records@.len(),
                i <= height,
                height > 0 ==> width == records@[0]@.len(),
                forall|k: int| 0 <= k < i ==> (#[trigger] records@[k])@.len() == width,
            decreases height - i,
        {
            if records[i].len() != width {
                return Err(GridError::UnequalLengths);
            }
            i += 1;
        }
        let g = Grid { cells: records, size: XY { x: width, y: height } };
        proof {
            g.lemma_consistent_wf();
        }
        Ok(g)
    }

    /// The rows of cells, top to bottom.
    pub fn cells(&self) -> (rows: &Vec<Vec<String>>)
        requires
            self.wf(),
        ensures
            rows@.len() == self@.height(),
            forall|r: int| 0 <= r < rows@.len() ==> texts((#[trigger] rows@[r])@) == self@.rows[r],
    {
        &self.cells
    }

    /// The number of columns (`x`) and of rows (`y`).
    pub fn size(&self) -> (size: XY<usize>)
        requires
            self.wf(),
        ensures
            size.x == self@.width,
            size.y == self@.height(),
    {
        self.size
    }

    /// The cell at `pos`, if the grid has one there.
    pub fn get(&self, pos: XY<usize>) -> (cell: Option<&String>)
        requires
            self.wf(),
        ensures
            cell is Some <==> self@.has_cell(pos.x as int, pos.y as int),
            cell matches Some(s) ==> s@ == self@.cell(pos.x as int, pos.y as int),
    {
        if pos.y < self.cells.len() {
            let row = &self.cells[pos.y];
            if pos.x < row.len() {
                return Some(&row[pos.x]);
            }
        }
        None
    }

    /// Whether `pos` addresses a cell of the grid.
    pub fn is_in(&self, pos: XY<usize>) -> (inside: bool)
        requires
            self.wf(),
        ensures
            inside <==> self@.has_cell(pos.x as int, pos.y as int),
    {
        pos.x < self.size.x && pos.y < self.size.y
    }
}

/// Record of an edit to a `Grid` that contains enough information to
/// reconstruct the previous version with the current.
#[must_use]
#[allow(inconsistent_fields)]
#[derive(Debug, Clone)]
pub enum Change {
    Replace { pos: XY<usize>, old: String },
    ReplaceGrid { old: Grid },
    DeleteCol { col: usize, old: Vec<String> },
    InsertCol { col: usize },
    DeleteRow { row: usize, old: Vec<String> },
    InsertRow { row: usize },
}

impl View for Change {
    type V = ChangeModel;

    open spec fn view(&self) -> ChangeModel {
        match *self {
            Change::Replace { pos, old } => ChangeModel::Replace {
                x: pos.x as nat,
                y: pos.y as nat,
                old: old@,
            },
            Change::ReplaceGrid { old } => ChangeModel::ReplaceGrid { old: old@ },
            Change::DeleteCol { col, old } => ChangeModel::DeleteCol {
                col: col as nat,
                old: texts(old@),
            },
            Change::InsertCol { col } => ChangeModel::InsertCol { col: col as nat },
            Change::DeleteRow { row, old } => ChangeModel::DeleteRow {
                row: row as nat,
                old: texts(old@),
            },
            Change::InsertRow { row } => ChangeModel::InsertRow { row: row as nat },
        }
    }
}

impl Change {
    /// A grid held by the change is a rectangle.
    pub open spec fn wf(&self) -> bool {
        match *self {
            Change::ReplaceGrid { old } => old.wf(),
            _ => true,
        }
    }

    /// Records the change in `tracker`, which drops its redos.
    pub fn track(self, tracker: &mut ChangeTracker)
        requires
            self.wf(),
            old(tracker).wf(),
        ensures
            final(tracker).wf(),
            final(tracker)@ == old(tracker)@.push(self@),
    {
        tracker.push(self);
    }
}

impl Grid {
    /// Replaces the whole grid by `other` and hands back the grid that was.
    pub fn replace(&mut self, other: Grid) -> (change: Change)
        requires
            old(self).wf(),
            other.wf(),
        ensures
            final(self).wf(),
            final(self)@ == other@,
            change.wf(),
            change@ == (ChangeModel::ReplaceGrid { old: old(self)@ }),
            final(self)@ == (EditModel::ReplaceGrid { new: other@ }).applied(old(self)@),
            change@ == (EditModel::ReplaceGrid { new: other@ }).change(old(self)@),
    {
        let mut previous = other;
        std::mem::swap(self, &mut previous);
        Change::ReplaceGrid { old: previous }
    }

    /// Puts `contents` into the cell at `pos` and hands back the text that
    /// was there.
    pub fn edit(&mut self, pos: XY<usize>, contents: String) -> (change: Change)
        requires
            old(self).wf(),
            old(self)@.has_cell(pos.x as int, pos.y as int),
        ensures
            final(self).wf(),
            final(self)@ == old(self)@.with_cell(pos.x as int, pos.y as int, contents@),
            change.wf(),
            change@ == (ChangeModel::Replace {
                x: pos.x as nat,
                y: pos.y as nat,
                old: old(self)@.cell(pos.x as int, pos.y as int),
            }),
            ({
                let e = EditModel::SetCell { x: pos.x as nat, y: pos.y as nat, text: contents@ };
                e.fits(old(self)@) && final(self)@ == e.applied(old(self)@) && change@ == e.change(
                    old(self)@,
                )
            }),
    {
        let ghost text = contents@;
        let mut previous = contents;
        std::mem::swap(&mut self.cells[pos.y][pos.x], &mut previous);
        proof {
            self.lemma_consistent_wf();
            let want = old(self)@.with_cell(pos.x as int, pos.y as int, text);
            assert forall|r: int| 0 <= r < self@.rows.len() implies #[trigger] self@.rows[r]
                =~= want.rows[r] by {}
            assert(self@.rows =~= want.rows);
        }
        Change::Replace { pos, old: previous }
    }

    /// Fills `contents` up with empty cells until it has `len` of them.
    fn pad(contents: &mut Vec<String>, len: usize)
        requires
            old(contents)@.len() <= len,
        ensures
            final(contents)@.len() == len,
            texts(final(contents)@) == padded(texts(old(contents)@), len as nat),
    {
        while contents.len() < len
            invariant
                old(contents)@.len() <= contents@.len() <= len,
                forall|i: int| 0 <= i < old(contents)@.len() ==> contents@[i] == old(contents)@[i],
                forall|i: int|
                    old(contents)@.len() <= i < contents@.len() ==> (#[trigger] contents@[i])@
                        == Seq::<char>::empty(),
            decreases len - contents@.len(),
        {
            contents.push(String::new());
        }
        assert(texts(contents@) =~= padded(texts(old(contents)@), len as nat));
    }

    /// Inserts a row before row `row`. `contents` holds its cells from the
    /// left; the cells it does not reach are empty.
    pub fn insert_row(&mut self, row: usize, contents: Vec<String>) -> (change: Change)
        requires
            old(self).wf(),
            row <= old(self)@.height(),
            contents@.len() <= old(self)@.width,
        ensures
            final(self).wf(),
            final(self)@ == old(self)@.with_row_inserted(row as int, texts(contents@)),
            change.wf(),
            change@ == (ChangeModel::InsertRow { row: row as nat }),
            ({
                let e = EditModel::InsertRow { row: row as nat, contents: texts(contents@) };
                e.fits(old(self)@) && final(self)@ == e.applied(old(self)@) && change@ == e.change(
                    old(self)@,
                )
            }),
    {
        let mut cells = contents;
        Self::pad(&mut cells, self.size.x);
        self.cells.insert(row, cells);
        self.size.y = self.cells.len();
        proof {
            self.lemma_consistent_wf();
            assert(self@.rows =~= old(self)@.with_row_inserted(row as int, texts(contents@)).rows);
        }
        Change::InsertRow { row }
    }

    /// Deletes row `row` and hands back its cells.
    pub fn delete_row(&mut self, row: usize) -> (change: Change)
        requires
            old(self).wf(),
            row < old(self)@.height(),
        ensures
            final(self).wf(),
            final(self)@ == old(self)@.with_row_deleted(row as int),
            change.wf(),
            change@ == (ChangeModel::DeleteRow { row: row as nat, old: old(self)@.rows[row as int] }),
            ({
                let e = EditModel::DeleteRow { row: row as nat };
                e.fits(old(self)@) && final(self)@ == e.applied(old(self)@) && change@ == e.change(
                    old(self)@,
                )
            }),
    {
        let removed = self.cells.remove(row);
        self.size.y -= 1;
        proof {
            self.lemma_consistent_wf();
            assert(self@.rows =~= old(self)@.with_row_deleted(row as int).rows);
        }
        Change::DeleteRow { row, old: removed }
    }

    /// Inserts a column before column `col`. `contents` holds its cells from
    /// the top; the cells it does not reach are empty.
    pub fn insert_col(&mut self, col: usize, contents: Vec<String>) -> (change: Change)
        requires
            old(self).wf(),
            col <= old(self)@.width,
            contents@.len() <= old(self)@.height(),
            old(self)@.width < usize::MAX,
        ensures
            final(self).wf(),
            final(self)@ == old(self)@.with_col_inserted(col as int, texts(contents@)),
            change.wf(),
            change@ == (ChangeModel::InsertCol { col: col as nat }),
            ({
                let e = EditModel::InsertCol { col: col as nat, contents: texts(contents@) };
                e.fits(old(self)@) && final(self)@ == e.applied(old(self)@) && change@ == e.change(
                    old(self)@,
                )
            }),
    {
        let mut cells = contents;
        Self::pad(&mut cells, self.size.y);
        let ghost want = old(self)@.with_col_inserted(col as int, texts(contents@));
        let mut r: usize = 0;
        while r < self.size.y
            invariant
                old(self).wf(),
                col <= old(self).size.x,
                self.size == old(self).size,
                self.cells@.len() == self.size.y,
                cells@.len() == self.size.y,
                r <= self.size.y,
                forall|k: int|
                    0 <= k < r ==> (#[trigger] self.cells@[k])@ == old(self).cells@[k]@.insert(
                        col as int,
                        cells@[k],
                    ),
                forall|k: int| r <= k < self.size.y ==> self.cells@[k] == old(self).cells@[k],
            decreases self.size.y - r,
        {
            let text = cells[r].clone();
            self.cells[r].insert(col, text);
            r += 1;
        }
        self.size.x += 1;
        proof {
            self.lemma_consistent_wf();
            assert forall|k: int| 0 <= k < self@.rows.len() implies #[trigger] self@.rows[k]
                =~= want.rows[k] by {}
            assert(self@.rows =~= want.rows);
        }
        Change::InsertCol { col }
    }

    /// Deletes column `col` and hands back its cells.
    pub fn delete_col(&mut self, col: usize) -> (change: Change)
        requires
            old(self).wf(),
            col < old(self)@.width,
        ensures
            final(self).wf(),
            final(self)@ == old(self)@.with_col_deleted(col as int),
            change.wf(),
            change@ == (ChangeModel::DeleteCol { col: col as nat, old: old(self)@.column(col as int) }),
            ({
                let e = EditModel::DeleteCol { col: col as nat };
                e.fits(old(self)@) && final(self)@ == e.applied(old(self)@) && change@ == e.change(
                    old(self)@,
                )
            }),
    {
        let mut removed: Vec<String> = Vec::new();
        let mut r: usize = 0;
        while r < self.size.y
            invariant
                old(self).wf(),
                col < old(self).size.x,
                self.size == old(self).size,
                self.cells@.len() == self.size.y,
                removed@.len() == r,
                r <= self.size.y,
                forall|k: int|
                    0 <= k < r ==> (#[trigger] self.cells@[k])@ == old(self).cells@[k]@.remove(
                        col as int,
                    ),
                forall|k: int| 0 <= k < r ==> (#[trigger] removed@[k]) == old(self).cells@[k]@[col as int],
                forall|k: int| r <= k < self.size.y ==> self.cells@[k] == old(self).cells@[k],
            decreases self.size.y - r,
        {
            let cell = self.cells[r].remove(col);
            removed.push(cell);
            r += 1;
        }
        self.size.x -= 1;
        proof {
            let want = old(self)@.with_col_deleted(col as int);
            self.lemma_consistent_wf();
            assert forall|k: int| 0 <= k < self@.rows.len() implies #[trigger] self@.rows[k]
                =~= want.rows[k] by {}
            assert(self@.rows =~= want.rows);
            assert(texts(removed@) =~= old(self)@.column(col as int));
        }
        Change::DeleteCol { col, old: removed }
    }

    /// Undoes `change` and hands back the change that undoes the undoing.
    pub fn undo(&mut self, change: Change) -> (reverse: Change)
        requires
            old(self).wf(),
            change.wf(),
            change@.fits(old(self)@),
        ensures
            final(self).wf(),
            final(self)@ == change@.undone(old(self)@),
            reverse.wf(),
            reverse@ == change@.reversed(old(self)@),
    {
        match change {
            Change::Replace { pos, old } => self.edit(pos, old),
            Change::ReplaceGrid { old } => self.replace(old),
            Change::DeleteCol { col, old } => self.insert_col(col, old),
            Change::InsertCol { col } => self.delete_col(col),
            Change::DeleteRow { row, old } => self.insert_row(row, old),
            Change::InsertRow { row } => self.delete_row(row),
        }
    }
}

/// The undo and redo log of a grid.
#[derive(Debug, Clone)]
pub struct ChangeTracker {
    undos: Vec<Change>,
    redos: Vec<Change>,
}

/// The models of a list of changes.
pub open spec fn change_models(changes: Seq<Change>) -> Seq<ChangeModel> {
    Seq::new(changes.len(), |i: int| changes[i]@)
}

impl View for ChangeTracker {
    type V = HistoryModel;

    closed spec fn view(&self) -> HistoryModel {
        HistoryModel { undos: change_models(self.undos@), redos: change_models(self.redos@) }
    }
}

impl Default for ChangeTracker {
    /// The log without any change.
    fn default() -> (t: ChangeTracker)
        ensures
            t.wf(),
            t@.undos.len() == 0,
            t@.redos.len() == 0,
    {
        ChangeTracker { undos: Vec::new(), redos: Vec::new() }
    }
}

impl ChangeTracker {
    /// Every grid held by a recorded change is a rectangle.
    pub closed spec fn wf(&self) -> bool {
        &&& forall|i: int| 0 <= i < self.undos@.len() ==> (#[trigger] self.undos@[i]).wf()
        &&& forall|i: int| 0 <= i < self.redos@.len() ==> (#[trigger] self.redos@[i]).wf()
    }

    /// Record a new change, dropping any possible redos
    pub fn push(&mut self, change: Change)
        requires
            old(self).wf(),
            change.wf(),
        ensures
            final(self).wf(),
            final(self)@ == old(self)@.push(change@),
    {
        self.redos.clear();
        self.undos.push(change);
        assert(self@.undos =~= old(self)@.push(change@).undos);
        assert(self@.redos =~= old(self)@.push(change@).redos);
    }

    /// Undoes the last change on `g`, so that it can be redone. `None`
    /// says that there was nothing to undo.
    pub fn undo(&mut self, g: &mut Grid) -> (done: Option<()>)
        requires
            old(self).wf(),
            old(g).wf(),
            old(self)@.undos.len() > 0 ==> old(self)@.undos.last().fits(old(g)@),
        ensures
            final(self).wf(),
            final(g).wf(),
            done is Some <==> old(self)@.undos.len() > 0,
            final(g)@ == old(self)@.undo_grid(old(g)@),
            final(self)@ == old(self)@.undo(old(g)@),
    {
        match self.undos.pop() {
            None => {
                assert(self@.undos =~= old(self)@.undos);
                None
            },
            Some(change) => {
                let redo = g.undo(change);
                self.redos.push(redo);
                assert(self@.undos =~= old(self)@.undo(old(g)@).undos);
                assert(self@.redos =~= old(self)@.undo(old(g)@).redos);
                Some(())
            },
        }
    }

    /// Redoes the change undone last on `g`, so that it can be undone
    /// again. `None` says that there was nothing to redo.
    pub fn redo(&mut self, g: &mut Grid) -> (done: Option<()>)
        requires
            old(self).wf(),
            old(g).wf(),
            old(self)@.redos.len() > 0 ==> old(self)@.redos.last().fits(old(g)@),
        ensures
            final(self).wf(),
            final(g).wf(),
            done is Some <==> old(self)@.redos.len() > 0,
            final(g)@ == old(self)@.redo_grid(old(g)@),
            final(self)@ == old(self)@.redo(old(g)@),
    {
        match self.redos.pop() {
            None => {
                assert(self@.redos =~= old(self)@.redos);
                None
            },
            Some(change) => {
                let undo = g.undo(change);
                self.undos.push(undo);
                assert(self@.undos =~= old(self)@.redo(old(g)@).undos);
                assert(self@.redos =~= old(self)@.redo(old(g)@).redos);
                Some(())
            },
        }
    }
}

} // verus!
