//! What holds of an editing session: a grid together with its undo and redo
//! log, under edits, undos and redos.
use vstd::prelude::*;

use crate::grid::{ChangeModel, EditModel, GridModel, HistoryModel};

verus! {

/// A grid together with its log.
pub struct SessionModel {
    pub grid: GridModel,
    pub history: HistoryModel,
}

impl SessionModel {
    /// The session after a tracked edit: the grid is edited and the change
    /// is recorded.
    pub open spec fn edit(self, e: EditModel) -> SessionModel {
        SessionModel { grid: e.applied(self.grid), history: self.history.push(e.change(self.grid)) }
    }

    /// The session after one undo.
    pub open spec fn undo(self) -> SessionModel {
        SessionModel {
            grid: self.history.undo_grid(self.grid),
            history: self.history.undo(self.grid),
        }
    }

    /// The session after one redo.
    pub open spec fn redo(self) -> SessionModel {
        SessionModel {
            grid: self.history.redo_grid(self.grid),
            history: self.history.redo(self.grid),
        }
    }

    /// The session after the edits `es`, the first one first.
    pub open spec fn edits(self, es: Seq<EditModel>) -> SessionModel
        decreases es.len(),
    {
        if es.len() == 0 {
            self
        } else {
            self.edits(es.drop_last()).edit(es.last())
        }
    }

    /// Whether each of the edits `es` is valid on the grid it meets.
    pub open spec fn edits_fit(self, es: Seq<EditModel>) -> bool
        decreases es.len(),
    {
        es.len() == 0 || (self.edits_fit(es.drop_last()) && es.last().fits(
            self.edits(es.drop_last()).grid,
        ))
    }

    /// The session after `n` undos.
    pub open spec fn undos(self, n: nat) -> SessionModel
        decreases n,
    {
        if n == 0 {
            self
        } else {
            self.undo().undos((n - 1) as nat)
        }
    }

    /// The session after `n` redos.
    pub open spec fn redos(self, n: nat) -> SessionModel
        decreases n,
    {
        if n == 0 {
            self
        } else {
            self.redos((n - 1) as nat).redo()
        }
    }

    /// Whether the next `n` undos each find a change that fits the grid
    /// they meet.
    pub open spec fn can_undo(self, n: nat) -> bool
        decreases n,
    {
        n == 0 || (self.history.undos.len() > 0 && self.history.undos.last().fits(self.grid)
            && self.undo().can_undo((n - 1) as nat))
    }
}

/// A valid edit keeps the grid a rectangle.
pub proof fn lemma_edit_keeps_wf(g: GridModel, e: EditModel)
    requires
        g.wf(),
        e.fits(g),
    ensures
        e.applied(g).wf(),
{
}

/// Undoing a change that fits keeps the grid a rectangle.
pub proof fn lemma_undo_keeps_wf(g: GridModel, c: ChangeModel)
    requires
        g.wf(),
        c.fits(g),
    ensures
        c.undone(g).wf(),
{
}

/// An edit followed by the undoing of the change it handed back restores
/// the grid, cell for cell.
pub proof fn lemma_edit_then_undo_restores(g: GridModel, e: EditModel)
    requires
        g.wf(),
        e.fits(g),
    ensures
        e.change(g).fits(e.applied(g)),
        e.change(g).undone(e.applied(g)) == g,
{
    let g1 = e.applied(g);
    let back = e.change(g).undone(g1);
    match e {
        EditModel::SetCell { x, y, text } => {
            assert(back.rows =~= g.rows) by {
                assert(back.rows[y as int] =~= g.rows[y as int]);
            }
        },
        EditModel::ReplaceGrid { new } => {},
        EditModel::InsertRow { row, contents } => {
            assert(back.rows =~= g.rows);
        },
        EditModel::DeleteRow { row } => {
            assert(crate::grid::padded(g.rows[row as int], g.width) =~= g.rows[row as int]);
            assert(back.rows =~= g.rows);
        },
        EditModel::InsertCol { col, contents } => {
            assert forall|r: int| 0 <= r < g.rows.len() implies #[trigger] back.rows[r]
                =~= g.rows[r] by {}
            assert(back.rows =~= g.rows);
        },
        EditModel::DeleteCol { col } => {
            assert forall|r: int| 0 <= r < g.rows.len() implies #[trigger] back.rows[r]
                =~= g.rows[r] by {}
            assert(back.rows =~= g.rows);
        },
    }
}

/// Undoing a change and then undoing the change that this handed back
/// restores the grid. Where the change holds a whole row or column, as
/// every change that a deletion hands back does, the second undoing also
/// hands back the change itself.
pub proof fn lemma_undo_round_trip(g: GridModel, c: ChangeModel)
    requires
        g.wf(),
        c.fits(g),
    ensures
        c.reversed(g).fits(c.undone(g)),
        c.reversed(g).undone(c.undone(g)) == g,
        (c matches ChangeModel::DeleteRow { row, old } ==> old.len() == g.width) && (c matches ChangeModel::DeleteCol {
            col,
            old,
        } ==> old.len() == g.height()) ==> c.reversed(g).reversed(c.undone(g)) == c,
{
    let g1 = c.undone(g);
    let back = c.reversed(g).undone(g1);
    match c {
        ChangeModel::Replace { x, y, old } => {
            assert(back.rows =~= g.rows) by {
                assert(back.rows[y as int] =~= g.rows[y as int]);
            }
        },
        ChangeModel::ReplaceGrid { old } => {},
        ChangeModel::DeleteRow { row, old } => {
            assert(back.rows =~= g.rows);
            if old.len() == g.width {
                assert(crate::grid::padded(old, g.width) =~= old);
            }
        },
        ChangeModel::InsertRow { row } => {
            assert(crate::grid::padded(g.rows[row as int], g.width) =~= g.rows[row as int]);
            assert(back.rows =~= g.rows);
        },
        ChangeModel::DeleteCol { col, old } => {
            assert forall|r: int| 0 <= r < g.rows.len() implies #[trigger] back.rows[r]
                =~= g.rows[r] by {}
            assert(back.rows =~= g.rows);
            if old.len() == g.height() {
                assert(g1.column(col as int) =~= old);
            }
        },
        ChangeModel::InsertCol { col } => {
            assert forall|r: int| 0 <= r < g.rows.len() implies #[trigger] back.rows[r]
                =~= g.rows[r] by {}
            assert(back.rows =~= g.rows);
        },
    }
}

/// Valid edits keep the grid a rectangle.
pub proof fn lemma_edits_keep_wf(s: SessionModel, es: Seq<EditModel>)
    requires
        s.grid.wf(),
        s.edits_fit(es),
    ensures
        s.edits(es).grid.wf(),
    decreases es.len(),
{
    if es.len() > 0 {
        lemma_edits_keep_wf(s, es.drop_last());
        lemma_edit_keeps_wf(s.edits(es.drop_last()).grid, es.last());
    }
}

/// What undos do to the grid and to the changes still to undo does not
/// depend on what can be redone.
proof fn lemma_undos_ignore_redos(s: SessionModel, t: SessionModel, n: nat)
    requires
        s.grid == t.grid,
        s.history.undos == t.history.undos,
    ensures
        s.undos(n).grid == t.undos(n).grid,
        s.undos(n).history.undos == t.undos(n).history.undos,
        s.can_undo(n) == t.can_undo(n),
    decreases n,
{
    if n > 0 {
        lemma_undos_ignore_redos(s.undo(), t.undo(), (n - 1) as nat);
    }
}

/// A tracked edit followed by one undo gives back the grid and the changes
/// to undo that the session had before.
proof fn lemma_edit_then_undo(s: SessionModel, e: EditModel)
    requires
        s.grid.wf(),
        e.fits(s.grid),
    ensures
        s.edit(e).history.undos.len() > 0,
        s.edit(e).history.undos.last().fits(s.edit(e).grid),
        s.edit(e).undo().grid == s.grid,
        s.edit(e).undo().history.undos == s.history.undos,
{
    lemma_edit_then_undo_restores(s.grid, e);
    assert(s.edit(e).history.undos.drop_last() =~= s.history.undos);
}

/// After any number of valid edits and as many undos the grid is what it
/// was before the first edit, and so are the changes that can be undone.
pub proof fn lemma_edits_then_undos_restore(s: SessionModel, es: Seq<EditModel>)
    requires
        s.grid.wf(),
        s.edits_fit(es),
    ensures
        s.edits(es).can_undo(es.len()),
        s.edits(es).undos(es.len()).grid == s.grid,
        s.edits(es).undos(es.len()).history.undos == s.history.undos,
    decreases es.len(),
{
    if es.len() > 0 {
        let before = s.edits(es.drop_last());
        let n = (es.len() - 1) as nat;
        lemma_edits_keep_wf(s, es.drop_last());
        lemma_edit_then_undo(before, es.last());
        lemma_edits_then_undos_restore(s, es.drop_last());
        lemma_undos_ignore_redos(before.edit(es.last()).undo(), before, n);
    }
}

/// Of the undos that `can_undo` allows, the first ones are allowed too.
proof fn lemma_can_undo_fewer(s: SessionModel, n: nat, k: nat)
    requires
        s.can_undo(n),
        k <= n,
    ensures
        s.can_undo(k),
    decreases k,
{
    if k > 0 {
        lemma_can_undo_fewer(s.undo(), (n - 1) as nat, (k - 1) as nat);
    }
}

/// `k` undos, each of a change that fits, followed by `k` redos give back
/// the grid, and leave to redo what there was to redo.
pub proof fn lemma_undos_then_redos_restore(s: SessionModel, k: nat)
    requires
        s.grid.wf(),
        s.can_undo(k),
    ensures
        s.undos(k).redos(k).grid == s.grid,
        s.undos(k).redos(k).history.redos == s.history.redos,
    decreases k,
{
    if k > 0 {
        let c = s.history.undos.last();
        let s1 = s.undo();
        lemma_undo_keeps_wf(s.grid, c);
        lemma_undo_round_trip(s.grid, c);
        lemma_undos_then_redos_restore(s1, (k - 1) as nat);
        let v = s1.undos((k - 1) as nat).redos((k - 1) as nat);
        assert(s.undos(k).redos(k) == v.redo());
        assert(v.history.redos == s.history.redos.push(c.reversed(s.grid)));
        assert(v.history.redos.drop_last() =~= s.history.redos);
    }
}

/// After any number of valid edits, `k` undos and then `k` redos, with
/// `k` no more than the number of edits, give back the grid as it was
/// after the last edit.
pub proof fn lemma_edits_undos_redos_restore(s: SessionModel, es: Seq<EditModel>, k: nat)
    requires
        s.grid.wf(),
        s.edits_fit(es),
        k <= es.len(),
    ensures
        s.edits(es).undos(k).redos(k).grid == s.edits(es).grid,
{
    lemma_edits_keep_wf(s, es);
    lemma_edits_then_undos_restore(s, es);
    lemma_can_undo_fewer(s.edits(es), es.len(), k);
    lemma_undos_then_redos_restore(s.edits(es), k);
}

/// A tracked edit leaves nothing to redo, whatever was undone before it:
/// a redo after it changes neither the grid nor the log.
pub proof fn lemma_edit_clears_redos(s: SessionModel, e: EditModel)
    ensures
        s.edit(e).history.redos.len() == 0,
        s.edit(e).redo() == s.edit(e),
        s.undo().edit(e).history.redos.len() == 0,
        s.undo().edit(e).redo() == s.undo().edit(e),
{
}

/// Whether the changes of `log`, undone one after the other from the last
/// one on, each fit the grid that they meet, beginning with `g`.
pub open spec fn unwinds(g: GridModel, log: Seq<ChangeModel>) -> bool
    decreases log.len(),
{
    log.len() == 0 || (log.last().fits(g) && unwinds(log.last().undone(g), log.drop_last()))
}

impl SessionModel {
    /// Whether the log belongs to the grid: the grid is a rectangle, and
    /// whatever is undone or redone from here on, in any order, each
    /// change fits the grid that it meets.
    pub open spec fn sound(self) -> bool {
        &&& self.grid.wf()
        &&& unwinds(self.grid, self.history.undos)
        &&& unwinds(self.grid, self.history.redos)
    }
}

/// A log that belongs to its grid still does after a valid tracked edit.
pub proof fn lemma_edit_keeps_sound(s: SessionModel, e: EditModel)
    requires
        s.sound(),
        e.fits(s.grid),
    ensures
        s.edit(e).sound(),
{
    lemma_edit_keeps_wf(s.grid, e);
    lemma_edit_then_undo(s, e);
    assert(s.edit(e).history.undos.drop_last() =~= s.history.undos);
}

/// A log that belongs to its grid still does after an undo, and the undo
/// finds a change that fits, if it finds one at all.
pub proof fn lemma_undo_keeps_sound(s: SessionModel)
    requires
        s.sound(),
    ensures
        s.history.undos.len() > 0 ==> s.history.undos.last().fits(s.grid),
        s.undo().sound(),
{
    if s.history.undos.len() > 0 {
        let c = s.history.undos.last();
        lemma_undo_keeps_wf(s.grid, c);
        lemma_undo_round_trip(s.grid, c);
        assert(s.undo().history.redos.drop_last() =~= s.history.redos);
    }
}

/// A log that belongs to its grid still does after a redo, and the redo
/// finds a change that fits, if it finds one at all.
pub proof fn lemma_redo_keeps_sound(s: SessionModel)
    requires
        s.sound(),
    ensures
        s.history.redos.len() > 0 ==> s.history.redos.last().fits(s.grid),
        s.redo().sound(),
{
    if s.history.redos.len() > 0 {
        let c = s.history.redos.last();
        lemma_undo_keeps_wf(s.grid, c);
        lemma_undo_round_trip(s.grid, c);
        assert(s.redo().history.undos.drop_last() =~= s.history.undos);
    }
}

} // verus!
