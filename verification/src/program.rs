//! The controller: the state of the editor and what each input makes of it.
//!
//! The controller never touches a file or the screen. Where an action needs
//! the file, it hands back an [`ExternalAction`], and the host reports the
//! outcome with one of the `finish_` functions.
use std::ops::ControlFlow;
use vstd::prelude::*;
use vstd::string::StringExecFns;

use crate::bindings::{BindNode, Bindings};
use crate::geometry::{Rect, XY};
use crate::grid::{ChangeTracker, EditModel, Grid, GridError};
use crate::history::{
    lemma_edit_keeps_sound, lemma_redo_keeps_sound, lemma_undo_keeps_sound, SessionModel,
};
use crate::input::{Input, InputBuffer};
use crate::keymap::is_default;
use crate::views::edit::{EditAction, EditState};
use crate::views::grid::{column_width, GridView};
use crate::views::palette::{offers, PaletteModel, PaletteState};
use crate::views::table::{Columns, Table, TableLayout, TableState};

pub mod action;

pub use action::{Action, Direction, Doc, ExternalAction};

verus! {

/// The text that `{:?}` gives for a string: the string between quotes,
/// with its special characters escaped.
pub uninterp spec fn debug_text(s: Seq<char>) -> Seq<char>;

/// Formats `s` with `{:?}`, as `format!` does: see [`debug_text`].
#[verifier::external_body]
fn debug_of(s: &str) -> (quoted: String)
    ensures
        quoted@ == debug_text(s@),
{
    format!("{:?}", s)
}

/// Result of the latest action, to display to the user.
#[derive(Debug)]
pub enum Status {
    /// The file of this name was read, or could not be read.
    Read(String, Result<(), String>),
    /// The file of this name was written, or could not be written.
    Write(String, Result<(), String>),
    UndoLimit,
    RedoLimit,
    /// The state was stored under this name, or could not be stored.
    DumpState(Result<String, String>),
}

/// What a [`Status`] says, as mathematics.
pub enum StatusModel {
    Read(Seq<char>, Result<(), Seq<char>>),
    Write(Seq<char>, Result<(), Seq<char>>),
    UndoLimit,
    RedoLimit,
    DumpState(Result<Seq<char>, Seq<char>>),
}

impl View for Status {
    type V = StatusModel;

    open spec fn view(&self) -> StatusModel {
        match *self {
            Status::Read(p, Ok(())) => StatusModel::Read(p@, Ok(())),
            Status::Read(p, Err(e)) => StatusModel::Read(p@, Err(e@)),
            Status::Write(p, Ok(())) => StatusModel::Write(p@, Ok(())),
            Status::Write(p, Err(e)) => StatusModel::Write(p@, Err(e@)),
            Status::UndoLimit => StatusModel::UndoLimit,
            Status::RedoLimit => StatusModel::RedoLimit,
            Status::DumpState(Ok(p)) => StatusModel::DumpState(Ok(p@)),
            Status::DumpState(Err(e)) => StatusModel::DumpState(Err(e@)),
        }
    }
}

impl StatusModel {
    /// The error that the status reports, if it reports one.
    pub open spec fn err(self) -> Option<Seq<char>> {
        match self {
            StatusModel::Read(_, Err(e)) => Some(e),
            StatusModel::Write(_, Err(e)) => Some(e),
            StatusModel::DumpState(Err(e)) => Some(e),
            _ => None,
        }
    }

    /// The name of the file that the status speaks of, if it names one.
    pub open spec fn file(self) -> Option<Seq<char>> {
        match self {
            StatusModel::Read(p, _) => Some(p),
            StatusModel::Write(p, _) => Some(p),
            StatusModel::DumpState(Ok(p)) => Some(p),
            _ => None,
        }
    }

    /// The message that the status shows, where `quoted` is the name of
    /// its file as it is to be shown.
    pub open spec fn message_with(self, quoted: Seq<char>) -> Seq<char> {
        match self {
            StatusModel::Read(_, Ok(_)) => "Read from "@ + quoted,
            StatusModel::Read(_, Err(e)) => "Error reading from "@ + quoted + ": "@ + e,
            StatusModel::Write(_, Ok(_)) => "Wrote to "@ + quoted,
            StatusModel::Write(_, Err(e)) => "Error writing to "@ + quoted + ": "@ + e,
            StatusModel::UndoLimit => "Nothing left to undo"@,
            StatusModel::RedoLimit => "Nothing left to redo"@,
            StatusModel::DumpState(Ok(_)) => "Dumped state to "@ + quoted,
            StatusModel::DumpState(Err(e)) => "Error dumping state: "@ + e,
        }
    }

    /// The message that the status shows: the name of its file is shown as
    /// `{:?}` formats it.
    pub open spec fn message(self) -> Seq<char> {
        self.message_with(
            match self.file() {
                Some(p) => debug_text(p),
                None => Seq::empty(),
            },
        )
    }
}

impl Status {
    /// The error that the status reports, if it reports one.
    pub fn err(&self) -> (e: Option<&String>)
        ensures
            match e {
                Some(e) => self@.err() == Some(e@),
                None => self@.err() is None,
            },
    {
        match self {
            Status::Read(_, Err(e)) => Some(e),
            Status::Write(_, Err(e)) => Some(e),
            Status::DumpState(Err(e)) => Some(e),
            _ => None,
        }
    }

    /// Whether the status reports an error.
    pub fn is_err(&self) -> (b: bool)
        ensures
            b == self@.err() is Some,
    {
        self.err().is_some()
    }

    /// The name of the file that the status speaks of, if it names one.
    pub fn file(&self) -> (name: Option<&String>)
        ensures
            match name {
                Some(p) => self@.file() == Some(p@),
                None => self@.file() is None,
            },
    {
        match self {
            Status::Read(p, _) => Some(p),
            Status::Write(p, _) => Some(p),
            Status::DumpState(Ok(p)) => Some(p),
            _ => None,
        }
    }

    /// The message that the status shows, where `quoted` is the name of
    /// its file as it is to be shown.
    pub fn message_with(&self, quoted: &str) -> (s: String)
        ensures
            s@ == self@.message_with(quoted@),
    {
        match self {
            Status::Read(_, Ok(_)) => String::from_str("Read from ").concat(quoted),
            Status::Read(_, Err(e)) => String::from_str("Error reading from ").concat(
                quoted,
            ).concat(": ").concat(e.as_str()),
            Status::Write(_, Ok(_)) => String::from_str("Wrote to ").concat(quoted),
            Status::Write(_, Err(e)) => String::from_str("Error writing to ").concat(
                quoted,
            ).concat(": ").concat(e.as_str()),
            Status::UndoLimit => String::from_str("Nothing left to undo"),
            Status::RedoLimit => String::from_str("Nothing left to redo"),
            Status::DumpState(Ok(_)) => String::from_str("Dumped state to ").concat(quoted),
            Status::DumpState(Err(e)) => String::from_str("Error dumping state: ").concat(
                e.as_str(),
            ),
        }
    }

    /// The message that the status shows.
    pub fn to_string(&self) -> (s: String)
        ensures
            s@ == self@.message(),
    {
        let quoted = match self.file() {
            Some(p) => debug_of(p.as_str()),
            None => String::new(),
        };
        self.message_with(quoted.as_str())
    }
}

/// What the editor is busy with.
#[derive(Debug, Clone)]
pub enum ViewState {
    /// Moving around the sheet
    Normal,
    /// Currently editing the selected cell
    EditCell(EditState),
    Debug,
    Palette(PaletteState),
}

/// What a [`ViewState`] holds, as mathematics.
pub enum ModeModel {
    Normal,
    EditCell(crate::views::edit::EditModel),
    Debug,
    Palette(PaletteModel),
}

impl View for ViewState {
    type V = ModeModel;

    open spec fn view(&self) -> ModeModel {
        match *self {
            ViewState::Normal => ModeModel::Normal,
            ViewState::EditCell(e) => ModeModel::EditCell(e@),
            ViewState::Debug => ModeModel::Debug,
            ViewState::Palette(p) => ModeModel::Palette(p@),
        }
    }
}

impl ViewState {
    /// The state that the view holds is well formed.
    pub open spec fn wf(&self) -> bool {
        match *self {
            ViewState::EditCell(e) => e.wf(),
            ViewState::Palette(p) => p.wf(),
            _ => true,
        }
    }
}

/// One less, but not less than nothing.
pub open spec fn less_one(n: int) -> int {
    if n > 0 {
        n - 1
    } else {
        0
    }
}

/// The sum of two numbers as far as a machine word holds it.
pub open spec fn capped_sum(a: int, b: int) -> int {
    if a + b <= usize::MAX {
        a + b
    } else {
        usize::MAX as int
    }
}

/// The difference of two numbers, but not less than nothing.
pub open spec fn capped_diff(a: int, b: int) -> int {
    if a >= b {
        a - b
    } else {
        0
    }
}

/// What the editor holds, as mathematics.
pub struct ProgramModel {
    /// What the editor is busy with.
    pub mode: ModeModel,
    /// The grid and its log.
    pub session: SessionModel,
    /// The cell selected. It need not be a cell of the grid.
    pub selection: XY<usize>,
    /// The first column and row shown.
    pub scroll: XY<usize>,
    /// How many columns and rows were shown last.
    pub visible: XY<usize>,
    /// The cell that was selected when the grid was laid out last.
    pub marked: Option<XY<usize>>,
    /// Where that cell was laid out last, if it was shown.
    pub marked_area: Option<Rect>,
    /// The inputs of a chord that is not complete yet.
    pub pending: Seq<Input>,
    /// The bindings that inputs are resolved with.
    pub bindings: Bindings<Action>,
    /// Whether the screen is out of date.
    pub redraw: bool,
    /// What the last action has to tell the user.
    pub status: Option<StatusModel>,
    /// The name of the file.
    pub filename: Seq<char>,
}

impl ProgramModel {
    /// Where a move in direction `d` takes the selection: one cell on, but
    /// not beyond the first row or column.
    pub open spec fn moved(self, d: Direction) -> XY<usize> {
        let XY { x, y } = self.selection;
        match d {
            Direction::Up => XY { x, y: less_one(y as int) as usize },
            Direction::Down => XY { x, y: capped_sum(y as int, 1) as usize },
            Direction::Left => XY { x: less_one(x as int) as usize, y },
            Direction::Right => XY { x: capped_sum(x as int, 1) as usize, y },
        }
    }

    /// Where a jump in direction `d` takes the selection: as many cells on
    /// as were shown last in that direction.
    pub open spec fn jumped(self, d: Direction) -> XY<usize> {
        let XY { x, y } = self.selection;
        match d {
            Direction::Up => XY { x, y: capped_diff(y as int, self.visible.y as int) as usize },
            Direction::Down => XY { x, y: capped_sum(y as int, self.visible.y as int) as usize },
            Direction::Left => XY { x: capped_diff(x as int, self.visible.x as int) as usize, y },
            Direction::Right => XY { x: capped_sum(x as int, self.visible.x as int) as usize, y },
        }
    }

    /// Where a jump in direction `d` scrolls the view: as far as it takes
    /// the selection.
    pub open spec fn scrolled(self, d: Direction) -> XY<usize> {
        let XY { x, y } = self.scroll;
        match d {
            Direction::Up => XY { x, y: capped_diff(y as int, self.visible.y as int) as usize },
            Direction::Down => XY { x, y: capped_sum(y as int, self.visible.y as int) as usize },
            Direction::Left => XY { x: capped_diff(x as int, self.visible.x as int) as usize, y },
            Direction::Right => XY { x: capped_sum(x as int, self.visible.x as int) as usize, y },
        }
    }

    /// The editor with another selection.
    pub open spec fn select(self, selection: XY<usize>) -> ProgramModel {
        ProgramModel { selection, ..self }
    }

    /// The editor after the tracked edit `e`, where it is valid; else as
    /// it was.
    pub open spec fn edit(self, e: EditModel) -> ProgramModel {
        if e.fits(self.session.grid) {
            ProgramModel { session: self.session.edit(e), ..self }
        } else {
            self
        }
    }

    /// The last cell of the grid; the first, where the grid has none.
    pub open spec fn last_cell(self) -> XY<usize> {
        XY {
            x: less_one(self.session.grid.width as int) as usize,
            y: less_one(self.session.grid.height() as int) as usize,
        }
    }

    /// Whether `next` is what the action makes of the editor.
    ///
    /// Actions on the file change nothing by themselves: the host does
    /// them. Edits change the grid where the selection allows them, and
    /// nothing else.
    pub open spec fn acts(self, action: Action, next: ProgramModel) -> bool {
        let at = self.selection;
        match action {
            Action::Quit | Action::Write | Action::Read | Action::DumpState | Action::GoTo => next
                == self,
            Action::Move(d) => next == self.select(self.moved(d)),
            Action::Jump(d) => next == (ProgramModel {
                selection: self.jumped(d),
                scroll: self.scrolled(d),
                ..self
            }),
            Action::Home => next == self.select(XY { x: 0, y: 0 }),
            Action::End => next == self.select(self.last_cell()),
            Action::HomeRow => next == self.select(XY { x: 0, y: at.y }),
            Action::EndRow => next == self.select(XY { x: self.last_cell().x, y: at.y }),
            Action::HomeCol => next == self.select(XY { x: at.x, y: 0 }),
            Action::EndCol => next == self.select(XY { x: at.x, y: self.last_cell().y }),
            Action::Edit => if self.session.grid.has_cell(at.x as int, at.y as int) {
                let text = self.session.grid.cell(at.x as int, at.y as int);
                next == (ProgramModel {
                    mode: ModeModel::EditCell(
                        crate::views::edit::EditModel { text, cursor: text.len() as int },
                    ),
                    status: None,
                    ..self
                })
            } else {
                next == self
            },
            Action::Replace => next == (ProgramModel {
                mode: ModeModel::EditCell(
                    crate::views::edit::EditModel { text: Seq::empty(), cursor: 0 },
                ),
                status: None,
                ..self
            }),
            Action::Clear => next == self.edit(
                EditModel::SetCell { x: at.x as nat, y: at.y as nat, text: Seq::empty() },
            ),
            Action::InsertRow => next == self.edit(
                EditModel::InsertRow { row: at.y as nat, contents: Seq::empty() },
            ),
            Action::InsertCol => next == self.edit(
                EditModel::InsertCol { col: at.x as nat, contents: Seq::empty() },
            ),
            Action::DeleteRow => next == self.edit(EditModel::DeleteRow { row: at.y as nat }),
            Action::DeleteCol => next == self.edit(EditModel::DeleteCol { col: at.x as nat }),
            Action::Undo => if self.session.history.undos.len() > 0 {
                next == (ProgramModel { session: self.session.undo(), ..self })
            } else {
                next == (ProgramModel { status: Some(StatusModel::UndoLimit), ..self })
            },
            Action::Redo => if self.session.history.redos.len() > 0 {
                next == (ProgramModel { session: self.session.redo(), ..self })
            } else {
                next == (ProgramModel { status: Some(StatusModel::RedoLimit), ..self })
            },
            Action::ToggleDebug => next == (ProgramModel {
                mode: if self.mode is Debug {
                    ModeModel::Normal
                } else {
                    ModeModel::Debug
                },
                ..self
            }),
            Action::TogglePalette => if self.mode is Palette {
                next == (ProgramModel { mode: ModeModel::Normal, ..self })
            } else {
                &&& next == (ProgramModel { mode: next.mode, ..self })
                &&& next.mode matches ModeModel::Palette(p)
                &&& offers(p.items, &self.bindings)
                &&& p.edit == (crate::views::edit::EditModel { text: Seq::empty(), cursor: 0 })
                &&& p.selected == Some(0int)
            },
        }
    }

    /// What the action asks of the host.
    pub open spec fn request(action: Action) -> Option<ExternalAction> {
        match action {
            Action::Quit => Some(ExternalAction::Quit),
            Action::Write => Some(ExternalAction::Write),
            Action::Read => Some(ExternalAction::Read),
            Action::DumpState => Some(ExternalAction::DumpState),
            _ => None,
        }
    }

    /// Whether `next` and `request` are what the input `i` makes of the
    /// editor and asks of the host.
    ///
    /// While the sheet is shown, the input joins the pending ones; together
    /// they are looked up in the bindings. What is not bound is dropped; a
    /// chord waits for more; an action is done. While a cell is edited or
    /// the palette is open the input goes there; a text handed in goes into
    /// the selected cell, if the grid has it, and an action chosen is done.
    /// Any input closes the log view.
    pub open spec fn takes(
        self,
        i: Input,
        next: ProgramModel,
        request: Option<ExternalAction>,
    ) -> bool {
        let at = self.selection;
        &&& next.redraw
        &&& match self.mode {
            ModeModel::Normal => match self.bindings.spec_get(self.pending.push(i)) {
                None => request is None && next == (ProgramModel {
                    pending: Seq::empty(),
                    redraw: true,
                    ..self
                }),
                Some(BindNode::Chord { .. }) => request is None && next == (ProgramModel {
                    pending: self.pending.push(i),
                    redraw: true,
                    ..self
                }),
                Some(BindNode::Action(a)) => request == Self::request(a) && (ProgramModel {
                    pending: Seq::empty(),
                    ..self
                }).acts(a, ProgramModel { redraw: self.redraw, ..next }),
            },
            ModeModel::EditCell(e) => request is None && next == (match EditAction::of_input(i) {
                None => ProgramModel { redraw: true, ..self },
                Some(action) => match e.outcome(action) {
                    None => ProgramModel {
                        mode: ModeModel::EditCell(e.after(action)),
                        redraw: true,
                        ..self
                    },
                    Some(None) => ProgramModel { mode: ModeModel::Normal, redraw: true, ..self },
                    Some(Some(text)) => (ProgramModel {
                        mode: ModeModel::Normal,
                        redraw: true,
                        ..self
                    }).edit(EditModel::SetCell { x: at.x as nat, y: at.y as nat, text }),
                },
            }),
            ModeModel::Palette(p) => match p.outcome(i) {
                None => request is None && next == (ProgramModel {
                    mode: ModeModel::Palette(p.after(i)),
                    redraw: true,
                    ..self
                }),
                Some(None) => request is None && next == (ProgramModel {
                    mode: ModeModel::Normal,
                    redraw: true,
                    ..self
                }),
                Some(Some(a)) => request == Self::request(a) && (ProgramModel {
                    mode: ModeModel::Normal,
                    redraw: true,
                    ..self
                }).acts(a, next),
            },
            ModeModel::Debug => request is None && next == (ProgramModel {
                mode: ModeModel::Normal,
                redraw: true,
                ..self
            }),
        }
    }
}

/// The state of the editor.
#[derive(Debug)]
pub struct Program {
    view: ViewState,
    grid: Grid,
    grid_state: TableState,
    change_tracker: ChangeTracker,
    filename: String,
    /// Store chorded keys
    input_buf: InputBuffer,
    selection: XY<usize>,
    bindings: Bindings<Action>,
    should_redraw: bool,
    /// Result of latest action to display to user
    status_msg: Option<Status>,
}

impl View for Program {
    type V = ProgramModel;

    closed spec fn view(&self) -> ProgramModel {
        ProgramModel {
            mode: self.view@,
            session: SessionModel { grid: self.grid@, history: self.change_tracker@ },
            selection: self.selection,
            scroll: self.grid_state.scroll(),
            visible: self.grid_state.visible_cells(),
            marked: self.grid_state.selected(),
            marked_area: self.grid_state.selected_area(),
            pending: self.input_buf@,
            bindings: self.bindings,
            redraw: self.should_redraw,
            status: match self.status_msg {
                Some(s) => Some(s@),
                None => None,
            },
            filename: self.filename@,
        }
    }
}

impl Program {
    /// The parts of the editor are well formed, and the log belongs to the
    /// grid.
    pub closed spec fn wf(&self) -> bool {
        &&& self.view.wf()
        &&& self.grid.wf()
        &&& self.change_tracker.wf()
        &&& self.bindings.wf()
        &&& self@.session.sound()
    }

    /// The editor of the file `filename` that holds `records`, with the
    /// bindings that the editor starts with. Nothing can be undone yet:
    /// the first reading is no edit.
    pub fn from_path(filename: String, records: Vec<Vec<String>>) -> (r: Result<Self, GridError>)
        ensures
            r is Ok <==> forall|i: int|
                0 <= i < records@.len() ==> (#[trigger] records@[i])@.len() == records@[0]@.len(),
            r matches Ok(p) ==> {
                &&& p.wf()
                &&& p@.mode is Normal
                &&& p@.session.grid.rows == Seq::new(
                    records@.len(),
                    |i: int| crate::grid::texts(records@[i]@),
                )
                &&& p@.session.grid.width == (if records@.len() == 0 {
                    0
                } else {
                    records@[0]@.len()
                })
                &&& p@.session.history.undos.len() == 0
                &&& p@.session.history.redos.len() == 0
                &&& p@.selection == (XY::<usize> { x: 0, y: 0 })
                &&& p@.scroll == (XY::<usize> { x: 0, y: 0 })
                &&& p@.visible == (XY::<usize> { x: 0, y: 0 })
                &&& p@.marked is None
                &&& p@.marked_area is None
                &&& p@.pending.len() == 0
                &&& is_default(&p@.bindings)
                &&& !p@.redraw
                &&& p@.status is None
                &&& p@.filename == filename@
            },
    {
        match Grid::from_csv(records) {
            Err(e) => Err(e),
            Ok(grid) => Ok(
                Program {
                    view: ViewState::Normal,
                    grid,
                    grid_state: TableState::default(),
                    change_tracker: ChangeTracker::default(),
                    filename,
                    input_buf: InputBuffer::new(),
                    selection: XY { x: 0, y: 0 },
                    bindings: Bindings::default(),
                    should_redraw: false,
                    status_msg: None,
                },
            ),
        }
    }

    /// What the editor is busy with.
    pub fn view_state(&self) -> (v: &ViewState)
        ensures
            v@ == self@.mode,
    {
        &self.view
    }

    /// The grid.
    pub fn grid(&self) -> (g: &Grid)
        requires
            self.wf(),
        ensures
            g.wf(),
            g@ == self@.session.grid,
    {
        &self.grid
    }

    /// The cell selected.
    pub fn selection(&self) -> (at: XY<usize>)
        ensures
            at == self@.selection,
    {
        self.selection
    }

    /// Selects the cell at `at`, which need not be a cell of the grid.
    pub fn set_selection(&mut self, at: XY<usize>)
        requires
            old(self).wf(),
        ensures
            final(self).wf(),
            final(self)@ == old(self)@.select(at),
    {
        self.selection = at;
    }

    /// The state of the view of the grid.
    pub fn grid_state(&self) -> (s: &TableState)
        ensures
            s.scroll() == self@.scroll,
            s.visible_cells() == self@.visible,
            s.selected() == self@.marked,
            s.selected_area() == self@.marked_area,
    {
        &self.grid_state
    }

    /// The inputs of a chord that is not complete yet.
    pub fn input_buf(&self) -> (b: &InputBuffer)
        ensures
            b@ == self@.pending,
    {
        &self.input_buf
    }

    /// The bindings that inputs are resolved with.
    pub fn bindings(&self) -> (b: &Bindings<Action>)
        requires
            self.wf(),
        ensures
            b.wf(),
            *b == self@.bindings,
    {
        &self.bindings
    }

    /// The name of the file.
    pub fn filename(&self) -> (name: &String)
        ensures
            name@ == self@.filename,
    {
        &self.filename
    }

    /// What the last action has to tell the user.
    pub fn status(&self) -> (s: Option<&Status>)
        ensures
            match s {
                Some(s) => self@.status == Some(s@),
                None => self@.status is None,
            },
    {
        self.status_msg.as_ref()
    }

    /// Whether the screen is out of date.
    pub fn should_redraw(&self) -> (b: bool)
        ensures
            b == self@.redraw,
    {
        self.should_redraw
    }

    /// Moves the selection one cell on.
    fn handle_move(&mut self, m: Direction)
        requires
            old(self).wf(),
        ensures
            final(self).wf(),
            final(self)@ == old(self)@.select(old(self)@.moved(m)),
    {
        let XY { x, y } = self.selection;
        let s = match m {
            Direction::Up => XY { x, y: y.saturating_sub(1) },
            Direction::Down => XY { x, y: y.saturating_add(1) },
            Direction::Left => XY { x: x.saturating_sub(1), y },
            Direction::Right => XY { x: x.saturating_add(1), y },
        };
        self.selection = s;
    }

    /// Moves the selection, and the view with it, as far on as the view
    /// showed cells last.
    fn handle_jump(&mut self, m: Direction)
        requires
            old(self).wf(),
        ensures
            final(self).wf(),
            final(self)@ == (ProgramModel {
                selection: old(self)@.jumped(m),
                scroll: old(self)@.scrolled(m),
                ..old(self)@
            }),
    {
        let XY { x, y } = self.selection;
        let XY { x: scroll_x, y: scroll_y } = self.grid_state.scroll();
        let XY { x: width, y: height } = self.grid_state.visible_cells();
        match m {
            Direction::Up => {
                self.selection = XY { x, y: y.saturating_sub(height) };
                self.grid_state.set_scroll(XY { x: scroll_x, y: scroll_y.saturating_sub(height) });
            },
            Direction::Down => {
                self.selection = XY { x, y: y.saturating_add(height) };
                self.grid_state.set_scroll(XY { x: scroll_x, y: scroll_y.saturating_add(height) });
            },
            Direction::Left => {
                self.selection = XY { x: x.saturating_sub(width), y };
                self.grid_state.set_scroll(XY { x: scroll_x.saturating_sub(width), y: scroll_y });
            },
            Direction::Right => {
                self.selection = XY { x: x.saturating_add(width), y };
                self.grid_state.set_scroll(XY { x: scroll_x.saturating_add(width), y: scroll_y });
            },
        }
    }

    /// Notes what the last action has to tell the user.
    fn set_status(&mut self, status: Status)
        requires
            old(self).wf(),
        ensures
            final(self).wf(),
            final(self)@ == (ProgramModel { status: Some(status@), ..old(self)@ }),
    {
        self.status_msg = Some(status);
    }

    /// Forgets what the last action had to tell the user.
    fn clear_status(&mut self)
        requires
            old(self).wf(),
        ensures
            final(self).wf(),
            final(self)@ == (ProgramModel { status: None, ..old(self)@ }),
    {
        self.status_msg = None;
    }
}

impl Program {
    /// Edits the cell selected, if the grid has it, and records the change.
    fn put(&mut self, contents: String)
        requires
            old(self).wf(),
        ensures
            final(self).wf(),
            final(self)@ == old(self)@.edit(
                EditModel::SetCell {
                    x: old(self)@.selection.x as nat,
                    y: old(self)@.selection.y as nat,
                    text: contents@,
                },
            ),
    {
        if self.grid.is_in(self.selection) {
            proof {
                lemma_edit_keeps_sound(
                    self@.session,
                    EditModel::SetCell {
                        x: self.selection.x as nat,
                        y: self.selection.y as nat,
                        text: contents@,
                    },
                );
            }
            let change = self.grid.edit(self.selection, contents);
            change.track(&mut self.change_tracker);
        }
    }

    /// Does what `action` says, as far as the editor can do it by itself,
    /// and hands back what is left for the host to do: see
    /// [`ProgramModel::acts`] and [`ProgramModel::request`].
    pub fn handle_action(&mut self, action: Action) -> (request: Option<ExternalAction>)
        requires
            old(self).wf(),
        ensures
            final(self).wf(),
            old(self)@.acts(action, final(self)@),
            request == ProgramModel::request(action),
    {
        let at = self.selection;
        let size = self.grid.size();
        match action {
            Action::Quit => {
                return Some(ExternalAction::Quit);
            },
            Action::Write => {
                return Some(ExternalAction::Write);
            },
            Action::Read => {
                return Some(ExternalAction::Read);
            },
            Action::DumpState => {
                return Some(ExternalAction::DumpState);
            },
            Action::GoTo => {},
            Action::Move(d) => self.handle_move(d),
            Action::Jump(d) => self.handle_jump(d),
            Action::Home => {
                self.selection = XY { x: 0, y: 0 };
            },
            Action::End => {
                self.selection = XY { x: size.x.saturating_sub(1), y: size.y.saturating_sub(1) };
            },
            Action::HomeRow => {
                self.selection = XY { x: 0, y: at.y };
            },
            Action::EndRow => {
                self.selection = XY { x: size.x.saturating_sub(1), y: at.y };
            },
            Action::HomeCol => {
                self.selection = XY { x: at.x, y: 0 };
            },
            Action::EndCol => {
                self.selection = XY { x: at.x, y: size.y.saturating_sub(1) };
            },
            Action::Edit => {
                let editor = match self.grid.get(at) {
                    Some(text) => Some(EditState::from_str(text.as_str())),
                    None => None,
                };
                if let Some(editor) = editor {
                    self.view = ViewState::EditCell(editor);
                    self.clear_status();
                }
            },
            Action::Replace => {
                self.view = ViewState::EditCell(EditState::default());
                self.clear_status();
            },
            Action::Clear => self.put(String::new()),
            Action::InsertRow => {
                if at.y <= size.y {
                    proof {
                        lemma_edit_keeps_sound(
                            self@.session,
                            EditModel::InsertRow { row: at.y as nat, contents: Seq::empty() },
                        );
                    }
                    let contents: Vec<String> = Vec::new();
                    assert(crate::grid::texts(contents@) =~= Seq::empty());
                    let change = self.grid.insert_row(at.y, contents);
                    change.track(&mut self.change_tracker);
                }
            },
            Action::InsertCol => {
                if at.x <= size.x && size.x < usize::MAX {
                    proof {
                        lemma_edit_keeps_sound(
                            self@.session,
                            EditModel::InsertCol { col: at.x as nat, contents: Seq::empty() },
                        );
                    }
                    let contents: Vec<String> = Vec::new();
                    assert(crate::grid::texts(contents@) =~= Seq::empty());
                    let change = self.grid.insert_col(at.x, contents);
                    change.track(&mut self.change_tracker);
                }
            },
            Action::DeleteRow => {
                if at.y < size.y {
                    proof {
                        lemma_edit_keeps_sound(
                            self@.session,
                            EditModel::DeleteRow { row: at.y as nat },
                        );
                    }
                    let change = self.grid.delete_row(at.y);
                    change.track(&mut self.change_tracker);
                }
            },
            Action::DeleteCol => {
                if at.x < size.x {
                    proof {
                        lemma_edit_keeps_sound(
                            self@.session,
                            EditModel::DeleteCol { col: at.x as nat },
                        );
                    }
                    let change = self.grid.delete_col(at.x);
                    change.track(&mut self.change_tracker);
                }
            },
            Action::Undo => {
                proof {
                    lemma_undo_keeps_sound(self@.session);
                }
                if self.change_tracker.undo(&mut self.grid).is_none() {
                    self.set_status(Status::UndoLimit);
                }
            },
            Action::Redo => {
                proof {
                    lemma_redo_keeps_sound(self@.session);
                }
                if self.change_tracker.redo(&mut self.grid).is_none() {
                    self.set_status(Status::RedoLimit);
                }
            },
            Action::ToggleDebug => {
                let debug = match self.view {
                    ViewState::Debug => true,
                    _ => false,
                };
                self.view = if debug {
                    ViewState::Normal
                } else {
                    ViewState::Debug
                };
            },
            Action::TogglePalette => {
                let open = match self.view {
                    ViewState::Palette(_) => true,
                    _ => false,
                };
                self.view = if open {
                    ViewState::Normal
                } else {
                    ViewState::Palette(PaletteState::new(&self.bindings))
                };
            },
        }
        None
    }

    /// Resolves the input `i` while the sheet is shown.
    fn handle_input_normal(&mut self, i: Input) -> (request: Option<ExternalAction>)
        requires
            old(self).wf(),
            old(self)@.mode is Normal,
        ensures
            final(self).wf(),
            old(self)@.takes(i, ProgramModel { redraw: true, ..final(self)@ }, request),
            final(self)@.redraw == old(self)@.redraw,
    {
        self.input_buf.push(i);
        let found = match self.bindings.get(self.input_buf.as_slice()) {
            None => None,
            Some(BindNode::Chord { .. }) => {
                return None;
            },
            Some(BindNode::Action(a)) => Some(*a),
        };
        self.input_buf.clear();
        match found {
            None => None,
            Some(action) => self.handle_action(action),
        }
    }

    /// Takes the input `i` and does what it means now: see
    /// [`ProgramModel::takes`]. What is left for the host to do is handed
    /// back.
    pub fn handle_input(&mut self, i: Input) -> (request: Option<ExternalAction>)
        requires
            old(self).wf(),
        ensures
            final(self).wf(),
            old(self)@.takes(i, final(self)@, request),
    {
        let request = match &mut self.view {
            ViewState::Normal => self.handle_input_normal(i),
            ViewState::EditCell(state) => {
                let flow = state.handle_input(i);
                if let ControlFlow::Break(o) = flow {
                    self.view = ViewState::Normal;
                    if let Some(new_contents) = o {
                        self.put(new_contents);
                    }
                }
                None
            },
            ViewState::Palette(state) => {
                let flow = state.handle_input(i);
                if let ControlFlow::Break(o) = flow {
                    self.view = ViewState::Normal;
                    if let Some(action) = o {
                        self.should_redraw = true;
                        return self.handle_action(action);
                    }
                }
                None
            },
            ViewState::Debug => {
                self.view = ViewState::Normal;
                None
            },
        };
        self.should_redraw = true;
        request
    }

    /// Notes how the writing of the file went.
    pub fn finish_write(&mut self, result: Result<(), String>)
        requires
            old(self).wf(),
        ensures
            final(self).wf(),
            final(self)@ == (ProgramModel {
                status: Some(
                    StatusModel::Write(
                        old(self)@.filename,
                        match result {
                            Ok(_) => Ok(()),
                            Err(e) => Err(e@),
                        },
                    ),
                ),
                ..old(self)@
            }),
    {
        let name = self.filename.clone();
        self.set_status(Status::Write(name, result));
    }

    /// Takes in what the reading of the file gave: the records become the
    /// grid, as an edit that can be undone, unless they have unequal
    /// lengths; and notes how the reading went.
    pub fn finish_read(&mut self, result: Result<Vec<Vec<String>>, String>)
        requires
            old(self).wf(),
        ensures
            final(self).wf(),
            match result {
                Ok(records) => if forall|i: int|
                    0 <= i < records@.len() ==> (#[trigger] records@[i])@.len()
                        == records@[0]@.len() {
                    &&& final(self)@.session.grid.rows == Seq::new(
                        records@.len(),
                        |i: int| crate::grid::texts(records@[i]@),
                    )
                    &&& final(self)@.session.grid.width == (if records@.len() == 0 {
                        0
                    } else {
                        records@[0]@.len()
                    })
                    &&& final(self)@ == (ProgramModel {
                        session: old(self)@.session.edit(
                            EditModel::ReplaceGrid { new: final(self)@.session.grid },
                        ),
                        status: Some(StatusModel::Read(old(self)@.filename, Ok(()))),
                        ..old(self)@
                    })
                } else {
                    final(self)@ == (ProgramModel {
                        status: Some(
                            StatusModel::Read(
                                old(self)@.filename,
                                Err("records of unequal lengths"@),
                            ),
                        ),
                        ..old(self)@
                    })
                },
                Err(e) => final(self)@ == (ProgramModel {
                    status: Some(StatusModel::Read(old(self)@.filename, Err(e@))),
                    ..old(self)@
                }),
            },
    {
        let name = self.filename.clone();
        match result {
            Ok(records) => match Grid::from_csv(records) {
                Ok(new) => {
                    proof {
                        lemma_edit_keeps_sound(
                            self@.session,
                            EditModel::ReplaceGrid { new: new@ },
                        );
                    }
                    let change = self.grid.replace(new);
                    change.track(&mut self.change_tracker);
                    self.set_status(Status::Read(name, Ok(())));
                },
                Err(_) => {
                    self.set_status(
                        Status::Read(name, Err(String::from_str("records of unequal lengths"))),
                    );
                },
            },
            Err(e) => {
                self.set_status(Status::Read(name, Err(e)));
            },
        }
    }

    /// Notes how the storing of the state went: under which name it was
    /// stored, or why not.
    pub fn finish_dump(&mut self, result: Result<String, String>)
        requires
            old(self).wf(),
        ensures
            final(self).wf(),
            final(self)@ == (ProgramModel {
                status: Some(
                    StatusModel::DumpState(
                        match result {
                            Ok(p) => Ok(p@),
                            Err(e) => Err(e@),
                        },
                    ),
                ),
                ..old(self)@
            }),
    {
        self.set_status(Status::DumpState(result));
    }

    /// Lays the grid out in `area`, with the selection of the editor, and
    /// notes that the screen is up to date. Each column is as wide as its
    /// widest cell, with one space between columns. The widths of the
    /// columns are handed back with what is shown of the grid: see
    /// [`Columns::layout`] and [`Columns::placed`].
    pub fn arrange(&mut self, area: Rect) -> (shown: (Option<TableLayout>, Vec<u16>))
        requires
            old(self).wf(),
            area.x + area.width <= u16::MAX,
            area.y + area.height <= u16::MAX,
        ensures
            final(self).wf(),
            shown.1@.len() == (if old(self)@.session.grid.height() == 0 {
                0
            } else {
                old(self)@.session.grid.width
            }),
            forall|c: int|
                0 <= c < shown.1@.len() ==> (#[trigger] shown.1@[c]) as int == column_width(
                    old(self)@.session.grid,
                    c,
                ),
            shown.0 == (Columns { widths: shown.1@, spacing: 1 }).layout(
                old(self)@.session.grid.height() as int,
                shown.1@.len() as int,
                area,
                old(self)@.scroll,
                Some(old(self)@.selection),
            ),
            final(self)@ == (ProgramModel {
                scroll: final(self)@.scroll,
                visible: final(self)@.visible,
                marked: Some(old(self)@.selection),
                marked_area: final(self)@.marked_area,
                redraw: false,
                ..old(self)@
            }),
            match shown.0 {
                Some(l) => {
                    &&& l.rows.0 <= l.rows.1 <= final(self)@.session.grid.height()
                    &&& l.cols.0 <= l.cols.1 <= final(self)@.session.grid.width
                    &&& final(self)@.scroll == (XY::<usize> { x: l.cols.0, y: l.rows.0 })
                    &&& final(self)@.visible == (XY::<usize> {
                        x: (l.cols.1 - l.cols.0) as usize,
                        y: (l.rows.1 - l.rows.0) as usize,
                    })
                    &&& final(self)@.marked_area == (Columns {
                        widths: shown.1@,
                        spacing: 1,
                    }).placed(area, l, Some(old(self)@.selection), old(self)@.marked_area)
                },
                None => final(self)@.scroll == old(self)@.scroll && final(self)@.visible
                    == old(self)@.visible && final(self)@.marked_area == old(self)@.marked_area,
            },
    {
        self.grid_state.select(Some(self.selection));
        let widths = GridView::new(&self.grid).widths();
        let cells = self.grid.cells();
        let table = Table::new(cells).with_widths(widths.as_slice());
        let shown = table.layout(area, &mut self.grid_state);
        proof {
            if self.grid@.height() > 0 {
                assert(crate::grid::texts(cells@[0]@) == self.grid@.rows[0]);
            }
        }
        self.should_redraw = false;
        (shown, widths)
    }
}

} // verus!
