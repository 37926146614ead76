//! What the editor can be told to do.
use vstd::prelude::*;
use vstd::string::StringExecFns;

verus! {

/// What the editor asks of its host: the part of an action that only the
/// host can do.
#[derive(Debug, Clone, Copy, PartialEq, Eq, Structural)]
pub enum ExternalAction {
    /// End the program.
    Quit,
    /// Write the grid to the file, then report with
    /// [`Program::finish_write`](crate::program::Program::finish_write).
    Write,
    /// Read the file, then report with
    /// [`Program::finish_read`](crate::program::Program::finish_read).
    Read,
    /// Store the state of the program, then report with
    /// [`Program::finish_dump`](crate::program::Program::finish_dump).
    DumpState,
}

/// A direction on the grid.
#[derive(Debug, Copy, Clone, PartialEq, Eq, PartialOrd, Ord, Hash, Structural)]
pub enum Direction {
    Down,
    Left,
    Right,
    Up,
}

/// An action of the editor.
#[derive(Debug, Copy, Clone, PartialEq, Eq, PartialOrd, Ord, Hash, Structural)]
pub enum Action {
    /// Move the cursor
    Move(Direction),
    Jump(Direction),
    GoTo,
    Home,
    End,
    HomeCol,
    EndCol,
    HomeRow,
    EndRow,
    /// Edit the current cell
    Edit,
    /// Replace the current cell
    Replace,
    /// Clear the current cell
    Clear,
    /// Delete column of current cursor
    DeleteCol,
    /// Delete row of current cursor
    DeleteRow,
    /// Insert column of current cursor
    InsertCol,
    /// Insert row of current cursor
    InsertRow,
    Undo,
    Redo,
    /// Write state to original file
    Write,
    /// Reload the original file, dropping any unsaved changes
    Read,
    /// Quit the program
    Quit,
    ToggleDebug,
    DumpState,
    TogglePalette,
}

impl Direction {
    /// The place of the direction among the four.
    pub open spec fn index(self) -> int {
        match self {
            Direction::Down => 0,
            Direction::Left => 1,
            Direction::Right => 2,
            Direction::Up => 3,
        }
    }
}

impl Action {
    /// The number of actions.
    pub const COUNT: usize = 30;

    /// The place of the action among all actions, in the order in which
    /// they are declared.
    pub open spec fn index(self) -> int {
        match self {
            Action::Move(d) => d.index(),
            Action::Jump(d) => 4 + d.index(),
            Action::GoTo => 8,
            Action::Home => 9,
            Action::End => 10,
            Action::HomeCol => 11,
            Action::EndCol => 12,
            Action::HomeRow => 13,
            Action::EndRow => 14,
            Action::Edit => 15,
            Action::Replace => 16,
            Action::Clear => 17,
            Action::DeleteCol => 18,
            Action::DeleteRow => 19,
            Action::InsertCol => 20,
            Action::InsertRow => 21,
            Action::Undo => 22,
            Action::Redo => 23,
            Action::Write => 24,
            Action::Read => 25,
            Action::Quit => 26,
            Action::ToggleDebug => 27,
            Action::DumpState => 28,
            Action::TogglePalette => 29,
        }
    }

    /// What the action is called towards the user: what it does, where that
    /// is written down, and else its name.
    pub open spec fn spec_desc(self) -> Seq<char> {
        match self {
            Action::Move(_) => "Move the cursor"@,
            Action::Jump(_) => "Jump"@,
            Action::GoTo => "GoTo"@,
            Action::Home => "Home"@,
            Action::End => "End"@,
            Action::HomeCol => "HomeCol"@,
            Action::EndCol => "EndCol"@,
            Action::HomeRow => "HomeRow"@,
            Action::EndRow => "EndRow"@,
            Action::Edit => "Edit the current cell"@,
            Action::Replace => "Replace the current cell"@,
            Action::Clear => "Clear the current cell"@,
            Action::DeleteCol => "Delete column of current cursor"@,
            Action::DeleteRow => "Delete row of current cursor"@,
            Action::InsertCol => "Insert column of current cursor"@,
            Action::InsertRow => "Insert row of current cursor"@,
            Action::Undo => "Undo"@,
            Action::Redo => "Redo"@,
            Action::Write => "Write state to original file"@,
            Action::Read => "Reload the original file, dropping any unsaved changes"@,
            Action::Quit => "Quit the program"@,
            Action::ToggleDebug => "ToggleDebug"@,
            Action::DumpState => "DumpState"@,
            Action::TogglePalette => "TogglePalette"@,
        }
    }

    /// What the action is called towards the user.
    pub fn desc(&self) -> (d: &'static str)
        ensures
            d@ == self.spec_desc(),
    {
        match self {
            Action::Move(_) => "Move the cursor",
            Action::Jump(_) => "Jump",
            Action::GoTo => "GoTo",
            Action::Home => "Home",
            Action::End => "End",
            Action::HomeCol => "HomeCol",
            Action::EndCol => "EndCol",
            Action::HomeRow => "HomeRow",
            Action::EndRow => "EndRow",
            Action::Edit => "Edit the current cell",
            Action::Replace => "Replace the current cell",
            Action::Clear => "Clear the current cell",
            Action::DeleteCol => "Delete column of current cursor",
            Action::DeleteRow => "Delete row of current cursor",
            Action::InsertCol => "Insert column of current cursor",
            Action::InsertRow => "Insert row of current cursor",
            Action::Undo => "Undo",
            Action::Redo => "Redo",
            Action::Write => "Write state to original file",
            Action::Read => "Reload the original file, dropping any unsaved changes",
            Action::Quit => "Quit the program",
            Action::ToggleDebug => "ToggleDebug",
            Action::DumpState => "DumpState",
            Action::TogglePalette => "TogglePalette",
        }
    }

    /// Every action, each once, in the order in which they are declared.
    pub fn all() -> (v: Vec<Action>)
        ensures
            v@.len() == Action::COUNT,
            forall|i: int| 0 <= i < v@.len() ==> (#[trigger] v@[i]).index() == i,
            forall|a: Action| 0 <= a.index() < v@.len() && v@[a.index()] == a,
    {
        let mut v: Vec<Action> = Vec::new();
        v.push(Action::Move(Direction::Down));
        v.push(Action::Move(Direction::Left));
        v.push(Action::Move(Direction::Right));
        v.push(Action::Move(Direction::Up));
        v.push(Action::Jump(Direction::Down));
        v.push(Action::Jump(Direction::Left));
        v.push(Action::Jump(Direction::Right));
        v.push(Action::Jump(Direction::Up));
        v.push(Action::GoTo);
        v.push(Action::Home);
        v.push(Action::End);
        v.push(Action::HomeCol);
        v.push(Action::EndCol);
        v.push(Action::HomeRow);
        v.push(Action::EndRow);
        v.push(Action::Edit);
        v.push(Action::Replace);
        v.push(Action::Clear);
        v.push(Action::DeleteCol);
        v.push(Action::DeleteRow);
        v.push(Action::InsertCol);
        v.push(Action::InsertRow);
        v.push(Action::Undo);
        v.push(Action::Redo);
        v.push(Action::Write);
        v.push(Action::Read);
        v.push(Action::Quit);
        v.push(Action::ToggleDebug);
        v.push(Action::DumpState);
        v.push(Action::TogglePalette);
        v
    }
}

/// An action as it is shown in a list: by what it does, where that is
/// written down, and else in full, a direction included.
#[derive(Debug, Clone, Copy)]
pub struct Doc<'a>(pub &'a Action);

impl<'a> Doc<'a> {
    /// What the action is shown as.
    pub open spec fn spec_text(self) -> Seq<char> {
        match *self.0 {
            Action::Jump(Direction::Down) => "Jump(Down)"@,
            Action::Jump(Direction::Left) => "Jump(Left)"@,
            Action::Jump(Direction::Right) => "Jump(Right)"@,
            Action::Jump(Direction::Up) => "Jump(Up)"@,
            a => a.spec_desc(),
        }
    }

    /// What the action is shown as.
    pub fn text(&self) -> (t: &'static str)
        ensures
            t@ == self.spec_text(),
    {
        match self.0 {
            Action::Jump(Direction::Down) => "Jump(Down)",
            Action::Jump(Direction::Left) => "Jump(Left)",
            Action::Jump(Direction::Right) => "Jump(Right)",
            Action::Jump(Direction::Up) => "Jump(Up)",
            a => a.desc(),
        }
    }

    /// What the action is shown as.
    pub fn to_string(&self) -> (s: String)
        ensures
            s@ == self.spec_text(),
    {
        String::from_str(self.text())
    }
}

} // verus!
