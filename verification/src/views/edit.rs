//! The line editor that edits the text of one cell.
use std::ops::ControlFlow;
use vstd::prelude::*;

use crate::bindings::{BindNode, Bindings};
use crate::geometry::{Rect, XY};
use crate::input::{Input, KeyCode};
use crate::program::Direction;
use crate::text::{chars_of, string_of};

verus! {

/// What the line editor can be told to do.
#[derive(Debug, Copy, Clone, PartialEq, Eq, Structural)]
pub enum EditAction {
    Char(char),
    Backspace,
    Delete,
    Enter,
    Move(Direction),
    Cancel,
    Submit,
    Jump(Direction),
}

impl EditAction {
    /// The action that the key `code`, pressed without modifiers, is bound
    /// to in the line editor.
    pub open spec fn of_code(code: KeyCode) -> Option<EditAction> {
        match code {
            KeyCode::Esc => Some(EditAction::Cancel),
            KeyCode::Enter => Some(EditAction::Enter),
            KeyCode::Backspace => Some(EditAction::Backspace),
            KeyCode::Delete => Some(EditAction::Delete),
            KeyCode::Left => Some(EditAction::Move(Direction::Left)),
            KeyCode::Right => Some(EditAction::Move(Direction::Right)),
            KeyCode::Up => Some(EditAction::Move(Direction::Up)),
            KeyCode::Down => Some(EditAction::Move(Direction::Down)),
            KeyCode::Home => Some(EditAction::Jump(Direction::Left)),
            KeyCode::End => Some(EditAction::Jump(Direction::Right)),
            _ => None,
        }
    }

    /// The action that an input means to the line editor: a character is
    /// typed, whatever the modifiers; any other key does what it is bound
    /// to, which is nothing when modifiers are held.
    pub open spec fn of_input(key: Input) -> Option<EditAction> {
        match key.0 {
            KeyCode::Char(c) => Some(EditAction::Char(c)),
            code => if key.1.bits == 0 {
                EditAction::of_code(code)
            } else {
                None
            },
        }
    }

    /// The bindings of the line editor: single keys, without chords.
    pub fn bindings() -> (b: Bindings<EditAction>)
        ensures
            b.wf(),
            forall|p: Seq<Input>|
                #[trigger] b.spec_get(p) == (if p.len() > 0 && p[0].1.bits == 0 {
                    match EditAction::of_code(p[0].0) {
                        Some(a) => Some(BindNode::Action(a)),
                        None => None,
                    }
                } else {
                    None
                }),
    {
        let mut b = Bindings::empty();
        let r = b.insert(Input::from_code(KeyCode::Esc), EditAction::Cancel);
        let r = b.insert(Input::from_code(KeyCode::Enter), EditAction::Enter);
        let r = b.insert(Input::from_code(KeyCode::Backspace), EditAction::Backspace);
        let r = b.insert(Input::from_code(KeyCode::Delete), EditAction::Delete);
        let r = b.insert(Input::from_code(KeyCode::Left), EditAction::Move(Direction::Left));
        let r = b.insert(Input::from_code(KeyCode::Right), EditAction::Move(Direction::Right));
        let r = b.insert(Input::from_code(KeyCode::Up), EditAction::Move(Direction::Up));
        let r = b.insert(Input::from_code(KeyCode::Down), EditAction::Move(Direction::Down));
        let r = b.insert(Input::from_code(KeyCode::Home), EditAction::Jump(Direction::Left));
        let r = b.insert(Input::from_code(KeyCode::End), EditAction::Jump(Direction::Right));
        b
    }
}

/// What the line editor holds, as mathematics: the text, and the cursor as
/// the number of characters before it.
pub struct EditModel {
    pub text: Seq<char>,
    pub cursor: int,
}

impl EditModel {
    /// What an action makes of the line editor.
    pub open spec fn after(self, action: EditAction) -> EditModel {
        match action {
            EditAction::Cancel => self,
            EditAction::Submit | EditAction::Enter => EditModel { text: Seq::empty(), cursor: 0 },
            EditAction::Backspace => if self.cursor > 0 {
                EditModel { text: self.text.remove(self.cursor - 1), cursor: self.cursor - 1 }
            } else {
                self
            },
            EditAction::Delete => if self.cursor < self.text.len() {
                EditModel { text: self.text.remove(self.cursor), cursor: self.cursor }
            } else {
                self
            },
            EditAction::Move(Direction::Left) => if self.cursor > 0 {
                EditModel { text: self.text, cursor: self.cursor - 1 }
            } else {
                self
            },
            EditAction::Move(Direction::Right) => if self.cursor < self.text.len() {
                EditModel { text: self.text, cursor: self.cursor + 1 }
            } else {
                self
            },
            EditAction::Move(Direction::Up) | EditAction::Jump(Direction::Up) | EditAction::Jump(
                Direction::Left,
            ) => EditModel { text: self.text, cursor: 0 },
            EditAction::Move(Direction::Down) | EditAction::Jump(Direction::Down)
            | EditAction::Jump(Direction::Right) => EditModel {
                text: self.text,
                cursor: self.text.len() as int,
            },
            EditAction::Char(c) => EditModel {
                text: self.text.insert(self.cursor, c),
                cursor: self.cursor + 1,
            },
        }
    }

    /// What an action ends the editing with, if it ends it: nothing where
    /// the editing is given up, the text where it is handed in.
    pub open spec fn outcome(self, action: EditAction) -> Option<Option<Seq<char>>> {
        match action {
            EditAction::Cancel => Some(None),
            EditAction::Submit | EditAction::Enter => Some(Some(self.text)),
            _ => None,
        }
    }
}

/// The state of the line editor: the text, and the cursor within it.
#[derive(Debug, Clone)]
pub struct EditState {
    buffer: Vec<char>,
    /// [0, buffer.len()]
    cursor: usize,
}

impl View for EditState {
    type V = EditModel;

    closed spec fn view(&self) -> EditModel {
        EditModel { text: self.buffer@, cursor: self.cursor as int }
    }
}

impl Default for EditState {
    /// The editor of an empty text.
    fn default() -> (s: EditState)
        ensures
            s.wf(),
            s@.text == Seq::<char>::empty(),
            s@.cursor == 0,
    {
        EditState { buffer: Vec::new(), cursor: 0 }
    }
}

/// What a result of the line editor says, put in terms of texts.
pub open spec fn flow_model(flow: ControlFlow<Option<String>>) -> Option<Option<Seq<char>>> {
    match flow {
        ControlFlow::Continue(_) => None,
        ControlFlow::Break(None) => Some(None),
        ControlFlow::Break(Some(s)) => Some(Some(s@)),
    }
}

impl EditState {
    /// The cursor lies within the text or right after it.
    pub open spec fn wf(&self) -> bool {
        0 <= self@.cursor <= self@.text.len()
    }

    /// The editor of the text `s`, with the cursor after the text.
    pub fn from_str(s: &str) -> (e: Self)
        ensures
            e.wf(),
            e@.text == s@,
            e@.cursor == s@.len(),
    {
        let buffer = chars_of(s);
        Self { cursor: buffer.len(), buffer }
    }

    /// The text being edited
    pub fn contents(&self) -> (s: String)
        ensures
            s@ == self@.text,
    {
        string_of(&self.buffer)
    }

    /// Remove the character right of the cursor.
    pub fn pop_char_right(&mut self)
        requires
            old(self).wf(),
        ensures
            final(self).wf(),
            final(self)@ == old(self)@.after(EditAction::Delete),
    {
        if self.cursor >= self.buffer.len() {
            return ;
        }
        self.buffer.remove(self.cursor);
    }

    /// Remove the character left of the cursor.
    pub fn pop_char_left(&mut self)
        requires
            old(self).wf(),
        ensures
            final(self).wf(),
            final(self)@ == old(self)@.after(EditAction::Backspace),
    {
        if self.cursor == 0 {
            return ;
        }
        self.buffer.remove(self.cursor - 1);
        self.cursor -= 1;
    }

    /// Insert a character at the current position.
    pub fn insert_char(&mut self, c: char)
        requires
            old(self).wf(),
        ensures
            final(self).wf(),
            final(self)@ == old(self)@.after(EditAction::Char(c)),
    {
        self.buffer.insert(self.cursor, c);
        assert(self.buffer@.len() == self.buffer.len());
        self.cursor += 1;
    }

    /// Moves the cursor one character to the left, if there is one.
    pub fn move_left(&mut self)
        requires
            old(self).wf(),
        ensures
            final(self).wf(),
            final(self)@ == old(self)@.after(EditAction::Move(Direction::Left)),
    {
        if self.cursor == 0 {
            return ;
        }
        self.cursor -= 1;
    }

    /// Moves the cursor one character to the right, if there is one.
    pub fn move_right(&mut self)
        requires
            old(self).wf(),
        ensures
            final(self).wf(),
            final(self)@ == old(self)@.after(EditAction::Move(Direction::Right)),
    {
        if self.cursor >= self.buffer.len() {
            return ;
        }
        self.cursor += 1;
    }

    /// Moves the cursor before the text.
    pub fn move_beginning(&mut self)
        requires
            old(self).wf(),
        ensures
            final(self).wf(),
            final(self)@ == old(self)@.after(EditAction::Jump(Direction::Left)),
    {
        self.cursor = 0;
    }

    /// Moves the cursor after the text.
    pub fn move_end(&mut self)
        requires
            old(self).wf(),
        ensures
            final(self).wf(),
            final(self)@ == old(self)@.after(EditAction::Jump(Direction::Right)),
    {
        self.cursor = self.buffer.len();
    }

    /// Remove the contents as a string. The editor is left with an empty
    /// text.
    pub fn take(&mut self) -> (s: String)
        ensures
            s@ == old(self)@.text,
            final(self).wf(),
            final(self)@ == old(self)@.after(EditAction::Submit),
    {
        let s = string_of(&self.buffer);
        self.buffer.clear();
        self.cursor = 0;
        s
    }

    /// Position of the editing cursor if the view is laid out in `area`:
    /// as many cells right of the area's corner as characters lie before
    /// the cursor, but never beyond the last column that can be named.
    pub fn cursor(&self, area: Rect) -> (at: XY<u16>)
        ensures
            at.y == area.y,
            at.x == (if area.x + self@.cursor <= u16::MAX {
                area.x + self@.cursor
            } else {
                u16::MAX as int
            }),
    {
        let room = (u16::MAX - area.x) as usize;
        let x = if self.cursor <= room {
            area.x + self.cursor as u16
        } else {
            u16::MAX
        };
        XY { x, y: area.y }
    }

    /// Does what `action` says: see [`EditModel::after`]. The result says
    /// whether the editing goes on, and what it ended with if not.
    pub fn handle_action(&mut self, action: EditAction) -> (flow: ControlFlow<Option<String>>)
        requires
            old(self).wf(),
        ensures
            final(self).wf(),
            final(self)@ == old(self)@.after(action),
            flow_model(flow) == old(self)@.outcome(action),
    {
        match action {
            EditAction::Cancel => {
                return ControlFlow::Break(None);
            },
            EditAction::Submit | EditAction::Enter => {
                return ControlFlow::Break(Some(self.take()));
            },
            EditAction::Backspace => self.pop_char_left(),
            EditAction::Delete => self.pop_char_right(),
            EditAction::Move(Direction::Left) => self.move_left(),
            EditAction::Move(Direction::Right) => self.move_right(),
            EditAction::Move(Direction::Up) | EditAction::Jump(Direction::Up) | EditAction::Jump(
                Direction::Left,
            ) => self.move_beginning(),
            EditAction::Move(Direction::Down) | EditAction::Jump(Direction::Down)
            | EditAction::Jump(Direction::Right) => self.move_end(),
            EditAction::Char(c) => self.insert_char(c),
        }
        ControlFlow::Continue(())
    }

    /// Does what the input `key` means to the line editor, if it means
    /// anything: see [`EditAction::of_input`].
    pub fn handle_input(&mut self, key: Input) -> (flow: ControlFlow<Option<String>>)
        requires
            old(self).wf(),
        ensures
            final(self).wf(),
            match EditAction::of_input(key) {
                Some(action) => final(self)@ == old(self)@.after(action) && flow_model(flow)
                    == old(self)@.outcome(action),
                None => final(self)@ == old(self)@ && flow_model(flow) is None,
            },
    {
        let action = match key.0 {
            KeyCode::Char(c) => EditAction::Char(c),
            _ => {
                let bindings = EditAction::bindings();
                assert(seq![key][0] == key);
                match bindings.get_single(key) {
                    Some(a) => *a,
                    None => {
                        return ControlFlow::Continue(());
                    },
                }
            },
        };
        self.handle_action(action)
    }
}

impl crate::views::Dialog<Input> for EditState {
    type Output = Option<String>;

    open spec fn ready(&self) -> bool {
        self.wf()
    }

    open spec fn steps(&self, input: Input, next: &Self, flow: ControlFlow<Option<String>>) -> bool {
        match EditAction::of_input(input) {
            Some(action) => next@ == self@.after(action) && flow_model(flow) == self@.outcome(
                action,
            ),
            None => next@ == self@ && flow_model(flow) is None,
        }
    }

    fn handle_input(&mut self, input: Input) -> (flow: ControlFlow<Option<String>>) {
        EditState::handle_input(self, input)
    }
}

impl crate::views::Dialog<EditAction> for EditState {
    type Output = Option<String>;

    open spec fn ready(&self) -> bool {
        self.wf()
    }

    open spec fn steps(
        &self,
        input: EditAction,
        next: &Self,
        flow: ControlFlow<Option<String>>,
    ) -> bool {
        next@ == self@.after(input) && flow_model(flow) == self@.outcome(input)
    }

    fn handle_input(&mut self, input: EditAction) -> (flow: ControlFlow<Option<String>>) {
        self.handle_action(input)
    }
}

} // verus!
