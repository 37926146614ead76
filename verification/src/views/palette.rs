//! The command palette: every action of the editor, with the keys that it
//! is bound to, narrowed down by a query that the user types.
use fuzzy_matcher::skim::SkimMatcherV2;
use fuzzy_matcher::FuzzyMatcher;
use std::ops::ControlFlow;
use vstd::prelude::*;

use crate::bindings::{BindNode, Bindings};
use crate::geometry::{Rect, XY};
use crate::input::{Input, InputBuffer, KeyCode, KeyModifiers};
use crate::program::{Action, Doc};
use crate::text::{chars_of, string_of};
use crate::views::grid::text_width;
use crate::views::edit::{EditAction, EditModel, EditState};

verus! {

/// Whether `SkimMatcherV2`, as `Default` makes it, finds the pattern in the
/// choice.
pub uninterp spec fn skim_matches(choice: Seq<char>, pattern: Seq<char>) -> bool;

/// Whether the character is white space to `char::is_whitespace`.
pub uninterp spec fn is_white_space(c: char) -> bool;

/// Asks `SkimMatcherV2::fuzzy_match`, on a matcher that `Default` made,
/// whether it finds `pattern` in `choice`: whether it gives a score. The
/// answer depends on the two texts alone.
#[verifier::external_body]
fn fuzzy_matches(choice: &str, pattern: &str) -> (found: bool)
    ensures
        found == skim_matches(choice@, pattern@),
{
    SkimMatcherV2::default().fuzzy_match(choice, pattern).is_some()
}

/// Asks `char::is_whitespace` whether `c` is white space.
#[verifier::external_body]
fn white_space(c: char) -> (is: bool)
    ensures
        is == is_white_space(c),
{
    c.is_whitespace()
}

/// Whether a text holds nothing but white space.
pub open spec fn is_blank(text: Seq<char>) -> bool {
    forall|i: int| 0 <= i < text.len() ==> is_white_space(#[trigger] text[i])
}

/// Whether every flag of `flags` is set.
pub fn all_set(flags: &Vec<bool>) -> (all: bool)
    ensures
        all == forall|i: int| 0 <= i < flags@.len() ==> flags@[i],
{
    let mut i: usize = 0;
    while i < flags.len()
        invariant
            i <= flags@.len(),
            forall|j: int| 0 <= j < i ==> flags@[j],
        decreases flags@.len() - i,
    {
        if !flags[i] {
            return false;
        }
        i += 1;
    }
    true
}

/// Whether `query` holds nothing but white space.
fn blank(query: &Vec<char>) -> (b: bool)
    ensures
        b == is_blank(query@),
{
    let mut white: Vec<bool> = Vec::new();
    let mut i: usize = 0;
    while i < query.len()
        invariant
            i <= query@.len(),
            white@.len() == i,
            forall|j: int| 0 <= j < i ==> white@[j] == is_white_space(#[trigger] query@[j]),
        decreases query@.len() - i,
    {
        white.push(white_space(query[i]));
        i += 1;
    }
    let all = all_set(&white);
    proof {
        if all {
            assert forall|j: int| 0 <= j < query@.len() implies is_white_space(
                #[trigger] query@[j],
            ) by {
                assert(white@[j]);
            }
        }
        if is_blank(query@) {
            assert forall|j: int| 0 <= j < white@.len() implies white@[j] by {
                assert(is_white_space(query@[j]));
            }
        }
    }
    all
}

/// The places at which `keep` holds `true`, among the first `n`, in
/// rising order.
pub open spec fn kept(keep: Seq<bool>, n: int) -> Seq<int>
    decreases n,
{
    if n <= 0 {
        Seq::empty()
    } else if keep[n - 1] {
        kept(keep, n - 1).push(n - 1)
    } else {
        kept(keep, n - 1)
    }
}

/// What [`kept`] gives: places within the first `n`, each of them kept.
pub proof fn lemma_kept(keep: Seq<bool>, n: int)
    requires
        0 <= n <= keep.len(),
    ensures
        kept(keep, n).len() <= n,
        forall|i: int|
            0 <= i < kept(keep, n).len() ==> 0 <= (#[trigger] kept(keep, n)[i]) < n && keep[kept(
                keep,
                n,
            )[i]],
    decreases n,
{
    if n > 0 {
        lemma_kept(keep, n - 1);
    }
}

/// The places at which `keep` holds `true`, in rising order.
pub fn kept_places(keep: &Vec<bool>) -> (places: Vec<usize>)
    ensures
        places@.len() == kept(keep@, keep@.len() as int).len(),
        forall|i: int|
            0 <= i < places@.len() ==> (#[trigger] places@[i]) as int == kept(
                keep@,
                keep@.len() as int,
            )[i],
{
    let mut places: Vec<usize> = Vec::new();
    let mut n: usize = 0;
    while n < keep.len()
        invariant
            n <= keep@.len(),
            places@.len() == kept(keep@, n as int).len(),
            forall|i: int|
                0 <= i < places@.len() ==> (#[trigger] places@[i]) as int == kept(
                    keep@,
                    n as int,
                )[i],
        decreases keep@.len() - n,
    {
        if keep[n] {
            places.push(n);
        }
        n += 1;
    }
    places
}

/// One line of the palette: an action, and a path of inputs that it is
/// bound to, if it is bound.
pub type Item = (Option<InputBuffer>, Action);

/// What the palette holds, as mathematics.
pub struct PaletteModel {
    /// The actions offered, each with a path of inputs bound to it.
    pub items: Seq<(Option<Seq<Input>>, Action)>,
    /// The query.
    pub edit: EditModel,
    /// The line selected among those that match the query.
    pub selected: Option<int>,
}

impl PaletteModel {
    /// Which items match the query: all of them where the query is blank,
    /// else those whose description the matcher finds the query in.
    pub open spec fn keep(self) -> Seq<bool> {
        Seq::new(
            self.items.len(),
            |i: int|
                is_blank(self.edit.text) || skim_matches(
                    self.items[i].1.spec_desc(),
                    self.edit.text,
                ),
        )
    }

    /// The places of the items that match the query, in rising order.
    pub open spec fn matching(self) -> Seq<int> {
        kept(self.keep(), self.items.len() as int)
    }

    /// The last line of those that match; the first, where none does.
    pub open spec fn bottom(self) -> int {
        if self.matching().len() == 0 {
            0
        } else {
            self.matching().len() - 1
        }
    }

    /// The line selected, which is the first where none is.
    pub open spec fn line(self) -> int {
        match self.selected {
            Some(s) => s,
            None => 0,
        }
    }

    /// The action on the line selected, if there is such a line.
    pub open spec fn chosen(self) -> Option<Action> {
        if 0 <= self.line() < self.matching().len() {
            Some(self.items[self.matching()[self.line()]].1)
        } else {
            None
        }
    }

    /// The palette with another line selected.
    pub open spec fn with_line(self, line: int) -> PaletteModel {
        PaletteModel { items: self.items, edit: self.edit, selected: Some(line) }
    }

    /// What an input makes of the palette. The arrows move the selection
    /// by a line, Control with Home or End to the first or last line; a
    /// character goes into the query and selects the first line again;
    /// Enter changes nothing; every other input goes to the query.
    pub open spec fn after(self, key: Input) -> PaletteModel {
        match key.0 {
            KeyCode::Up => self.with_line(
                if self.line() > 0 {
                    self.line() - 1
                } else {
                    0
                },
            ),
            KeyCode::Down => self.with_line(
                if self.line() + 1 < self.bottom() {
                    self.line() + 1
                } else {
                    self.bottom()
                },
            ),
            KeyCode::Home if key.1.bits == KeyModifiers::CONTROL_BIT => self.with_line(0),
            KeyCode::End if key.1.bits == KeyModifiers::CONTROL_BIT => self.with_line(
                self.bottom(),
            ),
            KeyCode::Enter => self,
            KeyCode::Char(c) => PaletteModel {
                items: self.items,
                edit: self.edit.after(EditAction::Char(c)),
                selected: Some(0),
            },
            _ => match EditAction::of_input(key) {
                Some(action) => PaletteModel {
                    items: self.items,
                    edit: self.edit.after(action),
                    selected: self.selected,
                },
                None => self,
            },
        }
    }

    /// What an input ends the palette with, if it ends it: Enter, with
    /// the action chosen, if any; an input that ends the editing of the
    /// query, with nothing.
    pub open spec fn outcome(self, key: Input) -> Option<Option<Action>> {
        match key.0 {
            KeyCode::Up | KeyCode::Down => None,
            KeyCode::Home if key.1.bits == KeyModifiers::CONTROL_BIT => None,
            KeyCode::End if key.1.bits == KeyModifiers::CONTROL_BIT => None,
            KeyCode::Enter => Some(self.chosen()),
            _ => match EditAction::of_input(key) {
                Some(action) => if self.edit.outcome(action) is Some {
                    Some(None)
                } else {
                    None
                },
                None => None,
            },
        }
    }
}

/// Whether `items` is the list of all actions, in their order, each with a
/// full path of inputs that `bindings` binds to it, or with none where
/// `bindings` binds no path to it.
pub open spec fn offers(items: Seq<(Option<Seq<Input>>, Action)>, bindings: &Bindings<Action>) -> bool {
    &&& items.len() == Action::COUNT
    &&& forall|i: int|
        0 <= i < items.len() ==> {
            &&& (#[trigger] items[i]).1.index() == i
            &&& match items[i].0 {
                Some(path) => bindings.is_action_path(path) && bindings.spec_get(path) == Some(
                    BindNode::Action(items[i].1),
                ),
                None => forall|p: Seq<Input>|
                    bindings.is_action_path(p) ==> #[trigger] bindings.spec_get(p) != Some(
                        BindNode::Action(items[i].1),
                    ),
            }
        }
}

/// The models of the lines of a palette.
pub open spec fn item_models(items: Seq<Item>) -> Seq<(Option<Seq<Input>>, Action)> {
    Seq::new(
        items.len(),
        |i: int|
            (
                match items[i].0 {
                    Some(path) => Some(path@),
                    None => None,
                },
                items[i].1,
            ),
    )
}

/// What a result of the palette says.
pub open spec fn choice_model(flow: ControlFlow<Option<Action>>) -> Option<Option<Action>> {
    match flow {
        ControlFlow::Continue(_) => None,
        ControlFlow::Break(chosen) => Some(chosen),
    }
}

/// The state of the command palette.
#[derive(Debug, Clone)]
pub struct PaletteState {
    items: Vec<Item>,
    edit: EditState,
    list: Option<usize>,
}

impl View for PaletteState {
    type V = PaletteModel;

    closed spec fn view(&self) -> PaletteModel {
        PaletteModel {
            items: item_models(self.items@),
            edit: self.edit@,
            selected: match self.list {
                Some(s) => Some(s as int),
                None => None,
            },
        }
    }
}

impl PaletteState {
    /// The query is well formed.
    pub closed spec fn wf(&self) -> bool {
        self.edit.wf()
    }

    /// The palette of the actions of the editor, with an empty query and
    /// the first line selected.
    pub fn new(bindings: &Bindings<Action>) -> (p: Self)
        requires
            bindings.wf(),
        ensures
            p.wf(),
            offers(p@.items, bindings),
            p@.edit.text == Seq::<char>::empty(),
            p@.edit.cursor == 0,
            p@.selected == Some(0int),
    {
        let items = Self::generate_list(bindings);
        Self { items, list: Some(0), edit: EditState::default() }
    }

    /// Position of the editing cursor if the palette is laid out in
    /// `area`: that of the query, one cell further right and down for the
    /// border.
    pub fn cursor(&self, area: Rect) -> (at: XY<u16>)
        ensures
            at.x == (if area.x + self@.edit.cursor + 1 <= u16::MAX {
                area.x + self@.edit.cursor + 1
            } else {
                u16::MAX as int
            }),
            at.y == (if area.y < u16::MAX {
                area.y + 1
            } else {
                u16::MAX as int
            }),
    {
        let c = self.edit.cursor(area);
        XY {
            x: if c.x < u16::MAX {
                c.x + 1
            } else {
                u16::MAX
            },
            y: if c.y < u16::MAX {
                c.y + 1
            } else {
                u16::MAX
            },
        }
    }

    /// The lines of the palette.
    pub fn items(&self) -> (items: &Vec<Item>)
        ensures
            item_models(items@) == self@.items,
    {
        &self.items
    }

    /// The query.
    pub fn query(&self) -> (q: String)
        ensures
            q@ == self@.edit.text,
    {
        self.edit.contents()
    }

    /// The line selected among those that match the query.
    pub fn selected_line(&self) -> (line: Option<usize>)
        ensures
            self@.selected == (match line {
                Some(s) => Some(s as int),
                None => None,
            }),
    {
        self.list
    }

    /// The places of the lines that match the query, in rising order: see
    /// [`PaletteModel::matching`].
    pub fn matching(&self) -> (places: Vec<usize>)
        ensures
            places@.len() == self@.matching().len(),
            forall|i: int|
                0 <= i < places@.len() ==> (#[trigger] places@[i]) as int == self@.matching()[i],
            forall|i: int| 0 <= i < places@.len() ==> (#[trigger] places@[i]) < self@.items.len(),
    {
        let query = self.edit.contents();
        let is_empty = blank(&crate::text::chars_of(query.as_str()));
        let mut keep: Vec<bool> = Vec::new();
        let mut i: usize = 0;
        while i < self.items.len()
            invariant
                i <= self.items@.len(),
                keep@.len() == i,
                query@ == self@.edit.text,
                is_empty == is_blank(query@),
                forall|j: int| 0 <= j < i ==> keep@[j] == self@.keep()[j],
            decreases self.items@.len() - i,
        {
            let found = is_empty || fuzzy_matches(self.items[i].1.desc(), query.as_str());
            keep.push(found);
            i += 1;
        }
        assert(keep@ =~= self@.keep());
        proof {
            lemma_kept(keep@, keep@.len() as int);
        }
        kept_places(&keep)
    }

    /// The action offered for each action of the editor: see [`offers`].
    fn generate_list(bindings: &Bindings<Action>) -> (items: Vec<Item>)
        requires
            bindings.wf(),
        ensures
            offers(item_models(items@), bindings),
    {
        let bound = bindings.iter();
        let all = Action::all();
        let mut items: Vec<Item> = Vec::new();
        let mut n: usize = 0;
        while n < all.len()
            invariant
                n <= all@.len(),
                all@.len() == Action::COUNT,
                forall|i: int| 0 <= i < all@.len() ==> (#[trigger] all@[i]).index() == i,
                bindings.lists(Seq::empty(), bound@),
                items@.len() == n,
                forall|i: int|
                    0 <= i < n ==> {
                        &&& (#[trigger] items@[i]).1.index() == i
                        &&& match items@[i].0 {
                            Some(path) => bindings.is_action_path(path@) && bindings.spec_get(path@)
                                == Some(BindNode::Action(items@[i].1)),
                            None => forall|p: Seq<Input>|
                                bindings.is_action_path(p) ==> #[trigger] bindings.spec_get(p)
                                    != Some(BindNode::Action(items@[i].1)),
                        }
                    },
            decreases all@.len() - n,
        {
            let action = all[n];
            let mut found: Option<InputBuffer> = None;
            let mut k: usize = 0;
            while k < bound.len() && found.is_none()
                invariant
                    k <= bound@.len(),
                    bindings.lists(Seq::empty(), bound@),
                    found matches Some(path) ==> bindings.is_action_path(path@)
                        && bindings.spec_get(path@) == Some(BindNode::Action(action)),
                    found is None ==> forall|j: int|
                        0 <= j < k ==> *(#[trigger] bound@[j]).1 != action,
                decreases bound@.len() - k + (if found is None {
                    1int
                } else {
                    0int
                }),
            {
                if *bound[k].1 == action {
                    let path = InputBuffer::from_inputs(bound[k].0.as_slice());
                    assert(bound@[k as int].0@.skip(0) =~= bound@[k as int].0@);
                    assert(Seq::<Input>::empty() + bound@[k as int].0@ =~= bound@[k as int].0@);
                    found = Some(path);
                } else {
                    k += 1;
                }
            }
            proof {
                if found is None {
                    assert forall|p: Seq<Input>| bindings.is_action_path(p) implies #[trigger]
                        bindings.spec_get(p) != Some(BindNode::Action(action)) by {
                        let j = choose|j: int|
                            0 <= j < bound@.len() && (#[trigger] bound@[j]).0@ == Seq::<
                                Input,
                            >::empty() + p;
                        assert(Seq::<Input>::empty() + p =~= p);
                        assert(bound@[j].0@.skip(0) =~= p);
                    }
                }
            }
            items.push((found, action));
            n += 1;
        }
        assert(item_models(items@).len() == Action::COUNT);
        assert forall|i: int| 0 <= i < item_models(items@).len() implies {
            &&& (#[trigger] item_models(items@)[i]).1.index() == i
            &&& match item_models(items@)[i].0 {
                Some(path) => bindings.is_action_path(path) && bindings.spec_get(path) == Some(
                    BindNode::Action(item_models(items@)[i].1),
                ),
                None => forall|p: Seq<Input>|
                    bindings.is_action_path(p) ==> #[trigger] bindings.spec_get(p) != Some(
                        BindNode::Action(item_models(items@)[i].1),
                    ),
            }
        } by {
            assert(items@[i].1.index() == i);
        }
        items
    }

    /// The last line of those that match the query.
    fn bottom(&self) -> (b: usize)
        ensures
            b == self@.bottom(),
    {
        let count = self.matching().len();
        if count == 0 {
            0
        } else {
            count - 1
        }
    }

    /// The line selected, which is the first where none is.
    fn line(&self) -> (l: usize)
        ensures
            l == self@.line(),
    {
        match self.list {
            Some(s) => s,
            None => 0,
        }
    }

    /// Selects the next line, if there is one.
    pub fn move_down(&mut self)
        requires
            old(self).wf(),
        ensures
            final(self).wf(),
            final(self)@ == old(self)@.after(Input(KeyCode::Down, KeyModifiers { bits: 0 })),
    {
        let bottom = self.bottom();
        let s = self.line();
        let next = if s < bottom {
            s + 1
        } else {
            bottom
        };
        self.list = Some(next);
    }

    /// Selects the line before, if there is one.
    pub fn move_up(&mut self)
        requires
            old(self).wf(),
        ensures
            final(self).wf(),
            final(self)@ == old(self)@.after(Input(KeyCode::Up, KeyModifiers { bits: 0 })),
    {
        let s = self.line();
        self.list = Some(if s > 0 {
            s - 1
        } else {
            0
        });
    }

    /// Selects the last line.
    pub fn jump_down(&mut self)
        requires
            old(self).wf(),
        ensures
            final(self).wf(),
            final(self)@ == old(self)@.with_line(old(self)@.bottom()),
    {
        let bottom = self.bottom();
        self.list = Some(bottom);
    }

    /// Selects the first line.
    pub fn jump_up(&mut self)
        requires
            old(self).wf(),
        ensures
            final(self).wf(),
            final(self)@ == old(self)@.with_line(0),
    {
        self.list = Some(0);
    }

    /// The action on the line selected, if there is such a line.
    pub fn selected(&self) -> (a: Option<Action>)
        ensures
            a == self@.chosen(),
    {
        let places = self.matching();
        let line = self.line();
        if line < places.len() {
            Some(self.items[places[line]].1)
        } else {
            None
        }
    }

    /// Selects the first line again.
    pub fn reset_selection(&mut self)
        requires
            old(self).wf(),
        ensures
            final(self).wf(),
            final(self)@ == old(self)@.with_line(0),
    {
        self.list = Some(0);
    }

    /// Does what the input `key` means to the palette: see
    /// [`PaletteModel::after`]. The result says whether the palette stays
    /// open, and what it ended with if not: see [`PaletteModel::outcome`].
    pub fn handle_input(&mut self, key: Input) -> (flow: ControlFlow<Option<Action>>)
        requires
            old(self).wf(),
        ensures
            final(self).wf(),
            final(self)@ == old(self)@.after(key),
            choice_model(flow) == old(self)@.outcome(key),
    {
        match key.0 {
            KeyCode::Up => {
                self.move_up();
                return ControlFlow::Continue(());
            },
            KeyCode::Down => {
                self.move_down();
                return ControlFlow::Continue(());
            },
            KeyCode::Home => {
                if key.1.bits == KeyModifiers::CONTROL_BIT {
                    self.jump_up();
                    return ControlFlow::Continue(());
                }
            },
            KeyCode::End => {
                if key.1.bits == KeyModifiers::CONTROL_BIT {
                    self.jump_down();
                    return ControlFlow::Continue(());
                }
            },
            KeyCode::Char(_) => {
                // reset on input change
                self.reset_selection();
            },
            KeyCode::Enter => {
                return ControlFlow::Break(self.selected());
            },
            _ => {},
        }
        match self.edit.handle_input(key) {
            ControlFlow::Break(_) => ControlFlow::Break(None),
            ControlFlow::Continue(_) => ControlFlow::Continue(()),
        }
    }
}

/// The view of the command palette.
#[derive(Default, Debug)]
pub struct PaletteView {}

/// One line of the palette as it is shown: what the action does, the
/// blanks that follow, and the inputs that the action is bound to.
#[derive(Debug)]
pub struct PaletteLine {
    pub desc: String,
    pub spacing: usize,
    pub bind: String,
}

impl PaletteView {
    /// The room that a line `width` wide has for what the action does,
    /// beside the border, the inputs `bind` and a blank before them.
    pub open spec fn desc_width(width: u16, bind: Seq<char>) -> int {
        if width >= 2 + text_width(bind) + 1 {
            width - (2 + text_width(bind) + 1)
        } else {
            0
        }
    }

    /// What is shown of `desc` where there is `room` for it: all of it
    /// where it leaves room, and else a beginning that leaves room, with
    /// an ellipsis behind it.
    pub open spec fn shown_desc(desc: Seq<char>, room: int) -> Seq<char> {
        if desc.len() >= room {
            desc.take(
                if room > 0 {
                    room - 1
                } else {
                    0
                },
            ).push('\u{2026}')
        } else {
            desc
        }
    }

    /// The blanks that follow what is shown of `desc`.
    pub open spec fn blanks(desc: Seq<char>, room: int) -> int {
        if desc.len() >= room {
            0
        } else {
            room - desc.len()
        }
    }

    /// The line of `item` in a list `width` wide.
    pub fn line(item: &Item, width: u16) -> (l: PaletteLine)
        ensures
            l.bind@ == (match item.0 {
                Some(path) => crate::input::names(path@, path@.len() as int),
                None => Seq::empty(),
            }),
            l.desc@ == Self::shown_desc(
                Doc(&item.1).spec_text(),
                Self::desc_width(width, l.bind@),
            ),
            l.spacing == Self::blanks(Doc(&item.1).spec_text(), Self::desc_width(width, l.bind@)),
    {
        let bind = match &item.0 {
            Some(path) => path.to_string(),
            None => String::new(),
        };
        let taken = bind.as_str().as_bytes().len();
        let room = if taken <= u16::MAX as usize - 3 && width as usize >= taken + 3 {
            width as usize - (taken + 3)
        } else {
            0
        };
        let mut desc = chars_of(Doc(&item.1).text());
        let ghost full = desc@;
        let mut spacing: usize = 0;
        if desc.len() >= room {
            desc.truncate(room.saturating_sub(1));
            desc.push('\u{2026}');
        } else {
            spacing = room - desc.len();
        }
        PaletteLine { desc: string_of(&desc), spacing, bind }
    }
}

impl crate::views::Dialog<Input> for PaletteState {
    type Output = Option<Action>;

    open spec fn ready(&self) -> bool {
        self.wf()
    }

    open spec fn steps(&self, input: Input, next: &Self, flow: ControlFlow<Option<Action>>) -> bool {
        next@ == self@.after(input) && choice_model(flow) == self@.outcome(input)
    }

    fn handle_input(&mut self, input: Input) -> (flow: ControlFlow<Option<Action>>) {
        PaletteState::handle_input(self, input)
    }
}

} // verus!
