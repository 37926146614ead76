//! The bindings that the editor starts with.
use vstd::prelude::*;

use crate::bindings::{BindNode, Bindings};
use crate::input::{Input, KeyCode, KeyModifiers};
use crate::program::{Action, Direction};

verus! {

/// The action that the single input `k` is bound to from the start.
pub open spec fn default_single(k: Input) -> Option<Action> {
    if k.1.bits == 0 {
        match k.0 {
            KeyCode::Up => Some(Action::Move(Direction::Up)),
            KeyCode::Down => Some(Action::Move(Direction::Down)),
            KeyCode::Left => Some(Action::Move(Direction::Left)),
            KeyCode::Right => Some(Action::Move(Direction::Right)),
            KeyCode::Tab => Some(Action::Move(Direction::Right)),
            KeyCode::Char('k') => Some(Action::Move(Direction::Up)),
            KeyCode::Char('j') => Some(Action::Move(Direction::Down)),
            KeyCode::Char('h') => Some(Action::Move(Direction::Left)),
            KeyCode::Char('l') => Some(Action::Move(Direction::Right)),
            KeyCode::Home => Some(Action::HomeRow),
            KeyCode::End => Some(Action::EndRow),
            KeyCode::PageUp => Some(Action::Jump(Direction::Up)),
            KeyCode::PageDown => Some(Action::Jump(Direction::Down)),
            KeyCode::Backspace => Some(Action::Clear),
            KeyCode::Delete => Some(Action::Clear),
            KeyCode::F(2) => Some(Action::Edit),
            KeyCode::Enter => Some(Action::Replace),
            KeyCode::F(12) => Some(Action::ToggleDebug),
            KeyCode::F(1) => Some(Action::TogglePalette),
            _ => None,
        }
    } else if k.1.bits == KeyModifiers::CONTROL_BIT {
        match k.0 {
            KeyCode::Home => Some(Action::Home),
            KeyCode::End => Some(Action::End),
            KeyCode::Char('g') => Some(Action::GoTo),
            KeyCode::Char('c') => Some(Action::Quit),
            KeyCode::Char('s') => Some(Action::Write),
            KeyCode::Char('r') => Some(Action::Read),
            KeyCode::Char('z') => Some(Action::Undo),
            KeyCode::Char('y') => Some(Action::Redo),
            _ => None,
        }
    } else if k.1.bits == KeyModifiers::ALT_BIT {
        match k.0 {
            KeyCode::PageUp => Some(Action::Jump(Direction::Left)),
            KeyCode::PageDown => Some(Action::Jump(Direction::Right)),
            _ => None,
        }
    } else {
        None
    }
}

/// The input that opens the chord of deletions.
pub open spec fn delete_chord() -> Input {
    Input(KeyCode::Char('-'), KeyModifiers { bits: KeyModifiers::ALT_BIT })
}

/// The input that opens the chord of insertions.
pub open spec fn insert_chord() -> Input {
    Input(KeyCode::Char('+'), KeyModifiers { bits: KeyModifiers::ALT_BIT })
}

/// The action that the input `second` is bound to from the start once
/// `first` has opened a chord.
pub open spec fn default_chorded(first: Input, second: Input) -> Option<Action> {
    if second.1.bits != 0 {
        None
    } else if first == delete_chord() {
        match second.0 {
            KeyCode::Char('c') => Some(Action::DeleteCol),
            KeyCode::Char('r') => Some(Action::DeleteRow),
            _ => None,
        }
    } else if first == insert_chord() {
        match second.0 {
            KeyCode::Char('c') => Some(Action::InsertCol),
            KeyCode::Char('r') => Some(Action::InsertRow),
            _ => None,
        }
    } else {
        None
    }
}

/// Whether `b` holds the bindings that the editor starts with, and no
/// others.
pub open spec fn is_default(b: &Bindings<Action>) -> bool {
    &&& b.wf()
    &&& forall|p: Seq<Input>|
        #![trigger b.spec_get(p)]
        p.len() > 0 && p[0] != delete_chord() && p[0] != insert_chord() ==> b.spec_get(p) == (
        match default_single(p[0]) {
            Some(a) => Some(BindNode::Action(a)),
            None => None,
        })
    &&& forall|p: Seq<Input>|
        #![trigger b.spec_get(p)]
        p.len() > 1 && (p[0] == delete_chord() || p[0] == insert_chord()) ==> b.spec_get(p) == (
        match default_chorded(p[0], p[1]) {
            Some(a) => Some(BindNode::Action(a)),
            None => None,
        })
    &&& b.spec_get(seq![delete_chord()]) matches Some(BindNode::Chord { name, .. }) && name@
        == "Delete"@
    &&& b.spec_get(seq![insert_chord()]) matches Some(BindNode::Chord { name, .. }) && name@
        == "Insert"@
}

/// Binds `k` to `v` in `b`, where `k` is free.
fn bind(b: &mut Bindings<Action>, code: KeyCode, bits: u8, v: Action)
    requires
        old(b).wf(),
        old(b).spec_get(seq![Input(code, KeyModifiers { bits })]) is None,
    ensures
        final(b).wf(),
        forall|p: Seq<Input>|
            #[trigger] final(b).spec_get(p) == (if p.len() > 0 && p[0] == Input(
                code,
                KeyModifiers { bits },
            ) {
                Some(BindNode::Action(v))
            } else {
                old(b).spec_get(p)
            }),
{
    let _ = b.insert(Input(code, KeyModifiers { bits }), v);
}

/// The keys that move the selection.
fn bind_movement(b: &mut Bindings<Action>)
    requires
        old(b).wf(),
        forall|p: Seq<Input>| old(b).spec_get(p) is None,
    ensures
        final(b).wf(),
        forall|p: Seq<Input>|
            #[trigger] final(b).spec_get(p) == (if p.len() > 0 && default_single(p[0]) is Some
                && default_single(p[0])->0.index() < 15 {
                Some(BindNode::Action(default_single(p[0])->0))
            } else {
                None
            }),
{
    let none: u8 = 0;
    let control: u8 = KeyModifiers::CONTROL_BIT;
    let alt: u8 = KeyModifiers::ALT_BIT;
    bind(b, KeyCode::Up, none, Action::Move(Direction::Up));
    bind(b, KeyCode::Down, none, Action::Move(Direction::Down));
    bind(b, KeyCode::Left, none, Action::Move(Direction::Left));
    bind(b, KeyCode::Right, none, Action::Move(Direction::Right));
    bind(b, KeyCode::Tab, none, Action::Move(Direction::Right));
    bind(b, KeyCode::Char('k'), none, Action::Move(Direction::Up));
    bind(b, KeyCode::Char('j'), none, Action::Move(Direction::Down));
    bind(b, KeyCode::Char('h'), none, Action::Move(Direction::Left));
    bind(b, KeyCode::Char('l'), none, Action::Move(Direction::Right));
    bind(b, KeyCode::Home, control, Action::Home);
    bind(b, KeyCode::End, control, Action::End);
    bind(b, KeyCode::Home, none, Action::HomeRow);
    bind(b, KeyCode::End, none, Action::EndRow);
    bind(b, KeyCode::PageUp, none, Action::Jump(Direction::Up));
    bind(b, KeyCode::PageDown, none, Action::Jump(Direction::Down));
    bind(b, KeyCode::PageUp, alt, Action::Jump(Direction::Left));
    bind(b, KeyCode::PageDown, alt, Action::Jump(Direction::Right));
    bind(b, KeyCode::Char('g'), control, Action::GoTo);
}

/// The keys that edit, and those that steer the program.
fn bind_editing(b: &mut Bindings<Action>)
    requires
        old(b).wf(),
        forall|p: Seq<Input>|
            #[trigger] old(b).spec_get(p) == (if p.len() > 0 && default_single(p[0]) is Some
                && default_single(p[0])->0.index() < 15 {
                Some(BindNode::Action(default_single(p[0])->0))
            } else {
                None
            }),
    ensures
        final(b).wf(),
        forall|p: Seq<Input>|
            #[trigger] final(b).spec_get(p) == (if p.len() > 0 && default_single(p[0]) is Some {
                Some(BindNode::Action(default_single(p[0])->0))
            } else {
                None
            }),
{
    let none: u8 = 0;
    let control: u8 = KeyModifiers::CONTROL_BIT;
    bind(b, KeyCode::Char('c'), control, Action::Quit);
    bind(b, KeyCode::Char('s'), control, Action::Write);
    bind(b, KeyCode::Char('r'), control, Action::Read);
    bind(b, KeyCode::Char('z'), control, Action::Undo);
    bind(b, KeyCode::Char('y'), control, Action::Redo);
    bind(b, KeyCode::Backspace, none, Action::Clear);
    bind(b, KeyCode::Delete, none, Action::Clear);
    bind(b, KeyCode::F(2), none, Action::Edit);
    bind(b, KeyCode::Enter, none, Action::Replace);
    bind(b, KeyCode::F(12), none, Action::ToggleDebug);
    bind(b, KeyCode::F(1), none, Action::TogglePalette);
}

/// What the one-input path `[k]` begins, and what begins it.
proof fn lemma_single_prefix(k: Input)
    ensures
        forall|p: Seq<Input>| #[trigger] seq![k].is_prefix_of(p) <==> p.len() > 0 && p[0] == k,
        forall|p: Seq<Input>|
            p.len() > 0 ==> (#[trigger] p.is_prefix_of(seq![k]) <==> p.len() == 1 && p[0] == k),
{
    assert forall|p: Seq<Input>| #[trigger] seq![k].is_prefix_of(p) <==> p.len() > 0 && p[0]
        == k by {
        if p.len() > 0 && p[0] == k {
            assert(seq![k] =~= p.subrange(0, 1));
        }
        if seq![k].is_prefix_of(p) {
            assert(seq![k][0] == p.subrange(0, 1)[0]);
        }
    }
    assert forall|p: Seq<Input>| p.len() > 0 implies (#[trigger] p.is_prefix_of(seq![k])
        <==> p.len() == 1 && p[0] == k) by {
        if p.len() == 1 && p[0] == k {
            assert(p =~= seq![k].subrange(0, 1));
        }
        if p.is_prefix_of(seq![k]) {
            assert(p[0] == seq![k].subrange(0, p.len() as int)[0]);
        }
    }
}

/// Opens the chord `name` at Alt with `sign`, and binds `c` and `r` below
/// it to `col` and `row`.
fn bind_chord(b: &mut Bindings<Action>, name: &str, sign: char, col: Action, row: Action)
    requires
        old(b).wf(),
        old(b).spec_get(
            seq![Input(KeyCode::Char(sign), KeyModifiers { bits: KeyModifiers::ALT_BIT })],
        ) is None,
    ensures
        final(b).wf(),
        forall|p: Seq<Input>|
            #![trigger final(b).spec_get(p)]
            p.len() > 0 && p[0] != Input(
                KeyCode::Char(sign),
                KeyModifiers { bits: KeyModifiers::ALT_BIT },
            ) ==> final(b).spec_get(p) == old(b).spec_get(p),
        forall|p: Seq<Input>|
            #![trigger final(b).spec_get(p)]
            p.len() > 1 && p[0] == Input(
                KeyCode::Char(sign),
                KeyModifiers { bits: KeyModifiers::ALT_BIT },
            ) ==> final(b).spec_get(p) == (if p[1] == Input(
                KeyCode::Char('c'),
                KeyModifiers { bits: 0 },
            ) {
                Some(BindNode::Action(col))
            } else if p[1] == Input(KeyCode::Char('r'), KeyModifiers { bits: 0 }) {
                Some(BindNode::Action(row))
            } else {
                None
            }),
        final(b).spec_get(
            seq![Input(KeyCode::Char(sign), KeyModifiers { bits: KeyModifiers::ALT_BIT })],
        ) matches Some(BindNode::Chord { name: given, .. }) && given@ == name@,
{
    let first = Input(KeyCode::Char(sign), KeyModifiers { bits: KeyModifiers::ALT_BIT });
    let ks = [first];
    proof {
        assert(ks@ =~= seq![first]);
        lemma_single_prefix(first);
    }
    match b.create_chord(name, &ks) {
        Ok(below) => {
            bind(below, KeyCode::Char('c'), 0, col);
            bind(below, KeyCode::Char('r'), 0, row);
        },
        Err(_) => {},
    }
    proof {
        assert forall|p: Seq<Input>| p.len() > 1 implies #[trigger] p.skip(1).len() > 0 && p.skip(
            1,
        )[0] == p[1] by {}
    }
}

impl Default for Bindings<Action> {
    /// The bindings that the editor starts with: see [`is_default`].
    fn default() -> (s: Self)
        ensures
            is_default(&s),
    {
        let mut s = Bindings::empty();
        bind_movement(&mut s);
        bind_editing(&mut s);
        bind_chord(&mut s, "Delete", '-', Action::DeleteCol, Action::DeleteRow);
        bind_chord(&mut s, "Insert", '+', Action::InsertCol, Action::InsertRow);
        s
    }
}

} // verus!
