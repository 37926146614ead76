use std::ops::ControlFlow;

use sht::input::{Input, KeyCode, KeyModifiers};
use sht::program::Direction;
use sht::views::edit::{EditAction, EditState};
use sht::{Rect, XY};

fn area(x: u16, y: u16) -> Rect {
    Rect {
        x,
        y,
        width: 20,
        height: 1,
    }
}

fn plain(code: KeyCode) -> Input {
    Input(code, KeyModifiers::none())
}

#[test]
fn editor_starts_behind_the_text() {
    let e = EditState::from_str("héllo");
    assert_eq!("héllo", e.contents());
    assert_eq!(XY { x: 8, y: 2 }, e.cursor(area(3, 2)));
    let d = EditState::default();
    assert_eq!("", d.contents());
    assert_eq!(XY { x: 3, y: 2 }, d.cursor(area(3, 2)));
}

#[test]
fn characters_go_in_at_the_cursor() {
    let mut e = EditState::from_str("ac");
    e.move_left();
    e.insert_char('b');
    assert_eq!("abc", e.contents());
    assert_eq!(XY { x: 2, y: 0 }, e.cursor(area(0, 0)));
    e.move_beginning();
    e.insert_char('é');
    assert_eq!("éabc", e.contents());
    assert_eq!(XY { x: 1, y: 0 }, e.cursor(area(0, 0)));
    e.move_end();
    e.insert_char('!');
    assert_eq!("éabc!", e.contents());
}

#[test]
fn characters_are_removed_around_the_cursor() {
    let mut e = EditState::from_str("abcd");
    e.pop_char_right();
    assert_eq!("abcd", e.contents());
    e.pop_char_left();
    assert_eq!("abc", e.contents());
    e.move_left();
    e.move_left();
    e.pop_char_right();
    assert_eq!("ac", e.contents());
    e.pop_char_left();
    assert_eq!("c", e.contents());
    e.pop_char_left();
    assert_eq!("c", e.contents());
    assert_eq!(XY { x: 0, y: 0 }, e.cursor(area(0, 0)));
}

#[test]
fn cursor_stays_within_the_text() {
    let mut e = EditState::from_str("ab");
    e.move_right();
    assert_eq!(XY { x: 2, y: 0 }, e.cursor(area(0, 0)));
    e.move_left();
    e.move_left();
    e.move_left();
    assert_eq!(XY { x: 0, y: 0 }, e.cursor(area(0, 0)));
    e.move_right();
    assert_eq!(XY { x: 1, y: 0 }, e.cursor(area(0, 0)));
}

#[test]
fn cursor_position_stops_at_the_last_column() {
    let e = EditState::from_str("abc");
    assert_eq!(XY { x: u16::MAX, y: 7 }, e.cursor(area(u16::MAX - 1, 7)));
    assert_eq!(XY { x: u16::MAX, y: 7 }, e.cursor(area(u16::MAX - 3, 7)));
}

#[test]
fn take_empties_the_editor() {
    let mut e = EditState::from_str("abc");
    assert_eq!("abc", e.take());
    assert_eq!("", e.contents());
    e.insert_char('x');
    assert_eq!("x", e.contents());
}

#[test]
fn actions_steer_the_editor() {
    let mut e = EditState::from_str("abc");
    assert_eq!(
        ControlFlow::Continue(()),
        e.handle_action(EditAction::Jump(Direction::Left))
    );
    assert_eq!(
        ControlFlow::Continue(()),
        e.handle_action(EditAction::Char('x'))
    );
    assert_eq!("xabc", e.contents());
    assert_eq!(
        ControlFlow::Continue(()),
        e.handle_action(EditAction::Move(Direction::Down))
    );
    assert_eq!(
        ControlFlow::Continue(()),
        e.handle_action(EditAction::Backspace)
    );
    assert_eq!("xab", e.contents());
    assert_eq!(
        ControlFlow::Continue(()),
        e.handle_action(EditAction::Move(Direction::Up))
    );
    assert_eq!(ControlFlow::Continue(()), e.handle_action(EditAction::Delete));
    assert_eq!("ab", e.contents());
    assert_eq!(ControlFlow::Break(None), e.handle_action(EditAction::Cancel));
    assert_eq!("ab", e.contents());
    assert_eq!(
        ControlFlow::Break(Some("ab".to_string())),
        e.handle_action(EditAction::Submit)
    );
    assert_eq!("", e.contents());
}

#[test]
fn inputs_steer_the_editor() {
    let mut e = EditState::from_str("");
    assert_eq!(
        ControlFlow::Continue(()),
        e.handle_input(plain(KeyCode::Char('h')))
    );
    assert_eq!(
        ControlFlow::Continue(()),
        e.handle_input(Input(KeyCode::Char('i'), KeyModifiers::control()))
    );
    assert_eq!("hi", e.contents());
    assert_eq!(ControlFlow::Continue(()), e.handle_input(plain(KeyCode::Home)));
    assert_eq!(
        ControlFlow::Continue(()),
        e.handle_input(plain(KeyCode::Delete))
    );
    assert_eq!("i", e.contents());
    assert_eq!(ControlFlow::Continue(()), e.handle_input(plain(KeyCode::Tab)));
    assert_eq!(
        ControlFlow::Continue(()),
        e.handle_input(Input(KeyCode::Backspace, KeyModifiers::alt()))
    );
    assert_eq!(ControlFlow::Continue(()), e.handle_input(plain(KeyCode::End)));
    assert_eq!(
        ControlFlow::Continue(()),
        e.handle_input(plain(KeyCode::Backspace))
    );
    assert_eq!("", e.contents());
    e.insert_char('z');
    assert_eq!(
        ControlFlow::Break(Some("z".to_string())),
        e.handle_input(plain(KeyCode::Enter))
    );
    assert_eq!(ControlFlow::Break(None), e.handle_input(plain(KeyCode::Esc)));
}
