use std::ops::ControlFlow;

use sht::bindings::Bindings;
use sht::input::{Input, InputBuffer, KeyCode, KeyModifiers};
use sht::program::{Action, Direction, Doc};
use sht::views::edit::{EditAction, EditState};
use sht::views::palette::{all_set, kept_places, PaletteState, PaletteView};
use sht::views::Dialog;
use sht::{Rect, XY};

fn plain(code: KeyCode) -> Input {
    Input(code, KeyModifiers::none())
}

fn typed(p: &mut PaletteState, text: &str) {
    for c in text.chars() {
        assert_eq!(ControlFlow::Continue(()), p.handle_input(Input::from_char(c)));
    }
}

#[test]
fn kept_places_are_those_marked() {
    assert_eq!(vec![0, 2], kept_places(&vec![true, false, true]));
    assert_eq!(Vec::<usize>::new(), kept_places(&vec![false, false]));
    assert_eq!(Vec::<usize>::new(), kept_places(&Vec::new()));
    assert_eq!(vec![0, 1, 2], kept_places(&vec![true, true, true]));
}

#[test]
fn palette_offers_every_action_once() {
    let bindings: Bindings<Action> = Bindings::default();
    let p = PaletteState::new(&bindings);
    assert_eq!(Action::COUNT, p.items().len());
    let actions: Vec<Action> = p.items().iter().map(|(_, a)| *a).collect();
    assert_eq!(Action::all(), actions);
    assert_eq!(Some(0), p.selected_line());
    assert_eq!("", p.query());
    // bound once
    assert_eq!(
        Some(InputBuffer::from_inputs(&[Input(
            KeyCode::Char('c'),
            KeyModifiers::control()
        )])),
        p.items()[26].0
    );
    // bound through a chord
    assert_eq!(
        Some(InputBuffer::from_inputs(&[
            Input(KeyCode::Char('+'), KeyModifiers::alt()),
            plain(KeyCode::Char('r'))
        ])),
        p.items()[21].0
    );
    // not bound
    assert_eq!(None, p.items()[11].0);
    assert_eq!(Action::HomeCol, p.items()[11].1);
    // bound more than once: any of its bindings
    let ups = [plain(KeyCode::Up), plain(KeyCode::Char('k'))];
    let shown = p.items()[3].0.clone().unwrap();
    assert!(ups.iter().any(|k| InputBuffer::from_inputs(&[*k]) == shown));
}

#[test]
fn blank_query_matches_everything() {
    let bindings: Bindings<Action> = Bindings::default();
    let mut p = PaletteState::new(&bindings);
    assert_eq!((0..30).collect::<Vec<usize>>(), p.matching());
    typed(&mut p, " \t ");
    assert_eq!(" \t ", p.query());
    assert_eq!(30, p.matching().len());
    assert_eq!(Some(Action::Move(Direction::Down)), p.selected());
}

#[test]
fn query_narrows_the_list() {
    let bindings: Bindings<Action> = Bindings::default();
    let mut p = PaletteState::new(&bindings);
    typed(&mut p, "quit");
    assert_eq!(vec![26], p.matching());
    assert_eq!(Some(Action::Quit), p.selected());
    assert_eq!(
        ControlFlow::Break(Some(Action::Quit)),
        p.handle_input(plain(KeyCode::Enter))
    );
    typed(&mut p, "zz");
    assert_eq!("quitzz", p.query());
    assert!(p.matching().is_empty());
    assert_eq!(None, p.selected());
    assert_eq!(ControlFlow::Break(None), p.handle_input(plain(KeyCode::Enter)));
}

#[test]
fn query_matches_letters_in_order() {
    let bindings: Bindings<Action> = Bindings::default();
    let mut p = PaletteState::new(&bindings);
    typed(&mut p, "dlrw");
    // "Delete row of current cursor" and nothing else holds d, l, r, w in this order
    assert_eq!(vec![19], p.matching());
    assert_eq!(Some(Action::DeleteRow), p.selected());
}

#[test]
fn selection_moves_within_the_matches() {
    let bindings: Bindings<Action> = Bindings::default();
    let mut p = PaletteState::new(&bindings);
    typed(&mut p, "current cell");
    assert_eq!(vec![15, 16, 17], p.matching());
    assert_eq!(ControlFlow::Continue(()), p.handle_input(plain(KeyCode::Up)));
    assert_eq!(Some(0), p.selected_line());
    assert_eq!(ControlFlow::Continue(()), p.handle_input(plain(KeyCode::Down)));
    assert_eq!(Some(1), p.selected_line());
    assert_eq!(Some(Action::Replace), p.selected());
    p.move_down();
    p.move_down();
    assert_eq!(Some(2), p.selected_line());
    assert_eq!(Some(Action::Clear), p.selected());
    assert_eq!(
        ControlFlow::Continue(()),
        p.handle_input(Input(KeyCode::Home, KeyModifiers::control()))
    );
    assert_eq!(Some(0), p.selected_line());
    assert_eq!(
        ControlFlow::Continue(()),
        p.handle_input(Input(KeyCode::End, KeyModifiers::control()))
    );
    assert_eq!(Some(2), p.selected_line());
    p.move_up();
    assert_eq!(Some(1), p.selected_line());
    p.jump_up();
    assert_eq!(Some(0), p.selected_line());
    p.jump_down();
    assert_eq!(Some(2), p.selected_line());
    // typing selects the first line again
    typed(&mut p, "x");
    assert_eq!(Some(0), p.selected_line());
    p.move_down();
    assert_eq!(Some(0), p.selected_line());
    p.reset_selection();
    assert_eq!(Some(0), p.selected_line());
}

#[test]
fn other_inputs_edit_the_query() {
    let bindings: Bindings<Action> = Bindings::default();
    let mut p = PaletteState::new(&bindings);
    typed(&mut p, "ab");
    assert_eq!(
        ControlFlow::Continue(()),
        p.handle_input(plain(KeyCode::Backspace))
    );
    assert_eq!("a", p.query());
    assert_eq!(ControlFlow::Continue(()), p.handle_input(plain(KeyCode::Home)));
    assert_eq!(
        ControlFlow::Continue(()),
        p.handle_input(plain(KeyCode::Delete))
    );
    assert_eq!("", p.query());
    assert_eq!(ControlFlow::Continue(()), p.handle_input(plain(KeyCode::Tab)));
    assert_eq!(ControlFlow::Break(None), p.handle_input(plain(KeyCode::Esc)));
}

#[test]
fn palette_cursor_lies_inside_the_border() {
    let bindings: Bindings<Action> = Bindings::default();
    let mut p = PaletteState::new(&bindings);
    typed(&mut p, "ab");
    let area = Rect {
        x: 4,
        y: 9,
        width: 30,
        height: 10,
    };
    assert_eq!(XY { x: 7, y: 10 }, p.cursor(area));
    let edge = Rect {
        x: u16::MAX,
        y: u16::MAX,
        width: 0,
        height: 0,
    };
    assert_eq!(
        XY {
            x: u16::MAX,
            y: u16::MAX
        },
        p.cursor(edge)
    );
}

#[test]
fn lines_are_cut_to_the_width() {
    let bind = InputBuffer::from_inputs(&[Input(KeyCode::Char('c'), KeyModifiers::control())]);
    let item = (Some(bind), Action::Quit);
    // "Quit the program" is 16 wide, "Ctrl c" 6: the border and a blank take 3 more
    let line = PaletteView::line(&item, 40);
    assert_eq!("Quit the program", line.desc);
    assert_eq!(15, line.spacing);
    assert_eq!("Ctrl c", line.bind);
    let line = PaletteView::line(&item, 26);
    assert_eq!("Quit the program", line.desc);
    assert_eq!(1, line.spacing);
    let line = PaletteView::line(&item, 25);
    assert_eq!("Quit the progra…", line.desc);
    assert_eq!(0, line.spacing);
    let line = PaletteView::line(&item, 12);
    assert_eq!("Qu…", line.desc);
    assert_eq!(0, line.spacing);
    let line = PaletteView::line(&item, 3);
    assert_eq!("…", line.desc);
    assert_eq!(0, line.spacing);
    let unbound = (None, Action::Jump(Direction::Up));
    let line = PaletteView::line(&unbound, 20);
    assert_eq!("Jump(Up)", line.desc);
    assert_eq!(9, line.spacing);
    assert_eq!("", line.bind);
}

#[test]
fn actions_are_shown_by_what_they_do() {
    assert_eq!("Move the cursor", Doc(&Action::Move(Direction::Up)).to_string());
    assert_eq!("Jump(Left)", Doc(&Action::Jump(Direction::Left)).to_string());
    assert_eq!("GoTo", Doc(&Action::GoTo).text());
    assert_eq!("Edit the current cell", Doc(&Action::Edit).text());
}

#[test]
fn all_set_asks_every_flag() {
    assert!(all_set(&Vec::new()));
    assert!(all_set(&vec![true, true]));
    assert!(!all_set(&vec![true, false, true]));
    assert!(!all_set(&vec![false]));
}

#[test]
fn dialogs_take_input() {
    let mut e = EditState::from_str("a");
    assert_eq!(
        ControlFlow::Continue(()),
        Dialog::<Input>::handle_input(&mut e, Input::from_char('b'))
    );
    assert_eq!(
        ControlFlow::Break(Some("ab".to_string())),
        Dialog::<EditAction>::handle_input(&mut e, EditAction::Submit)
    );
    let bindings: Bindings<Action> = Bindings::default();
    let mut p = PaletteState::new(&bindings);
    assert_eq!(
        ControlFlow::Continue(()),
        Dialog::<Input>::handle_input(&mut p, Input::from_char('q'))
    );
    assert_eq!(
        ControlFlow::Break(Some(Action::Quit)),
        Dialog::<Input>::handle_input(&mut p, plain(KeyCode::Enter))
    );
}
