use sht::grid::GridError;
use sht::input::{Input, InputBuffer, KeyCode, KeyModifiers};
use sht::program::{ExternalAction, Program, Status, ViewState};
use sht::views::grid::GridView;
use sht::views::table::TableLayout;
use sht::{Grid, Rect, XY};

fn row(cells: &[&str]) -> Vec<String> {
    cells.iter().map(|s| s.to_string()).collect()
}

fn records() -> Vec<Vec<String>> {
    vec![
        row(&["a", "b", "c"]),
        row(&["d", "e", "f"]),
        row(&["g", "h", "i"]),
    ]
}

fn program() -> Program {
    Program::from_path("sheet.csv".to_string(), records()).unwrap()
}

fn plain(code: KeyCode) -> Input {
    Input(code, KeyModifiers::none())
}

fn ctrl(c: char) -> Input {
    Input(KeyCode::Char(c), KeyModifiers::control())
}

fn alt(c: char) -> Input {
    Input(KeyCode::Char(c), KeyModifiers::alt())
}

fn at(x: usize, y: usize) -> XY<usize> {
    XY { x, y }
}

fn press(p: &mut Program, inputs: &[Input]) {
    for i in inputs {
        assert_eq!(None, p.handle_input(*i));
    }
}

#[test]
fn program_starts_on_the_first_cell() {
    let p = program();
    assert!(matches!(p.view_state(), ViewState::Normal));
    assert_eq!(at(0, 0), p.selection());
    assert_eq!(at(3, 3), p.grid().size());
    assert_eq!("sheet.csv", p.filename());
    assert!(p.status().is_none());
    assert!(p.input_buf().is_empty());
    assert!(!p.should_redraw());
    assert_eq!(33, p.bindings().iter().len());
    assert_eq!(at(0, 0), p.grid_state().scroll());
}

#[test]
fn ragged_file_is_no_program() {
    let r = Program::from_path("x".to_string(), vec![row(&["a"]), row(&["b", "c"])]);
    assert!(matches!(r, Err(GridError::UnequalLengths)));
}

#[test]
fn keys_move_the_selection() {
    let mut p = program();
    press(&mut p, &[plain(KeyCode::Down), plain(KeyCode::Char('l'))]);
    assert_eq!(at(1, 1), p.selection());
    assert!(p.should_redraw());
    press(&mut p, &[plain(KeyCode::Up), plain(KeyCode::Up)]);
    assert_eq!(at(1, 0), p.selection());
    press(&mut p, &[plain(KeyCode::Left), plain(KeyCode::Left)]);
    assert_eq!(at(0, 0), p.selection());
    press(&mut p, &[Input(KeyCode::End, KeyModifiers::control())]);
    assert_eq!(at(2, 2), p.selection());
    press(&mut p, &[plain(KeyCode::Home)]);
    assert_eq!(at(0, 2), p.selection());
    press(&mut p, &[plain(KeyCode::End)]);
    assert_eq!(at(2, 2), p.selection());
    press(&mut p, &[Input(KeyCode::Home, KeyModifiers::control())]);
    assert_eq!(at(0, 0), p.selection());
    // the selection may leave the grid
    press(&mut p, &[plain(KeyCode::Tab); 5]);
    assert_eq!(at(5, 0), p.selection());
}

#[test]
fn unbound_input_is_dropped() {
    let mut p = program();
    press(&mut p, &[plain(KeyCode::Char('x'))]);
    assert!(p.input_buf().is_empty());
    assert_eq!(at(0, 0), p.selection());
    assert!(p.should_redraw());
}

#[test]
fn chord_waits_for_its_second_input() {
    let mut p = program();
    press(&mut p, &[plain(KeyCode::Down), alt('-')]);
    assert_eq!(&InputBuffer::from_inputs(&[alt('-')]), p.input_buf());
    assert_eq!(at(3, 3), p.grid().size());
    press(&mut p, &[plain(KeyCode::Char('r'))]);
    assert!(p.input_buf().is_empty());
    assert_eq!(&vec![row(&["a", "b", "c"]), row(&["g", "h", "i"])], p.grid().cells());
    // a chord that does not go on is dropped
    press(&mut p, &[alt('-'), plain(KeyCode::Char('x'))]);
    assert!(p.input_buf().is_empty());
    assert_eq!(at(3, 2), p.grid().size());
}

#[test]
fn edits_are_undone_and_redone() {
    let mut p = program();
    press(&mut p, &[alt('+'), plain(KeyCode::Char('c'))]);
    assert_eq!(row(&["", "a", "b", "c"]), p.grid().cells()[0]);
    press(&mut p, &[plain(KeyCode::Delete)]);
    press(&mut p, &[plain(KeyCode::Right), plain(KeyCode::Backspace)]);
    assert_eq!(row(&["", "", "b", "c"]), p.grid().cells()[0]);
    press(&mut p, &[alt('-'), plain(KeyCode::Char('c'))]);
    assert_eq!(row(&["", "b", "c"]), p.grid().cells()[0]);
    press(&mut p, &[ctrl('z')]);
    assert_eq!(row(&["", "", "b", "c"]), p.grid().cells()[0]);
    press(&mut p, &[ctrl('z'), ctrl('z')]);
    assert_eq!(row(&["", "a", "b", "c"]), p.grid().cells()[0]);
    press(&mut p, &[ctrl('z')]);
    assert_eq!(&records(), p.grid().cells());
    assert!(p.status().is_none());
    press(&mut p, &[ctrl('z')]);
    assert!(matches!(p.status(), Some(Status::UndoLimit)));
    assert_eq!(&records(), p.grid().cells());
    press(&mut p, &[ctrl('y'), ctrl('y'), ctrl('y'), ctrl('y')]);
    assert_eq!(row(&["", "b", "c"]), p.grid().cells()[0]);
    press(&mut p, &[ctrl('y')]);
    assert!(matches!(p.status(), Some(Status::RedoLimit)));
    assert_eq!("Nothing left to redo", p.status().unwrap().to_string());
}

#[test]
fn edits_outside_the_grid_do_nothing() {
    let mut p = program();
    press(&mut p, &[plain(KeyCode::Tab); 4]);
    press(&mut p, &[plain(KeyCode::Delete)]);
    press(&mut p, &[alt('-'), plain(KeyCode::Char('c'))]);
    press(&mut p, &[alt('+'), plain(KeyCode::Char('c'))]);
    press(&mut p, &[plain(KeyCode::F(2))]);
    assert!(matches!(p.view_state(), ViewState::Normal));
    assert_eq!(&records(), p.grid().cells());
    press(&mut p, &[ctrl('z')]);
    assert!(matches!(p.status(), Some(Status::UndoLimit)));
    // a column may be inserted right behind the last one
    press(&mut p, &[plain(KeyCode::Left)]);
    assert_eq!(at(3, 0), p.selection());
    press(&mut p, &[alt('+'), plain(KeyCode::Char('c'))]);
    assert_eq!(row(&["a", "b", "c", ""]), p.grid().cells()[0]);
}

#[test]
fn cell_is_edited_in_place() {
    let mut p = program();
    press(&mut p, &[plain(KeyCode::Right), plain(KeyCode::F(2))]);
    match p.view_state() {
        ViewState::EditCell(e) => assert_eq!("b", e.contents()),
        _ => panic!("not editing"),
    }
    press(
        &mut p,
        &[
            plain(KeyCode::Char('!')),
            plain(KeyCode::Home),
            plain(KeyCode::Char('j')),
        ],
    );
    assert_eq!(at(1, 0), p.selection());
    press(&mut p, &[plain(KeyCode::Enter)]);
    assert!(matches!(p.view_state(), ViewState::Normal));
    assert_eq!(row(&["a", "jb!", "c"]), p.grid().cells()[0]);
    press(&mut p, &[ctrl('z')]);
    assert_eq!(&records(), p.grid().cells());
}

#[test]
fn cell_is_replaced_or_left() {
    let mut p = program();
    press(&mut p, &[plain(KeyCode::Enter)]);
    match p.view_state() {
        ViewState::EditCell(e) => assert_eq!("", e.contents()),
        _ => panic!("not editing"),
    }
    press(&mut p, &[plain(KeyCode::Char('x')), plain(KeyCode::Esc)]);
    assert!(matches!(p.view_state(), ViewState::Normal));
    assert_eq!(&records(), p.grid().cells());
    press(
        &mut p,
        &[
            plain(KeyCode::Enter),
            plain(KeyCode::Char('x')),
            plain(KeyCode::Enter),
        ],
    );
    assert_eq!(row(&["x", "b", "c"]), p.grid().cells()[0]);
}

#[test]
fn file_actions_are_left_to_the_host() {
    let mut p = program();
    assert_eq!(Some(ExternalAction::Quit), p.handle_input(ctrl('c')));
    assert_eq!(Some(ExternalAction::Write), p.handle_input(ctrl('s')));
    assert_eq!(Some(ExternalAction::Read), p.handle_input(ctrl('r')));
    assert_eq!(
        Some(ExternalAction::DumpState),
        p.handle_action(sht::program::Action::DumpState)
    );
    assert_eq!(None, p.handle_action(sht::program::Action::GoTo));
    assert!(p.status().is_none());
    assert_eq!(&records(), p.grid().cells());
}

#[test]
fn host_reports_what_became_of_the_file() {
    let mut p = program();
    p.finish_write(Ok(()));
    assert_eq!("Wrote to \"sheet.csv\"", p.status().unwrap().to_string());
    assert!(!p.status().unwrap().is_err());
    p.finish_write(Err("disk full".to_string()));
    assert_eq!(
        "Error writing to \"sheet.csv\": disk full",
        p.status().unwrap().to_string()
    );
    assert!(p.status().unwrap().is_err());
    assert_eq!(Some(&"disk full".to_string()), p.status().unwrap().err());
    p.finish_dump(Ok("/tmp/state.json".to_string()));
    assert_eq!(
        "Dumped state to \"/tmp/state.json\"",
        p.status().unwrap().to_string()
    );
    p.finish_dump(Err("no".to_string()));
    assert_eq!("Error dumping state: no", p.status().unwrap().to_string());
    p.finish_read(Err("gone".to_string()));
    assert_eq!(
        "Error reading from \"sheet.csv\": gone",
        p.status().unwrap().to_string()
    );
    assert_eq!(&records(), p.grid().cells());
}

#[test]
fn status_quotes_the_file_name() {
    let s = Status::Write("a\"b\\c".to_string(), Ok(()));
    assert_eq!("Wrote to \"a\\\"b\\\\c\"", s.to_string());
    assert_eq!(None, s.err());
    let s = Status::Read("tab\there".to_string(), Ok(()));
    assert_eq!("Read from \"tab\\there\"", s.to_string());
    assert_eq!("Nothing left to undo", Status::UndoLimit.to_string());
}

#[test]
fn reading_again_is_an_edit() {
    let mut p = program();
    p.finish_read(Ok(vec![row(&["x", "y"])]));
    assert_eq!(&vec![row(&["x", "y"])], p.grid().cells());
    assert_eq!("Read from \"sheet.csv\"", p.status().unwrap().to_string());
    press(&mut p, &[ctrl('z')]);
    assert_eq!(&records(), p.grid().cells());
    p.finish_read(Ok(vec![row(&["x", "y"]), row(&["z"])]));
    assert_eq!(&records(), p.grid().cells());
    assert!(p.status().unwrap().is_err());
    assert_eq!(
        "Error reading from \"sheet.csv\": records of unequal lengths",
        p.status().unwrap().to_string()
    );
}

#[test]
fn palette_runs_the_action_chosen() {
    let mut p = program();
    press(&mut p, &[plain(KeyCode::F(1))]);
    assert!(matches!(p.view_state(), ViewState::Palette(_)));
    press(
        &mut p,
        &[
            plain(KeyCode::Char('d')),
            plain(KeyCode::Char('l')),
            plain(KeyCode::Char('r')),
            plain(KeyCode::Char('w')),
        ],
    );
    press(&mut p, &[plain(KeyCode::Enter)]);
    assert!(matches!(p.view_state(), ViewState::Normal));
    assert_eq!(&vec![row(&["d", "e", "f"]), row(&["g", "h", "i"])], p.grid().cells());
    // the palette closes without a choice
    press(&mut p, &[plain(KeyCode::F(1)), plain(KeyCode::Esc)]);
    assert!(matches!(p.view_state(), ViewState::Normal));
    press(&mut p, &[plain(KeyCode::F(1))]);
    press(&mut p, &[plain(KeyCode::Char('q')), plain(KeyCode::Char('u'))]);
    assert_eq!(Some(ExternalAction::Quit), p.handle_input(plain(KeyCode::Enter)));
    assert!(matches!(p.view_state(), ViewState::Normal));
}

#[test]
fn any_input_closes_the_log_view() {
    let mut p = program();
    press(&mut p, &[plain(KeyCode::F(12))]);
    assert!(matches!(p.view_state(), ViewState::Debug));
    press(&mut p, &[plain(KeyCode::Down)]);
    assert!(matches!(p.view_state(), ViewState::Normal));
    assert_eq!(at(0, 0), p.selection());
    assert_eq!(None, p.handle_action(sht::program::Action::ToggleDebug));
    assert_eq!(None, p.handle_action(sht::program::Action::ToggleDebug));
    assert!(matches!(p.view_state(), ViewState::Normal));
    assert_eq!(None, p.handle_action(sht::program::Action::TogglePalette));
    assert_eq!(None, p.handle_action(sht::program::Action::TogglePalette));
    assert!(matches!(p.view_state(), ViewState::Normal));
}

#[test]
fn arranging_scrolls_to_the_selection() {
    let long: Vec<Vec<String>> = (0..20).map(|n| row(&[&format!("{}", n), "xx"])).collect();
    let mut p = Program::from_path("f".to_string(), long).unwrap();
    let area = Rect {
        x: 0,
        y: 0,
        width: 40,
        height: 5,
    };
    let (shown, widths) = p.arrange(area);
    assert_eq!(vec![2, 2], widths);
    assert_eq!(
        Some(TableLayout {
            rows: (0, 5),
            cols: (0, 2)
        }),
        shown
    );
    assert!(!p.should_redraw());
    assert_eq!(at(2, 5), p.grid_state().visible_cells());
    assert_eq!(
        Some(Rect {
            x: 0,
            y: 0,
            width: 2,
            height: 1
        }),
        p.grid_state().selected_area()
    );
    // a page down, then a page up
    press(&mut p, &[plain(KeyCode::PageDown)]);
    assert_eq!(at(0, 5), p.selection());
    assert_eq!(at(0, 5), p.grid_state().scroll());
    let (shown, _) = p.arrange(area);
    assert_eq!((5, 10), shown.unwrap().rows);
    press(&mut p, &[plain(KeyCode::Down); 7]);
    let (shown, _) = p.arrange(area);
    assert_eq!((8, 13), shown.unwrap().rows);
    assert_eq!(
        Some(Rect {
            x: 0,
            y: 4,
            width: 2,
            height: 1
        }),
        p.grid_state().selected_area()
    );
    press(&mut p, &[plain(KeyCode::PageUp)]);
    assert_eq!(at(0, 7), p.selection());
    let (shown, _) = p.arrange(area);
    assert_eq!((3, 8), shown.unwrap().rows);
    press(&mut p, &[plain(KeyCode::PageUp), plain(KeyCode::PageUp)]);
    assert_eq!(at(0, 0), p.selection());
    press(&mut p, &[Input(KeyCode::PageDown, KeyModifiers::alt())]);
    assert_eq!(at(2, 0), p.selection());
    press(&mut p, &[Input(KeyCode::PageUp, KeyModifiers::alt())]);
    assert_eq!(at(0, 0), p.selection());
}

#[test]
fn columns_are_as_wide_as_their_widest_cell() {
    let g = Grid::from_csv(vec![row(&["a", "héllo", ""]), row(&["abc", "x", ""])]).unwrap();
    assert_eq!(vec![3, 6, 0], GridView::new(&g).widths());
    let none = Grid::default();
    assert_eq!(Vec::<u16>::new(), GridView::new(&none).widths());
    let long = "x".repeat(70_000);
    let g = Grid::from_csv(vec![vec![long]]).unwrap();
    assert_eq!(vec![u16::MAX], GridView::new(&g).widths());
}

#[test]
fn status_message_takes_the_name_as_shown() {
    let s = Status::Read("f".to_string(), Err("why".to_string()));
    assert_eq!("Error reading from <f>: why", s.message_with("<f>"));
    assert_eq!(Some(&"f".to_string()), s.file());
    let s = Status::DumpState(Ok("p".to_string()));
    assert_eq!("Dumped state to [p]", s.message_with("[p]"));
    assert_eq!(Some(&"p".to_string()), s.file());
    let s = Status::DumpState(Err("e".to_string()));
    assert_eq!("Error dumping state: e", s.message_with("unused"));
    assert_eq!(None, s.file());
    assert_eq!("Nothing left to undo", Status::UndoLimit.message_with("x"));
    assert_eq!(None, Status::RedoLimit.file());
}

#[test]
fn selection_is_set_from_outside() {
    let mut p = program();
    p.set_selection(at(2, 1));
    assert_eq!(at(2, 1), p.selection());
    press(&mut p, &[plain(KeyCode::Delete)]);
    assert_eq!(row(&["d", "e", ""]), p.grid().cells()[1]);
    let area = Rect {
        x: 1,
        y: 1,
        width: 20,
        height: 5,
    };
    let (shown, widths) = p.arrange(area);
    assert_eq!(vec![1, 1, 1], widths);
    assert_eq!(
        Some(TableLayout {
            rows: (0, 3),
            cols: (0, 3)
        }),
        shown
    );
    assert_eq!(Some(at(2, 1)), p.grid_state().selected());
    assert_eq!(
        Some(Rect {
            x: 5,
            y: 2,
            width: 1,
            height: 1
        }),
        p.grid_state().selected_area()
    );
}
