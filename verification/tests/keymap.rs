use sht::bindings::{BindNode, Bindings};
use sht::input::{Input, KeyCode, KeyModifiers};
use sht::program::{Action, Direction};
use sht::views::edit::EditAction;

fn plain(code: KeyCode) -> Input {
    Input(code, KeyModifiers::none())
}

#[test]
fn default_bindings_resolve_single_keys() {
    let b: Bindings<Action> = Bindings::default();
    assert_eq!(
        Some(&Action::Move(Direction::Up)),
        b.get_single(plain(KeyCode::Up))
    );
    assert_eq!(
        Some(&Action::Move(Direction::Right)),
        b.get_single(plain(KeyCode::Tab))
    );
    assert_eq!(
        Some(&Action::Move(Direction::Down)),
        b.get_single(plain(KeyCode::Char('j')))
    );
    assert_eq!(Some(&Action::HomeRow), b.get_single(plain(KeyCode::Home)));
    assert_eq!(
        Some(&Action::Home),
        b.get_single(Input(KeyCode::Home, KeyModifiers::control()))
    );
    assert_eq!(
        Some(&Action::Jump(Direction::Left)),
        b.get_single(Input(KeyCode::PageUp, KeyModifiers::alt()))
    );
    assert_eq!(
        Some(&Action::Undo),
        b.get_single(Input(KeyCode::Char('z'), KeyModifiers::control()))
    );
    assert_eq!(Some(&Action::Edit), b.get_single(plain(KeyCode::F(2))));
    assert_eq!(
        Some(&Action::TogglePalette),
        b.get_single(plain(KeyCode::F(1)))
    );
    assert_eq!(None, b.get_single(plain(KeyCode::Char('z'))));
    assert_eq!(None, b.get_single(plain(KeyCode::F(3))));
}

#[test]
fn default_bindings_hold_two_chords() {
    let b: Bindings<Action> = Bindings::default();
    let minus = Input(KeyCode::Char('-'), KeyModifiers::alt());
    let plus = Input(KeyCode::Char('+'), KeyModifiers::alt());
    match b.get(&[minus]) {
        Some(BindNode::Chord { name, .. }) => assert_eq!("Delete", name),
        _ => panic!("no chord"),
    }
    match b.get(&[plus]) {
        Some(BindNode::Chord { name, .. }) => assert_eq!("Insert", name),
        _ => panic!("no chord"),
    }
    let c = plain(KeyCode::Char('c'));
    let r = plain(KeyCode::Char('r'));
    assert_eq!(
        Some(&Action::DeleteCol),
        b.get(&[minus, c]).and_then(BindNode::action)
    );
    assert_eq!(
        Some(&Action::DeleteRow),
        b.get(&[minus, r]).and_then(BindNode::action)
    );
    assert_eq!(
        Some(&Action::InsertCol),
        b.get(&[plus, c]).and_then(BindNode::action)
    );
    assert_eq!(
        Some(&Action::InsertRow),
        b.get(&[plus, r]).and_then(BindNode::action)
    );
    assert!(b.get(&[plus, plain(KeyCode::Char('x'))]).is_none());
    assert_eq!(33, b.iter().len());
}

#[test]
fn edit_bindings_are_single_keys() {
    let b = EditAction::bindings();
    assert_eq!(Some(&EditAction::Cancel), b.get_single(plain(KeyCode::Esc)));
    assert_eq!(
        Some(&EditAction::Jump(Direction::Left)),
        b.get_single(plain(KeyCode::Home))
    );
    assert_eq!(
        Some(&EditAction::Move(Direction::Down)),
        b.get_single(plain(KeyCode::Down))
    );
    assert_eq!(None, b.get_single(plain(KeyCode::Tab)));
    assert_eq!(10, b.iter().len());
}

#[test]
fn actions_are_listed_in_order() {
    let all = Action::all();
    assert_eq!(Action::COUNT, all.len());
    assert_eq!(Action::Move(Direction::Down), all[0]);
    assert_eq!(Action::Jump(Direction::Up), all[7]);
    assert_eq!(Action::GoTo, all[8]);
    assert_eq!(Action::TogglePalette, all[29]);
    let mut sorted = all.clone();
    sorted.sort();
    sorted.dedup();
    assert_eq!(all, sorted);
}

#[test]
fn actions_are_described() {
    assert_eq!("Move the cursor", Action::Move(Direction::Left).desc());
    assert_eq!("Jump", Action::Jump(Direction::Left).desc());
    assert_eq!("Quit the program", Action::Quit.desc());
    assert_eq!(
        "Reload the original file, dropping any unsaved changes",
        Action::Read.desc()
    );
    assert_eq!("TogglePalette", Action::TogglePalette.desc());
}
