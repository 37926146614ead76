use sht::input::{Input, InputBuffer, KeyCode, KeyModifiers, MediaKeyCode, ModifierKeyCode};

#[test]
fn inputs_are_named() {
    assert_eq!(
        "Ctrl c",
        Input(KeyCode::Char('c'), KeyModifiers::control()).to_string()
    );
    assert_eq!("F12", Input(KeyCode::F(12), KeyModifiers::none()).to_string());
    assert_eq!("F7", Input::from_code(KeyCode::F(7)).to_string());
    assert_eq!("F255", Input::from_code(KeyCode::F(255)).to_string());
    assert_eq!("F100", Input::from_code(KeyCode::F(100)).to_string());
    assert_eq!("é", Input::from_char('é').to_string());
    assert_eq!("PageDown", Input::from_code(KeyCode::PageDown).to_string());
    assert_eq!(
        "Ctrl Alt Shift Backspace",
        Input(KeyCode::Backspace, KeyModifiers { bits: 7 }).to_string()
    );
    assert_eq!(
        "Alt Shift Media(Play)",
        Input(KeyCode::Media(MediaKeyCode::Play), KeyModifiers { bits: 5 }).to_string()
    );
    assert_eq!(
        "Modifier(LeftShift)",
        Input(
            KeyCode::Modifier(ModifierKeyCode::LeftShift),
            KeyModifiers { bits: 8 }
        )
        .to_string()
    );
}

#[test]
fn buffers_are_named() {
    let mut b = InputBuffer::new();
    assert_eq!("", b.to_string());
    b.push(Input(KeyCode::Char('-'), KeyModifiers::alt()));
    assert_eq!("Alt -", b.to_string());
    b.push(Input::from_char('c'));
    assert_eq!("Alt -, c", b.to_string());
    b.extend(&[Input::from_code(KeyCode::Esc)]);
    assert_eq!("Alt -, c, Esc", b.to_string());
    assert_eq!(3, b.as_slice().len());
}

#[test]
fn modifiers_are_sets() {
    let all = KeyModifiers { bits: 7 };
    assert!(all.contains(KeyModifiers::control()));
    assert!(all.contains(KeyModifiers::shift()));
    assert!(all.contains(KeyModifiers::none()));
    assert!(!KeyModifiers::alt().contains(KeyModifiers::control()));
    assert!(KeyModifiers::empty().contains(KeyModifiers::none()));
    assert_eq!(KeyModifiers::none(), KeyModifiers::empty());
    assert_eq!(2, KeyModifiers::CONTROL_BIT);
}

#[test]
fn inputs_are_ordered_by_key_then_modifiers() {
    let a = Input(KeyCode::Backspace, KeyModifiers::alt());
    let b = Input(KeyCode::Enter, KeyModifiers::none());
    let c = Input(KeyCode::Enter, KeyModifiers::shift());
    assert!(a < b);
    assert!(b < c);
    assert!(Input::from_char('a') < Input::from_char('b'));
}
