//! The symbols that bindings are made of: a key with its modifiers, and the
//! buffer that collects them until they resolve.
use vstd::prelude::*;

use crate::text::{push_str, string_of};

verus! {

/// A key that plays or steers media.
#[derive(Clone, Copy, Debug, PartialEq, Eq, PartialOrd, Ord, Hash, Structural)]
pub enum MediaKeyCode {
    Play,
    Pause,
    PlayPause,
    Reverse,
    Stop,
    FastForward,
    Rewind,
    TrackNext,
    TrackPrevious,
    Record,
    LowerVolume,
    RaiseVolume,
    MuteVolume,
}

/// A modifier key pressed by itself.
#[derive(Clone, Copy, Debug, PartialEq, Eq, PartialOrd, Ord, Hash, Structural)]
pub enum ModifierKeyCode {
    LeftShift,
    LeftControl,
    LeftAlt,
    LeftSuper,
    LeftHyper,
    LeftMeta,
    RightShift,
    RightControl,
    RightAlt,
    RightSuper,
    RightHyper,
    RightMeta,
    IsoLevel3Shift,
    IsoLevel5Shift,
}

/// A key of the keyboard.
#[derive(Clone, Copy, Debug, PartialEq, Eq, PartialOrd, Ord, Hash, Structural)]
pub enum KeyCode {
    Backspace,
    Enter,
    Left,
    Right,
    Up,
    Down,
    Home,
    End,
    PageUp,
    PageDown,
    Tab,
    BackTab,
    Delete,
    Insert,
    /// A function key, by its number.
    F(u8),
    /// A key that gives a character.
    Char(char),
    Null,
    Esc,
    CapsLock,
    ScrollLock,
    NumLock,
    PrintScreen,
    Pause,
    Menu,
    KeypadBegin,
    Media(MediaKeyCode),
    Modifier(ModifierKeyCode),
}

/// The set of modifier keys held down with a key, one bit each.
#[derive(Clone, Copy, Debug, PartialEq, Eq, PartialOrd, Ord, Hash, Structural)]
pub struct KeyModifiers {
    pub bits: u8,
}

impl KeyModifiers {
    pub const SHIFT_BIT: u8 = 1;

    pub const CONTROL_BIT: u8 = 2;

    pub const ALT_BIT: u8 = 4;

    pub const SUPER_BIT: u8 = 8;

    pub const HYPER_BIT: u8 = 16;

    pub const META_BIT: u8 = 32;

    /// Whether every modifier of `other` is in this set.
    pub open spec fn spec_contains(self, other: KeyModifiers) -> bool {
        self.bits & other.bits == other.bits
    }

    /// The set without any modifier.
    pub fn empty() -> (m: KeyModifiers)
        ensures
            m.bits == 0,
    {
        KeyModifiers { bits: 0 }
    }

    /// The set without any modifier.
    pub fn none() -> (m: KeyModifiers)
        ensures
            m.bits == 0,
    {
        KeyModifiers { bits: 0 }
    }

    /// Shift alone.
    pub fn shift() -> (m: KeyModifiers)
        ensures
            m.bits == KeyModifiers::SHIFT_BIT,
    {
        KeyModifiers { bits: KeyModifiers::SHIFT_BIT }
    }

    /// Control alone.
    pub fn control() -> (m: KeyModifiers)
        ensures
            m.bits == KeyModifiers::CONTROL_BIT,
    {
        KeyModifiers { bits: KeyModifiers::CONTROL_BIT }
    }

    /// Alt alone.
    pub fn alt() -> (m: KeyModifiers)
        ensures
            m.bits == KeyModifiers::ALT_BIT,
    {
        KeyModifiers { bits: KeyModifiers::ALT_BIT }
    }

    /// Whether every modifier of `other` is in this set.
    #[verifier::when_used_as_spec(spec_contains)]
    pub fn contains(self, other: KeyModifiers) -> (b: bool)
        ensures
            b == self.spec_contains(other),
    {
        self.bits & other.bits == other.bits
    }
}

/// One symbol of input: a key and the modifiers held with it. Two inputs
/// are the same when both parts are.
#[derive(Clone, Copy, Debug, PartialEq, Eq, PartialOrd, Ord, Hash, Structural)]
pub struct Input(pub KeyCode, pub KeyModifiers);

impl Input {
    /// The input of a key pressed without modifiers.
    pub fn from_code(code: KeyCode) -> (i: Input)
        ensures
            i == Input(code, KeyModifiers { bits: 0 }),
    {
        Input(code, KeyModifiers { bits: 0 })
    }

    /// The input of a character typed without modifiers.
    pub fn from_char(c: char) -> (i: Input)
        ensures
            i == Input(KeyCode::Char(c), KeyModifiers { bits: 0 }),
    {
        Input(KeyCode::Char(c), KeyModifiers { bits: 0 })
    }
}

/// The inputs received since the last one that resolved, oldest first.
#[derive(Debug, Default, Clone, PartialEq, Eq, PartialOrd, Ord, Hash)]
pub struct InputBuffer(pub Vec<Input>);

impl View for InputBuffer {
    type V = Seq<Input>;

    open spec fn view(&self) -> Seq<Input> {
        self.0@
    }
}

impl InputBuffer {
    /// The buffer without any input.
    pub fn new() -> (b: InputBuffer)
        ensures
            b@ == Seq::<Input>::empty(),
    {
        InputBuffer(Vec::new())
    }

    /// Whether the buffer holds no input.
    pub fn is_empty(&self) -> (b: bool)
        ensures
            b <==> self@.len() == 0,
    {
        self.0.is_empty()
    }

    /// Adds `i` as the newest input.
    pub fn push(&mut self, i: Input)
        ensures
            final(self)@ == old(self)@.push(i),
    {
        self.0.push(i);
    }

    /// Takes the newest input out, if there is one.
    pub fn pop(&mut self) -> (i: Option<Input>)
        ensures
            old(self)@.len() == 0 ==> i is None && final(self)@ == old(self)@,
            old(self)@.len() > 0 ==> i == Some(old(self)@.last()) && final(self)@
                == old(self)@.drop_last(),
    {
        self.0.pop()
    }

    /// Drops every input.
    pub fn clear(&mut self)
        ensures
            final(self)@ == Seq::<Input>::empty(),
    {
        self.0.clear();
    }

    /// The inputs, oldest first.
    pub fn as_slice(&self) -> (s: &[Input])
        ensures
            s@ == self@,
    {
        self.0.as_slice()
    }

    /// Adds the inputs of `more`, in their order, as the newest ones.
    pub fn extend(&mut self, more: &[Input])
        ensures
            final(self)@ == old(self)@ + more@,
    {
        let mut k: usize = 0;
        while k < more.len()
            invariant
                k <= more@.len(),
                self@ == old(self)@ + more@.take(k as int),
            decreases more@.len() - k,
        {
            self.0.push(more[k]);
            assert(more@.take(k as int + 1) =~= more@.take(k as int).push(more@[k as int]));
            k += 1;
        }
        assert(more@.take(k as int) =~= more@);
    }

    /// The buffer that holds the inputs of `inputs`, in their order.
    pub fn from_inputs(inputs: &[Input]) -> (b: InputBuffer)
        ensures
            b@ == inputs@,
    {
        let mut b = InputBuffer(Vec::new());
        b.extend(inputs);
        b
    }
}

/// The character of a decimal digit.
pub open spec fn digit(d: int) -> char {
    if d == 0 {
        '0'
    } else if d == 1 {
        '1'
    } else if d == 2 {
        '2'
    } else if d == 3 {
        '3'
    } else if d == 4 {
        '4'
    } else if d == 5 {
        '5'
    } else if d == 6 {
        '6'
    } else if d == 7 {
        '7'
    } else if d == 8 {
        '8'
    } else {
        '9'
    }
}

/// The decimal digits of `n`, without leading zeros.
pub open spec fn decimal(n: u8) -> Seq<char> {
    if n >= 100 {
        seq![digit(n as int / 100), digit((n as int / 10) % 10), digit(n as int % 10)]
    } else if n >= 10 {
        seq![digit(n as int / 10), digit(n as int % 10)]
    } else {
        seq![digit(n as int)]
    }
}

/// The character of the decimal digit `d`.
fn digit_char(d: u8) -> (c: char)
    requires
        d < 10,
    ensures
        c == digit(d as int),
{
    match d {
        0 => '0',
        1 => '1',
        2 => '2',
        3 => '3',
        4 => '4',
        5 => '5',
        6 => '6',
        7 => '7',
        8 => '8',
        _ => '9',
    }
}

impl MediaKeyCode {
    /// The name of the key.
    pub open spec fn name(self) -> Seq<char> {
        match self {
            MediaKeyCode::Play => "Play"@,
            MediaKeyCode::Pause => "Pause"@,
            MediaKeyCode::PlayPause => "PlayPause"@,
            MediaKeyCode::Reverse => "Reverse"@,
            MediaKeyCode::Stop => "Stop"@,
            MediaKeyCode::FastForward => "FastForward"@,
            MediaKeyCode::Rewind => "Rewind"@,
            MediaKeyCode::TrackNext => "TrackNext"@,
            MediaKeyCode::TrackPrevious => "TrackPrevious"@,
            MediaKeyCode::Record => "Record"@,
            MediaKeyCode::LowerVolume => "LowerVolume"@,
            MediaKeyCode::RaiseVolume => "RaiseVolume"@,
            MediaKeyCode::MuteVolume => "MuteVolume"@,
        }
    }

    fn name_str(self) -> (s: &'static str)
        ensures
            s@ == self.name(),
    {
        match self {
            MediaKeyCode::Play => "Play",
            MediaKeyCode::Pause => "Pause",
            MediaKeyCode::PlayPause => "PlayPause",
            MediaKeyCode::Reverse => "Reverse",
            MediaKeyCode::Stop => "Stop",
            MediaKeyCode::FastForward => "FastForward",
            MediaKeyCode::Rewind => "Rewind",
            MediaKeyCode::TrackNext => "TrackNext",
            MediaKeyCode::TrackPrevious => "TrackPrevious",
            MediaKeyCode::Record => "Record",
            MediaKeyCode::LowerVolume => "LowerVolume",
            MediaKeyCode::RaiseVolume => "RaiseVolume",
            MediaKeyCode::MuteVolume => "MuteVolume",
        }
    }
}

impl ModifierKeyCode {
    /// The name of the key.
    pub open spec fn name(self) -> Seq<char> {
        match self {
            ModifierKeyCode::LeftShift => "LeftShift"@,
            ModifierKeyCode::LeftControl => "LeftControl"@,
            ModifierKeyCode::LeftAlt => "LeftAlt"@,
            ModifierKeyCode::LeftSuper => "LeftSuper"@,
            ModifierKeyCode::LeftHyper => "LeftHyper"@,
            ModifierKeyCode::LeftMeta => "LeftMeta"@,
            ModifierKeyCode::RightShift => "RightShift"@,
            ModifierKeyCode::RightControl => "RightControl"@,
            ModifierKeyCode::RightAlt => "RightAlt"@,
            ModifierKeyCode::RightSuper => "RightSuper"@,
            ModifierKeyCode::RightHyper => "RightHyper"@,
            ModifierKeyCode::RightMeta => "RightMeta"@,
            ModifierKeyCode::IsoLevel3Shift => "IsoLevel3Shift"@,
            ModifierKeyCode::IsoLevel5Shift => "IsoLevel5Shift"@,
        }
    }

    fn name_str(self) -> (s: &'static str)
        ensures
            s@ == self.name(),
    {
        match self {
            ModifierKeyCode::LeftShift => "LeftShift",
            ModifierKeyCode::LeftControl => "LeftControl",
            ModifierKeyCode::LeftAlt => "LeftAlt",
            ModifierKeyCode::LeftSuper => "LeftSuper",
            ModifierKeyCode::LeftHyper => "LeftHyper",
            ModifierKeyCode::LeftMeta => "LeftMeta",
            ModifierKeyCode::RightShift => "RightShift",
            ModifierKeyCode::RightControl => "RightControl",
            ModifierKeyCode::RightAlt => "RightAlt",
            ModifierKeyCode::RightSuper => "RightSuper",
            ModifierKeyCode::RightHyper => "RightHyper",
            ModifierKeyCode::RightMeta => "RightMeta",
            ModifierKeyCode::IsoLevel3Shift => "IsoLevel3Shift",
            ModifierKeyCode::IsoLevel5Shift => "IsoLevel5Shift",
        }
    }
}

impl KeyCode {
    /// What the key is called towards the user: a function key by `F` and
    /// its number, a character by itself, every other key by its name.
    pub open spec fn name(self) -> Seq<char> {
        match self {
            KeyCode::Backspace => "Backspace"@,
            KeyCode::Enter => "Enter"@,
            KeyCode::Left => "Left"@,
            KeyCode::Right => "Right"@,
            KeyCode::Up => "Up"@,
            KeyCode::Down => "Down"@,
            KeyCode::Home => "Home"@,
            KeyCode::End => "End"@,
            KeyCode::PageUp => "PageUp"@,
            KeyCode::PageDown => "PageDown"@,
            KeyCode::Tab => "Tab"@,
            KeyCode::BackTab => "BackTab"@,
            KeyCode::Delete => "Delete"@,
            KeyCode::Insert => "Insert"@,
            KeyCode::F(n) => "F"@ + decimal(n),
            KeyCode::Char(c) => seq![c],
            KeyCode::Null => "Null"@,
            KeyCode::Esc => "Esc"@,
            KeyCode::CapsLock => "CapsLock"@,
            KeyCode::ScrollLock => "ScrollLock"@,
            KeyCode::NumLock => "NumLock"@,
            KeyCode::PrintScreen => "PrintScreen"@,
            KeyCode::Pause => "Pause"@,
            KeyCode::Menu => "Menu"@,
            KeyCode::KeypadBegin => "KeypadBegin"@,
            KeyCode::Media(m) => "Media("@ + m.name() + ")"@,
            KeyCode::Modifier(m) => "Modifier("@ + m.name() + ")"@,
        }
    }

    /// Writes the name of the key behind `out`.
    fn write_name(self, out: &mut Vec<char>)
        ensures
            final(out)@ == old(out)@ + self.name(),
    {
        match self {
            KeyCode::Backspace => push_str(out, "Backspace"),
            KeyCode::Enter => push_str(out, "Enter"),
            KeyCode::Left => push_str(out, "Left"),
            KeyCode::Right => push_str(out, "Right"),
            KeyCode::Up => push_str(out, "Up"),
            KeyCode::Down => push_str(out, "Down"),
            KeyCode::Home => push_str(out, "Home"),
            KeyCode::End => push_str(out, "End"),
            KeyCode::PageUp => push_str(out, "PageUp"),
            KeyCode::PageDown => push_str(out, "PageDown"),
            KeyCode::Tab => push_str(out, "Tab"),
            KeyCode::BackTab => push_str(out, "BackTab"),
            KeyCode::Delete => push_str(out, "Delete"),
            KeyCode::Insert => push_str(out, "Insert"),
            KeyCode::F(n) => {
                push_str(out, "F");
                if n >= 100 {
                    out.push(digit_char(n / 100));
                }
                if n >= 10 {
                    out.push(digit_char((n / 10) % 10));
                }
                out.push(digit_char(n % 10));
                assert(out@ =~= old(out)@ + ("F"@ + decimal(n)));
            },
            KeyCode::Char(c) => {
                out.push(c);
                assert(out@ =~= old(out)@ + seq![c]);
            },
            KeyCode::Null => push_str(out, "Null"),
            KeyCode::Esc => push_str(out, "Esc"),
            KeyCode::CapsLock => push_str(out, "CapsLock"),
            KeyCode::ScrollLock => push_str(out, "ScrollLock"),
            KeyCode::NumLock => push_str(out, "NumLock"),
            KeyCode::PrintScreen => push_str(out, "PrintScreen"),
            KeyCode::Pause => push_str(out, "Pause"),
            KeyCode::Menu => push_str(out, "Menu"),
            KeyCode::KeypadBegin => push_str(out, "KeypadBegin"),
            KeyCode::Media(m) => {
                push_str(out, "Media(");
                push_str(out, m.name_str());
                push_str(out, ")");
                assert(out@ =~= old(out)@ + ("Media("@ + m.name() + ")"@));
            },
            KeyCode::Modifier(m) => {
                push_str(out, "Modifier(");
                push_str(out, m.name_str());
                push_str(out, ")");
                assert(out@ =~= old(out)@ + ("Modifier("@ + m.name() + ")"@));
            },
        }
    }
}

impl Input {
    /// What the input is called towards the user: Control, Alt and Shift,
    /// as far as they are held, and then the key.
    pub open spec fn name(self) -> Seq<char> {
        (if self.1.contains(KeyModifiers { bits: KeyModifiers::CONTROL_BIT }) {
            "Ctrl "@
        } else {
            Seq::empty()
        }) + (if self.1.contains(KeyModifiers { bits: KeyModifiers::ALT_BIT }) {
            "Alt "@
        } else {
            Seq::empty()
        }) + (if self.1.contains(KeyModifiers { bits: KeyModifiers::SHIFT_BIT }) {
            "Shift "@
        } else {
            Seq::empty()
        }) + self.0.name()
    }

    /// Writes the name of the input behind `out`.
    fn write_name(self, out: &mut Vec<char>)
        ensures
            final(out)@ == old(out)@ + self.name(),
    {
        if self.1.contains(KeyModifiers::control()) {
            push_str(out, "Ctrl ");
        }
        if self.1.contains(KeyModifiers::alt()) {
            push_str(out, "Alt ");
        }
        if self.1.contains(KeyModifiers::shift()) {
            push_str(out, "Shift ");
        }
        self.0.write_name(out);
        assert(out@ =~= old(out)@ + self.name());
    }

    /// What the input is called towards the user.
    pub fn to_string(&self) -> (s: String)
        ensures
            s@ == self.name(),
    {
        let mut out: Vec<char> = Vec::new();
        self.write_name(&mut out);
        assert(out@ =~= self.name());
        string_of(&out)
    }
}

/// The names of the first `n` inputs of `inputs`, with a comma and a space
/// between one and the next.
pub open spec fn names(inputs: Seq<Input>, n: int) -> Seq<char>
    decreases n,
{
    if n <= 0 {
        Seq::empty()
    } else if n == 1 {
        inputs[0].name()
    } else {
        names(inputs, n - 1) + ", "@ + inputs[n - 1].name()
    }
}

impl InputBuffer {
    /// What the inputs are called towards the user, oldest first.
    pub fn to_string(&self) -> (s: String)
        ensures
            s@ == names(self@, self@.len() as int),
    {
        let mut out: Vec<char> = Vec::new();
        let mut i: usize = 0;
        while i < self.0.len()
            invariant
                i <= self@.len(),
                out@ == names(self@, i as int),
            decreases self@.len() - i,
        {
            if i != 0 {
                push_str(&mut out, ", ");
            }
            self.0[i].write_name(&mut out);
            assert(out@ =~= names(self@, i + 1));
            i += 1;
        }
        string_of(&out)
    }
}

} // verus!
