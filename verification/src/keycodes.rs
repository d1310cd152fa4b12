//! The vocabulary: the keys and the modifier classes, with the text
//! that stands for each.

use core::cmp::Ordering;
use vstd::prelude::*;
use vstd::std_specs::cmp::PartialOrdSpecImpl;
use vstd::string::StringSliceAdditionalSpecFns;
use vstd::utf8::encode_utf8_decode_utf8;

verus! {

/// One of the four modifier classes a binding can carry.
///
/// The declaration order is the canonical order in which modifiers
/// are written out.
#[derive(Clone, Copy, Debug, PartialEq, Eq, Structural, Hash, Ord)]
pub enum KeyModifier {
    CtrlCmd,
    Shift,
    AltOpt,
    Function,
}

/// Whether `c` is the text symbol of some modifier class.
pub open spec fn is_modifier_symbol(c: char) -> bool {
    c == '^' || c == '_' || c == '*' || c == '!'
}

impl KeyModifier {
    /// Position of the modifier in the canonical order.
    pub open spec fn rank(self) -> nat {
        match self {
            KeyModifier::CtrlCmd => 0,
            KeyModifier::Shift => 1,
            KeyModifier::AltOpt => 2,
            KeyModifier::Function => 3,
        }
    }

    /// The single character that stands for the modifier in text.
    pub open spec fn symbol(self) -> char {
        match self {
            KeyModifier::CtrlCmd => '^',
            KeyModifier::Shift => '_',
            KeyModifier::AltOpt => '*',
            KeyModifier::Function => '!',
        }
    }

    /// The modifier class that `c` stands for, if any.
    pub open spec fn from_symbol(c: char) -> Option<KeyModifier> {
        if c == '^' {
            Some(KeyModifier::CtrlCmd)
        } else if c == '_' {
            Some(KeyModifier::Shift)
        } else if c == '*' {
            Some(KeyModifier::AltOpt)
        } else if c == '!' {
            Some(KeyModifier::Function)
        } else {
            None
        }
    }

    /// Position of the modifier in the canonical order.
    pub fn position(&self) -> (p: u8)
        ensures
            p == self.rank(),
    {
        match self {
            KeyModifier::CtrlCmd => 0,
            KeyModifier::Shift => 1,
            KeyModifier::AltOpt => 2,
            KeyModifier::Function => 3,
        }
    }

    /// The symbol of the modifier.
    pub fn serialize(&self) -> (c: char)
        ensures
            c == self.symbol(),
    {
        match self {
            KeyModifier::CtrlCmd => '^',
            KeyModifier::Shift => '_',
            KeyModifier::AltOpt => '*',
            KeyModifier::Function => '!',
        }
    }

    /// The modifier that `ch` stands for; an error where it stands for none.
    pub fn deserialize(ch: char) -> (r: Result<KeyModifier, ()>)
        ensures
            r.ok() == KeyModifier::from_symbol(ch),
    {
        if ch == '^' {
            Ok(KeyModifier::CtrlCmd)
        } else if ch == '_' {
            Ok(KeyModifier::Shift)
        } else if ch == '*' {
            Ok(KeyModifier::AltOpt)
        } else if ch == '!' {
            Ok(KeyModifier::Function)
        } else {
            Err(())
        }
    }

    /// The symbol as a one-character piece of text.
    pub fn symbol_text(&self) -> (s: &'static str)
        ensures
            s@ == seq![self.symbol()],
    {
        proof {
            reveal_strlit("^");
            reveal_strlit("_");
            reveal_strlit("*");
            reveal_strlit("!");
        }
        let s = match self {
            KeyModifier::CtrlCmd => "^",
            KeyModifier::Shift => "_",
            KeyModifier::AltOpt => "*",
            KeyModifier::Function => "!",
        };
        assert(s@ =~= seq![self.symbol()]);
        s
    }

    /// `from_symbol` undoes `symbol`, and accepts nothing but the four symbols.
    pub proof fn lemma_symbol_round_trip(m: KeyModifier, c: char)
        ensures
            KeyModifier::from_symbol(m.symbol()) == Some(m),
            KeyModifier::from_symbol(c) is Some <==> is_modifier_symbol(c),
            KeyModifier::from_symbol(c) matches Some(n) ==> n.symbol() == c,
    {
    }
}

impl PartialOrd for KeyModifier {
    fn partial_cmp(&self, other: &Self) -> (order: Option<Ordering>) {
        let (mine, theirs) = (self.position(), other.position());
        if mine < theirs {
            Some(Ordering::Less)
        } else if mine == theirs {
            Some(Ordering::Equal)
        } else {
            Some(Ordering::Greater)
        }
    }
}

impl PartialOrdSpecImpl for KeyModifier {
    open spec fn obeys_partial_cmp_spec() -> bool {
        true
    }

    open spec fn partial_cmp_spec(&self, other: &Self) -> Option<Ordering> {
        if self.rank() < other.rank() {
            Some(Ordering::Less)
        } else if self.rank() == other.rank() {
            Some(Ordering::Equal)
        } else {
            Some(Ordering::Greater)
        }
    }
}

/// The text that stands for a binding without a key.
pub open spec fn unbound_text() -> Seq<char> {
    seq!['.', '.', '.']
}

/// How many keys the vocabulary holds.
pub const KEY_COUNT: u8 = 97;

/// A physical key.
#[derive(Clone, Copy, Debug, PartialEq, Eq, Structural, Hash)]
pub enum KeyCode {
    Key0,
    Key1,
    Key2,
    Key3,
    Key4,
    Key5,
    Key6,
    Key7,
    Key8,
    Key9,
    A,
    B,
    C,
    D,
    E,
    F,
    G,
    H,
    I,
    J,
    K,
    L,
    M,
    N,
    O,
    P,
    Q,
    R,
    S,
    T,
    U,
    V,
    W,
    X,
    Y,
    Z,
    F1,
    F2,
    F3,
    F4,
    F5,
    F6,
    F7,
    F8,
    F9,
    F10,
    F11,
    F12,
    Escape,
    Space,
    LControl,
    RControl,
    LShift,
    RShift,
    LAlt,
    RAlt,
    Meta,
    Function,
    Enter,
    Up,
    Down,
    Left,
    Right,
    Backspace,
    CapsLock,
    Tab,
    Home,
    End,
    PageUp,
    PageDown,
    Insert,
    Delete,
    Numpad0,
    Numpad1,
    Numpad2,
    Numpad3,
    Numpad4,
    Numpad5,
    Numpad6,
    Numpad7,
    Numpad8,
    Numpad9,
    NumpadSubtract,
    NumpadAdd,
    NumpadDivide,
    NumpadMultiply,
    Grave,
    Minus,
    Equal,
    LeftBracket,
    RightBracket,
    BackSlash,
    Semicolon,
    Apostrophe,
    Comma,
    Dot,
    Slash,
}

impl KeyCode {
    /// The canonical name of the key, as it is written in text.
    pub open spec fn symbol(self) -> Seq<char> {
        match self {
            KeyCode::Key0 => "Key0"@,
            KeyCode::Key1 => "Key1"@,
            KeyCode::Key2 => "Key2"@,
            KeyCode::Key3 => "Key3"@,
            KeyCode::Key4 => "Key4"@,
            KeyCode::Key5 => "Key5"@,
            KeyCode::Key6 => "Key6"@,
            KeyCode::Key7 => "Key7"@,
            KeyCode::Key8 => "Key8"@,
            KeyCode::Key9 => "Key9"@,
            KeyCode::A => "A"@,
            KeyCode::B => "B"@,
            KeyCode::C => "C"@,
            KeyCode::D => "D"@,
            KeyCode::E => "E"@,
            KeyCode::F => "F"@,
            KeyCode::G => "G"@,
            KeyCode::H => "H"@,
            KeyCode::I => "I"@,
            KeyCode::J => "J"@,
            KeyCode::K => "K"@,
            KeyCode::L => "L"@,
            KeyCode::M => "M"@,
            KeyCode::N => "N"@,
            KeyCode::O => "O"@,
            KeyCode::P => "P"@,
            KeyCode::Q => "Q"@,
            KeyCode::R => "R"@,
            KeyCode::S => "S"@,
            KeyCode::T => "T"@,
            KeyCode::U => "U"@,
            KeyCode::V => "V"@,
            KeyCode::W => "W"@,
            KeyCode::X => "X"@,
            KeyCode::Y => "Y"@,
            KeyCode::Z => "Z"@,
            KeyCode::F1 => "F1"@,
            KeyCode::F2 => "F2"@,
            KeyCode::F3 => "F3"@,
            KeyCode::F4 => "F4"@,
            KeyCode::F5 => "F5"@,
            KeyCode::F6 => "F6"@,
            KeyCode::F7 => "F7"@,
            KeyCode::F8 => "F8"@,
            KeyCode::F9 => "F9"@,
            KeyCode::F10 => "F10"@,
            KeyCode::F11 => "F11"@,
            KeyCode::F12 => "F12"@,
            KeyCode::Escape => "Escape"@,
            KeyCode::Space => "Space"@,
            KeyCode::LControl => "LControl"@,
            KeyCode::RControl => "RControl"@,
            KeyCode::LShift => "LShift"@,
            KeyCode::RShift => "RShift"@,
            KeyCode::LAlt => "LAlt"@,
            KeyCode::RAlt => "RAlt"@,
            KeyCode::Meta => "Meta"@,
            KeyCode::Function => "Function"@,
            KeyCode::Enter => "Enter"@,
            KeyCode::Up => "Up"@,
            KeyCode::Down => "Down"@,
            KeyCode::Left => "Left"@,
            KeyCode::Right => "Right"@,
            KeyCode::Backspace => "Backspace"@,
            KeyCode::CapsLock => "CapsLock"@,
            KeyCode::Tab => "Tab"@,
            KeyCode::Home => "Home"@,
            KeyCode::End => "End"@,
            KeyCode::PageUp => "PageUp"@,
            KeyCode::PageDown => "PageDown"@,
            KeyCode::Insert => "Insert"@,
            KeyCode::Delete => "Delete"@,
            KeyCode::Numpad0 => "Numpad0"@,
            KeyCode::Numpad1 => "Numpad1"@,
            KeyCode::Numpad2 => "Numpad2"@,
            KeyCode::Numpad3 => "Numpad3"@,
            KeyCode::Numpad4 => "Numpad4"@,
            KeyCode::Numpad5 => "Numpad5"@,
            KeyCode::Numpad6 => "Numpad6"@,
            KeyCode::Numpad7 => "Numpad7"@,
            KeyCode::Numpad8 => "Numpad8"@,
            KeyCode::Numpad9 => "Numpad9"@,
            KeyCode::NumpadSubtract => "NumpadSubtract"@,
            KeyCode::NumpadAdd => "NumpadAdd"@,
            KeyCode::NumpadDivide => "NumpadDivide"@,
            KeyCode::NumpadMultiply => "NumpadMultiply"@,
            KeyCode::Grave => "Grave"@,
            KeyCode::Minus => "Minus"@,
            KeyCode::Equal => "Equal"@,
            KeyCode::LeftBracket => "LeftBracket"@,
            KeyCode::RightBracket => "RightBracket"@,
            KeyCode::BackSlash => "BackSlash"@,
            KeyCode::Semicolon => "Semicolon"@,
            KeyCode::Apostrophe => "Apostrophe"@,
            KeyCode::Comma => "Comma"@,
            KeyCode::Dot => "Dot"@,
            KeyCode::Slash => "Slash"@,
        }
    }

    /// Position of the key in the vocabulary.
    pub open spec fn index(self) -> nat {
        match self {
            KeyCode::Key0 => 0,
            KeyCode::Key1 => 1,
            KeyCode::Key2 => 2,
            KeyCode::Key3 => 3,
            KeyCode::Key4 => 4,
            KeyCode::Key5 => 5,
            KeyCode::Key6 => 6,
            KeyCode::Key7 => 7,
            KeyCode::Key8 => 8,
            KeyCode::Key9 => 9,
            KeyCode::A => 10,
            KeyCode::B => 11,
            KeyCode::C => 12,
            KeyCode::D => 13,
            KeyCode::E => 14,
            KeyCode::F => 15,
            KeyCode::G => 16,
            KeyCode::H => 17,
            KeyCode::I => 18,
            KeyCode::J => 19,
            KeyCode::K => 20,
            KeyCode::L => 21,
            KeyCode::M => 22,
            KeyCode::N => 23,
            KeyCode::O => 24,
            KeyCode::P => 25,
            KeyCode::Q => 26,
            KeyCode::R => 27,
            KeyCode::S => 28,
            KeyCode::T => 29,
            KeyCode::U => 30,
            KeyCode::V => 31,
            KeyCode::W => 32,
            KeyCode::X => 33,
            KeyCode::Y => 34,
            KeyCode::Z => 35,
            KeyCode::F1 => 36,
            KeyCode::F2 => 37,
            KeyCode::F3 => 38,
            KeyCode::F4 => 39,
            KeyCode::F5 => 40,
            KeyCode::F6 => 41,
            KeyCode::F7 => 42,
            KeyCode::F8 => 43,
            KeyCode::F9 => 44,
            KeyCode::F10 => 45,
            KeyCode::F11 => 46,
            KeyCode::F12 => 47,
            KeyCode::Escape => 48,
            KeyCode::Space => 49,
            KeyCode::LControl => 50,
            KeyCode::RControl => 51,
            KeyCode::LShift => 52,
            KeyCode::RShift => 53,
            KeyCode::LAlt => 54,
            KeyCode::RAlt => 55,
            KeyCode::Meta => 56,
            KeyCode::Function => 57,
            KeyCode::Enter => 58,
            KeyCode::Up => 59,
            KeyCode::Down => 60,
            KeyCode::Left => 61,
            KeyCode::Right => 62,
            KeyCode::Backspace => 63,
            KeyCode::CapsLock => 64,
            KeyCode::Tab => 65,
            KeyCode::Home => 66,
            KeyCode::End => 67,
            KeyCode::PageUp => 68,
            KeyCode::PageDown => 69,
            KeyCode::Insert => 70,
            KeyCode::Delete => 71,
            KeyCode::Numpad0 => 72,
            KeyCode::Numpad1 => 73,
            KeyCode::Numpad2 => 74,
            KeyCode::Numpad3 => 75,
            KeyCode::Numpad4 => 76,
            KeyCode::Numpad5 => 77,
            KeyCode::Numpad6 => 78,
            KeyCode::Numpad7 => 79,
            KeyCode::Numpad8 => 80,
            KeyCode::Numpad9 => 81,
            KeyCode::NumpadSubtract => 82,
            KeyCode::NumpadAdd => 83,
            KeyCode::NumpadDivide => 84,
            KeyCode::NumpadMultiply => 85,
            KeyCode::Grave => 86,
            KeyCode::Minus => 87,
            KeyCode::Equal => 88,
            KeyCode::LeftBracket => 89,
            KeyCode::RightBracket => 90,
            KeyCode::BackSlash => 91,
            KeyCode::Semicolon => 92,
            KeyCode::Apostrophe => 93,
            KeyCode::Comma => 94,
            KeyCode::Dot => 95,
            KeyCode::Slash => 96,
        }
    }

    /// The modifier class that the key belongs to, if it is a modifier key.
    /// Left and right variants fall into one class.
    pub open spec fn modifier(self) -> Option<KeyModifier> {
        match self {
            KeyCode::LControl | KeyCode::RControl | KeyCode::Meta => Some(KeyModifier::CtrlCmd),
            KeyCode::LShift | KeyCode::RShift => Some(KeyModifier::Shift),
            KeyCode::LAlt | KeyCode::RAlt => Some(KeyModifier::AltOpt),
            KeyCode::Function => Some(KeyModifier::Function),
            _ => None,
        }
    }

    /// The key whose canonical name is `s`, if there is one.
    pub open spec fn from_symbol(s: Seq<char>) -> Option<KeyCode> {
        if exists|k: KeyCode| #[trigger] k.symbol() == s {
            Some(choose|k: KeyCode| #[trigger] k.symbol() == s)
        } else {
            None
        }
    }

    /// What `text` reads as: no key where it is the text of the unbound
    /// binding, the key that it names, or an error.
    pub open spec fn read(text: Seq<char>) -> Result<Option<KeyCode>, ()> {
        if text == unbound_text() {
            Ok(None)
        } else {
            match KeyCode::from_symbol(text) {
                Some(key) => Ok(Some(key)),
                None => Err(()),
            }
        }
    }
}

/// Text equality of two string slices, decided on their encoded bytes.
pub fn same_text(a: &str, b: &str) -> (r: bool)
    ensures
        r == (a@ == b@),
{
    let x = a.as_bytes();
    let y = b.as_bytes();
    proof {
        encode_utf8_decode_utf8(a@);
        encode_utf8_decode_utf8(b@);
    }
    if x.len() != y.len() {
        return false;
    }
    let mut i: usize = 0;
    while i < x.len()
        invariant
            i <= x@.len(),
            x@.len() == y@.len(),
            x@ == a.spec_bytes(),
            y@ == b.spec_bytes(),
            forall|j: int| 0 <= j < i ==> x@[j] == y@[j],
        decreases x@.len() - i,
    {
        if x[i] != y[i] {
            return false;
        }
        i += 1;
    }
    assert(x@ =~= y@);
    true
}

impl KeyCode {
    /// The canonical name of the key.
    pub fn serialize(&self) -> (s: &'static str)
        ensures
            s@ == self.symbol(),
    {
        match self {
            KeyCode::Key0 => "Key0",
            KeyCode::Key1 => "Key1",
            KeyCode::Key2 => "Key2",
            KeyCode::Key3 => "Key3",
            KeyCode::Key4 => "Key4",
            KeyCode::Key5 => "Key5",
            KeyCode::Key6 => "Key6",
            KeyCode::Key7 => "Key7",
            KeyCode::Key8 => "Key8",
            KeyCode::Key9 => "Key9",
            KeyCode::A => "A",
            KeyCode::B => "B",
            KeyCode::C => "C",
            KeyCode::D => "D",
            KeyCode::E => "E",
            KeyCode::F => "F",
            KeyCode::G => "G",
            KeyCode::H => "H",
            KeyCode::I => "I",
            KeyCode::J => "J",
            KeyCode::K => "K",
            KeyCode::L => "L",
            KeyCode::M => "M",
            KeyCode::N => "N",
            KeyCode::O => "O",
            KeyCode::P => "P",
            KeyCode::Q => "Q",
            KeyCode::R => "R",
            KeyCode::S => "S",
            KeyCode::T => "T",
            KeyCode::U => "U",
            KeyCode::V => "V",
            KeyCode::W => "W",
            KeyCode::X => "X",
            KeyCode::Y => "Y",
            KeyCode::Z => "Z",
            KeyCode::F1 => "F1",
            KeyCode::F2 => "F2",
            KeyCode::F3 => "F3",
            KeyCode::F4 => "F4",
            KeyCode::F5 => "F5",
            KeyCode::F6 => "F6",
            KeyCode::F7 => "F7",
            KeyCode::F8 => "F8",
            KeyCode::F9 => "F9",
            KeyCode::F10 => "F10",
            KeyCode::F11 => "F11",
            KeyCode::F12 => "F12",
            KeyCode::Escape => "Escape",
            KeyCode::Space => "Space",
            KeyCode::LControl => "LControl",
            KeyCode::RControl => "RControl",
            KeyCode::LShift => "LShift",
            KeyCode::RShift => "RShift",
            KeyCode::LAlt => "LAlt",
            KeyCode::RAlt => "RAlt",
            KeyCode::Meta => "Meta",
            KeyCode::Function => "Function",
            KeyCode::Enter => "Enter",
            KeyCode::Up => "Up",
            KeyCode::Down => "Down",
            KeyCode::Left => "Left",
            KeyCode::Right => "Right",
            KeyCode::Backspace => "Backspace",
            KeyCode::CapsLock => "CapsLock",
            KeyCode::Tab => "Tab",
            KeyCode::Home => "Home",
            KeyCode::End => "End",
            KeyCode::PageUp => "PageUp",
            KeyCode::PageDown => "PageDown",
            KeyCode::Insert => "Insert",
            KeyCode::Delete => "Delete",
            KeyCode::Numpad0 => "Numpad0",
            KeyCode::Numpad1 => "Numpad1",
            KeyCode::Numpad2 => "Numpad2",
            KeyCode::Numpad3 => "Numpad3",
            KeyCode::Numpad4 => "Numpad4",
            KeyCode::Numpad5 => "Numpad5",
            KeyCode::Numpad6 => "Numpad6",
            KeyCode::Numpad7 => "Numpad7",
            KeyCode::Numpad8 => "Numpad8",
            KeyCode::Numpad9 => "Numpad9",
            KeyCode::NumpadSubtract => "NumpadSubtract",
            KeyCode::NumpadAdd => "NumpadAdd",
            KeyCode::NumpadDivide => "NumpadDivide",
            KeyCode::NumpadMultiply => "NumpadMultiply",
            KeyCode::Grave => "Grave",
            KeyCode::Minus => "Minus",
            KeyCode::Equal => "Equal",
            KeyCode::LeftBracket => "LeftBracket",
            KeyCode::RightBracket => "RightBracket",
            KeyCode::BackSlash => "BackSlash",
            KeyCode::Semicolon => "Semicolon",
            KeyCode::Apostrophe => "Apostrophe",
            KeyCode::Comma => "Comma",
            KeyCode::Dot => "Dot",
            KeyCode::Slash => "Slash",
        }
    }

    /// The modifier class of a modifier key; nothing for any other key.
    pub fn as_modifier(&self) -> (m: Option<KeyModifier>)
        ensures
            m == self.modifier(),
    {
        match self {
            KeyCode::LControl | KeyCode::RControl | KeyCode::Meta => Some(KeyModifier::CtrlCmd),
            KeyCode::LShift | KeyCode::RShift => Some(KeyModifier::Shift),
            KeyCode::LAlt | KeyCode::RAlt => Some(KeyModifier::AltOpt),
            KeyCode::Function => Some(KeyModifier::Function),
            _ => None,
        }
    }

    /// The key at position `i` of the vocabulary, if there is one.
    pub fn nth(i: u8) -> (key: Option<KeyCode>)
        ensures
            match key {
                Some(k) => k.index() == i,
                None => i >= KEY_COUNT,
            },
    {
        match i {
            0 => Some(KeyCode::Key0),
            1 => Some(KeyCode::Key1),
            2 => Some(KeyCode::Key2),
            3 => Some(KeyCode::Key3),
            4 => Some(KeyCode::Key4),
            5 => Some(KeyCode::Key5),
            6 => Some(KeyCode::Key6),
            7 => Some(KeyCode::Key7),
            8 => Some(KeyCode::Key8),
            9 => Some(KeyCode::Key9),
            10 => Some(KeyCode::A),
            11 => Some(KeyCode::B),
            12 => Some(KeyCode::C),
            13 => Some(KeyCode::D),
            14 => Some(KeyCode::E),
            15 => Some(KeyCode::F),
            16 => Some(KeyCode::G),
            17 => Some(KeyCode::H),
            18 => Some(KeyCode::I),
            19 => Some(KeyCode::J),
            20 => Some(KeyCode::K),
            21 => Some(KeyCode::L),
            22 => Some(KeyCode::M),
            23 => Some(KeyCode::N),
            24 => Some(KeyCode::O),
            25 => Some(KeyCode::P),
            26 => Some(KeyCode::Q),
            27 => Some(KeyCode::R),
            28 => Some(KeyCode::S),
            29 => Some(KeyCode::T),
            30 => Some(KeyCode::U),
            31 => Some(KeyCode::V),
            32 => Some(KeyCode::W),
            33 => Some(KeyCode::X),
            34 => Some(KeyCode::Y),
            35 => Some(KeyCode::Z),
            36 => Some(KeyCode::F1),
            37 => Some(KeyCode::F2),
            38 => Some(KeyCode::F3),
            39 => Some(KeyCode::F4),
            40 => Some(KeyCode::F5),
            41 => Some(KeyCode::F6),
            42 => Some(KeyCode::F7),
            43 => Some(KeyCode::F8),
            44 => Some(KeyCode::F9),
            45 => Some(KeyCode::F10),
            46 => Some(KeyCode::F11),
            47 => Some(KeyCode::F12),
            48 => Some(KeyCode::Escape),
            49 => Some(KeyCode::Space),
            50 => Some(KeyCode::LControl),
            51 => Some(KeyCode::RControl),
            52 => Some(KeyCode::LShift),
            53 => Some(KeyCode::RShift),
            54 => Some(KeyCode::LAlt),
            55 => Some(KeyCode::RAlt),
            56 => Some(KeyCode::Meta),
            57 => Some(KeyCode::Function),
            58 => Some(KeyCode::Enter),
            59 => Some(KeyCode::Up),
            60 => Some(KeyCode::Down),
            61 => Some(KeyCode::Left),
            62 => Some(KeyCode::Right),
            63 => Some(KeyCode::Backspace),
            64 => Some(KeyCode::CapsLock),
            65 => Some(KeyCode::Tab),
            66 => Some(KeyCode::Home),
            67 => Some(KeyCode::End),
            68 => Some(KeyCode::PageUp),
            69 => Some(KeyCode::PageDown),
            70 => Some(KeyCode::Insert),
            71 => Some(KeyCode::Delete),
            72 => Some(KeyCode::Numpad0),
            73 => Some(KeyCode::Numpad1),
            74 => Some(KeyCode::Numpad2),
            75 => Some(KeyCode::Numpad3),
            76 => Some(KeyCode::Numpad4),
            77 => Some(KeyCode::Numpad5),
            78 => Some(KeyCode::Numpad6),
            79 => Some(KeyCode::Numpad7),
            80 => Some(KeyCode::Numpad8),
            81 => Some(KeyCode::Numpad9),
            82 => Some(KeyCode::NumpadSubtract),
            83 => Some(KeyCode::NumpadAdd),
            84 => Some(KeyCode::NumpadDivide),
            85 => Some(KeyCode::NumpadMultiply),
            86 => Some(KeyCode::Grave),
            87 => Some(KeyCode::Minus),
            88 => Some(KeyCode::Equal),
            89 => Some(KeyCode::LeftBracket),
            90 => Some(KeyCode::RightBracket),
            91 => Some(KeyCode::BackSlash),
            92 => Some(KeyCode::Semicolon),
            93 => Some(KeyCode::Apostrophe),
            94 => Some(KeyCode::Comma),
            95 => Some(KeyCode::Dot),
            96 => Some(KeyCode::Slash),
            _ => None,
        }
    }

    /// Reads a key from its canonical name. The text of the unbound
    /// binding reads as no key; any other text that names no key is an
    /// error.
    pub fn deserialize(data: &str) -> (r: Result<Option<KeyCode>, ()>)
        ensures
            r == KeyCode::read(data@),
    {
        proof {
            reveal_strlit("...");
            assert("..."@ =~= unbound_text());
        }
        if same_text(data, "...") {
            return Ok(None);
        }
        let mut i: u8 = 0;
        while i < KEY_COUNT
            invariant
                i <= KEY_COUNT,
                forall|k: KeyCode| k.index() < i ==> #[trigger] k.symbol() != data@,
            decreases KEY_COUNT - i,
        {
            let k = KeyCode::nth(i).unwrap();
            if same_text(k.serialize(), data) {
                proof {
                    let found = choose|j: KeyCode| #[trigger] j.symbol() == data@;
                    lemma_symbol_facts(found, k);
                }
                return Ok(Some(k));
            }
            proof {
                assert forall|j: KeyCode| j.index() < i + 1 implies #[trigger] j.symbol()
                    != data@ by {
                    if j.index() == i {
                        assert(j == k);
                    }
                }
            }
            i += 1;
        }
        proof {
            assert forall|j: KeyCode| #[trigger] j.symbol() != data@ by {
                KeyCode::lemma_index_in_range(j);
            }
        }
        Err(())
    }
}

/// What the canonical names look like: each begins with an upper-case
/// letter, and no two keys share a name.
proof fn lemma_symbol_facts(a: KeyCode, b: KeyCode)
    ensures
        a.symbol().len() > 0,
        'A' <= a.symbol()[0] <= 'Z',
        a.symbol() == b.symbol() ==> a == b,
{
    reveal_strlit("Key0");
    reveal_strlit("Key1");
    reveal_strlit("Key2");
    reveal_strlit("Key3");
    reveal_strlit("Key4");
    reveal_strlit("Key5");
    reveal_strlit("Key6");
    reveal_strlit("Key7");
    reveal_strlit("Key8");
    reveal_strlit("Key9");
    reveal_strlit("A");
    reveal_strlit("B");
    reveal_strlit("C");
    reveal_strlit("D");
    reveal_strlit("E");
    reveal_strlit("F");
    reveal_strlit("G");
    reveal_strlit("H");
    reveal_strlit("I");
    reveal_strlit("J");
    reveal_strlit("K");
    reveal_strlit("L");
    reveal_strlit("M");
    reveal_strlit("N");
    reveal_strlit("O");
    reveal_strlit("P");
    reveal_strlit("Q");
    reveal_strlit("R");
    reveal_strlit("S");
    reveal_strlit("T");
    reveal_strlit("U");
    reveal_strlit("V");
    reveal_strlit("W");
    reveal_strlit("X");
    reveal_strlit("Y");
    reveal_strlit("Z");
    reveal_strlit("F1");
    reveal_strlit("F2");
    reveal_strlit("F3");
    reveal_strlit("F4");
    reveal_strlit("F5");
    reveal_strlit("F6");
    reveal_strlit("F7");
    reveal_strlit("F8");
    reveal_strlit("F9");
    reveal_strlit("F10");
    reveal_strlit("F11");
    reveal_strlit("F12");
    reveal_strlit("Escape");
    reveal_strlit("Space");
    reveal_strlit("LControl");
    reveal_strlit("RControl");
    reveal_strlit("LShift");
    reveal_strlit("RShift");
    reveal_strlit("LAlt");
    reveal_strlit("RAlt");
    reveal_strlit("Meta");
    reveal_strlit("Function");
    reveal_strlit("Enter");
    reveal_strlit("Up");
    reveal_strlit("Down");
    reveal_strlit("Left");
    reveal_strlit("Right");
    reveal_strlit("Backspace");
    reveal_strlit("CapsLock");
    reveal_strlit("Tab");
    reveal_strlit("Home");
    reveal_strlit("End");
    reveal_strlit("PageUp");
    reveal_strlit("PageDown");
    reveal_strlit("Insert");
    reveal_strlit("Delete");
    reveal_strlit("Numpad0");
    reveal_strlit("Numpad1");
    reveal_strlit("Numpad2");
    reveal_strlit("Numpad3");
    reveal_strlit("Numpad4");
    reveal_strlit("Numpad5");
    reveal_strlit("Numpad6");
    reveal_strlit("Numpad7");
    reveal_strlit("Numpad8");
    reveal_strlit("Numpad9");
    reveal_strlit("NumpadSubtract");
    reveal_strlit("NumpadAdd");
    reveal_strlit("NumpadDivide");
    reveal_strlit("NumpadMultiply");
    reveal_strlit("Grave");
    reveal_strlit("Minus");
    reveal_strlit("Equal");
    reveal_strlit("LeftBracket");
    reveal_strlit("RightBracket");
    reveal_strlit("BackSlash");
    reveal_strlit("Semicolon");
    reveal_strlit("Apostrophe");
    reveal_strlit("Comma");
    reveal_strlit("Dot");
    reveal_strlit("Slash");
    if a.symbol() == b.symbol() {
        // The longest name has fourteen characters; naming the length and
        // each position lets the solver compare the two names piece by piece.
        let (s, t) = (a.symbol(), b.symbol());
        assert(s.len() == t.len());
        assert(s[0] == t[0] && s[1] == t[1] && s[2] == t[2] && s[3] == t[3]);
        assert(s[4] == t[4] && s[5] == t[5] && s[6] == t[6] && s[7] == t[7]);
        assert(s[8] == t[8] && s[9] == t[9] && s[10] == t[10] && s[11] == t[11]);
        assert(s[12] == t[12] && s[13] == t[13]);
    }
}

impl KeyCode {
    /// No two keys share a canonical name.
    pub proof fn lemma_symbol_injective(a: KeyCode, b: KeyCode)
        requires
            a.symbol() == b.symbol(),
        ensures
            a == b,
    {
        lemma_symbol_facts(a, b);
    }

    /// `from_symbol` undoes `symbol` for every key of the vocabulary.
    pub proof fn lemma_from_symbol_inverts(k: KeyCode)
        ensures
            KeyCode::from_symbol(k.symbol()) == Some(k),
    {
        let found = choose|j: KeyCode| #[trigger] j.symbol() == k.symbol();
        lemma_symbol_facts(found, k);
    }

    /// A canonical name is never empty, never begins with a modifier
    /// symbol, and is never the text of the unbound binding.
    pub proof fn lemma_symbol_is_no_prefix(k: KeyCode)
        ensures
            k.symbol().len() > 0,
            !is_modifier_symbol(k.symbol()[0]),
            k.symbol() != unbound_text(),
    {
        lemma_symbol_facts(k, k);
    }

    /// Every key sits at a position below `KEY_COUNT`.
    pub proof fn lemma_index_in_range(k: KeyCode)
        ensures
            k.index() < KEY_COUNT,
    {
    }
}

} // verus!
