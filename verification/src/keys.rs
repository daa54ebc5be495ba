//! Key presses, as the panes and popups read them.
use vstd::prelude::*;

verus! {

/// The shift modifier's bit.
pub const SHIFT: u8 = 1;

/// The control modifier's bit.
pub const CONTROL: u8 = 2;

/// The alt modifier's bit.
pub const ALT: u8 = 4;

/// The key of a key press. `Other` stands for every key without a meaning here.
#[derive(Debug, Clone, Copy, PartialEq, Eq, Structural)]
pub enum KeyCode {
    Char(char),
    Enter,
    Esc,
    Tab,
    BackTab,
    Up,
    Down,
    Left,
    Right,
    PageUp,
    PageDown,
    Home,
    End,
    Backspace,
    Delete,
    Insert,
    Other,
}

/// A key press: the key, and the bits of the modifiers held with it.
#[derive(Debug, Clone, Copy, PartialEq, Eq, Structural)]
pub struct KeyPress {
    pub code: KeyCode,
    pub modifiers: u8,
}

impl KeyPress {
    /// Whether alt is among the modifiers.
    pub open spec fn has_alt(self) -> bool {
        self.modifiers & ALT != 0
    }

    /// Whether control is among the modifiers.
    pub open spec fn has_control(self) -> bool {
        self.modifiers & CONTROL != 0
    }

    /// Whether the key is the letter, in either case.
    pub open spec fn is_letter(self, small: char, capital: char) -> bool {
        self.code == KeyCode::Char(small) || self.code == KeyCode::Char(capital)
    }

    /// Whether alt is held with the letter, in either case.
    pub open spec fn is_alt(self, small: char, capital: char) -> bool {
        self.has_alt() && self.is_letter(small, capital)
    }

    /// Whether alt is among the modifiers.
    pub fn alt(&self) -> (b: bool)
        ensures
            b == self.has_alt(),
    {
        self.modifiers & ALT != 0
    }

    /// Whether control is among the modifiers.
    pub fn control(&self) -> (b: bool)
        ensures
            b == self.has_control(),
    {
        self.modifiers & CONTROL != 0
    }

    /// Whether the key is the letter, in either case.
    pub fn letter(&self, small: char, capital: char) -> (b: bool)
        ensures
            b == self.is_letter(small, capital),
    {
        match self.code {
            KeyCode::Char(c) => c == small || c == capital,
            _ => false,
        }
    }

    /// Whether alt is held with the letter, in either case.
    pub fn alt_letter(&self, small: char, capital: char) -> (b: bool)
        ensures
            b == self.is_alt(small, capital),
    {
        self.alt() && self.letter(small, capital)
    }
}

/// A modifier is held exactly when its bit is set, whatever the other bits; a letter counts in either
/// case, and with alt only where alt is held.
pub proof fn modifiers_are_bits(key: KeyPress, small: char, capital: char)
    ensures
        key.has_alt() <==> (key.modifiers / 4) % 2 == 1,
        key.has_control() <==> (key.modifiers / 2) % 2 == 1,
        key.is_letter(small, capital) <==> (key.code matches KeyCode::Char(c) && (c == small || c
            == capital)),
        key.is_alt(small, capital) <==> key.has_alt() && key.is_letter(small, capital),
{
    let m = key.modifiers;
    assert((m & 4u8 != 0) <==> (m / 4) % 2 == 1) by (bit_vector);
    assert((m & 2u8 != 0) <==> (m / 2) % 2 == 1) by (bit_vector);
}

} // verus!
