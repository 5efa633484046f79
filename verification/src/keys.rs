//! Key presses as the views of this crate read them.

use vstd::prelude::*;

verus! {

/// A key.
#[derive(Clone, Copy, Debug, PartialEq, Eq, Structural)]
pub enum KeyCode {
    Backspace,
    Enter,
    Left,
    Right,
    Up,
    Down,
    Home,
    End,
    PageUp,
    PageDown,
    Tab,
    Char(char),
    Esc,
    /// A key that no view of this crate listens to.
    Other,
}

/// The modifier keys held during a key press, one bit each.
#[derive(Clone, Copy, Debug, PartialEq, Eq, Structural)]
pub struct KeyModifiers {
    pub bits: u8,
}

/// Whether the bit of the shift key is set.
pub open spec fn shift_bit(bits: u8) -> bool {
    bits & 1 == 1
}

/// `crossterm::event::KeyModifiers::contains`, asked for `KeyModifiers::SHIFT` of the modifiers
/// with the given bits. It says whether every bit of the argument is set, and the bits of
/// `SHIFT` are the lowest one alone.
#[verifier::external_body]
fn contains_shift(bits: u8) -> (held: bool)
    ensures
        held == shift_bit(bits),
{
    crossterm::event::KeyModifiers::from_bits_retain(bits).contains(
        crossterm::event::KeyModifiers::SHIFT,
    )
}

impl KeyModifiers {
    /// No modifier key.
    pub fn none() -> (modifiers: KeyModifiers)
        ensures
            modifiers.bits == 0,
            !modifiers.shift(),
    {
        assert(0u8 & 1 == 0) by (bit_vector);
        KeyModifiers { bits: 0 }
    }

    /// The shift key alone.
    pub fn only_shift() -> (modifiers: KeyModifiers)
        ensures
            modifiers.bits == 1,
            modifiers.shift(),
    {
        assert(1u8 & 1 == 1) by (bit_vector);
        KeyModifiers { bits: 1 }
    }

    /// Whether the shift key is held.
    pub open spec fn shift(self) -> bool {
        shift_bit(self.bits)
    }

    /// Whether the shift key is held.
    pub fn holds_shift(&self) -> (held: bool)
        ensures
            held == self.shift(),
    {
        contains_shift(self.bits)
    }
}

/// A key press.
#[derive(Clone, Copy, Debug, PartialEq, Eq, Structural)]
pub struct KeyEvent {
    pub code: KeyCode,
    pub modifiers: KeyModifiers,
}

impl KeyEvent {
    /// The press of a key while modifier keys are held.
    pub fn new(code: KeyCode, modifiers: KeyModifiers) -> (event: KeyEvent)
        ensures
            event == (KeyEvent { code, modifiers }),
    {
        KeyEvent { code, modifiers }
    }
}

impl From<KeyCode> for KeyEvent {
    fn from(code: KeyCode) -> (event: KeyEvent) {
        KeyEvent { code, modifiers: KeyModifiers { bits: 0 } }
    }
}

impl vstd::std_specs::convert::FromSpecImpl<KeyCode> for KeyEvent {
    open spec fn obeys_from_spec() -> bool {
        true
    }

    open spec fn from_spec(code: KeyCode) -> KeyEvent {
        KeyEvent { code, modifiers: KeyModifiers { bits: 0 } }
    }
}

} // verus!
