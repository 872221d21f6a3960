//! Key presses, as the terminal reports them.

use crossterm::event::KeyModifiers;
use vstd::prelude::*;

verus! {

/// A key that is told apart; every other key is `Other`.
#[derive(Debug, Clone, Copy)]
pub enum Key {
    Char(char),
    Enter,
    Esc,
    Up,
    Down,
    PageUp,
    PageDown,
    Home,
    End,
    Other,
}

/// A key with the bits of the modifier keys held down with it.
#[derive(Debug, Clone, Copy)]
pub struct KeyPress {
    pub code: Key,
    pub modifiers: u8,
}

/// Whether the bit of the control key is set.
pub open spec fn has_control(modifiers: u8) -> bool {
    modifiers & 2 == 2
}

/// Calls `KeyModifiers::from_bits_truncate`, and `contains` on its result with
/// `KeyModifiers::CONTROL`: whether the second lowest bit is set.
#[verifier::external_body]
fn holds_control(modifiers: u8) -> (held: bool)
    ensures
        held == has_control(modifiers),
{
    KeyModifiers::from_bits_truncate(modifiers).contains(KeyModifiers::CONTROL)
}

impl KeyPress {
    /// Whether this is Ctrl-C.
    pub open spec fn interrupts(self) -> bool {
        self.code == Key::Char('c') && has_control(self.modifiers)
    }

    /// Whether this is Ctrl-C.
    pub fn is_interrupt(&self) -> (interrupt: bool)
        ensures
            interrupt == self.interrupts(),
    {
        match self.code {
            Key::Char(c) => c == 'c' && holds_control(self.modifiers),
            _ => false,
        }
    }
}

/// Something the terminal reports.
#[derive(Debug, Clone, Copy)]
pub enum Input {
    /// A key, and whether it was pressed, as against released or repeated.
    Key(KeyPress, bool),
    /// The terminal has a new size.
    Resize,
    /// Anything else.
    Other,
}

} // verus!
