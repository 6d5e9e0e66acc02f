//! A key press, as far as the state machine tells keys apart.
use vstd::prelude::*;

verus! {

/// A key that was pressed.
#[derive(Debug, Clone, Copy, PartialEq, Eq)]
pub enum Key {
    /// A key that writes a character.
    Char(char),
    /// Backspace.
    Backspace,
    /// Enter.
    Enter,
    /// Escape.
    Esc,
    /// Tab.
    Tab,
    /// Arrow up.
    Up,
    /// Arrow down.
    Down,
    /// Any other key; it changes nothing.
    Other,
}

} // verus!
