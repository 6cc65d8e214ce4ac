//! Keys as the application sees them, independent of any terminal backend.
use vstd::prelude::*;

verus! {

/// A key that was pressed.
#[derive(Debug, Clone, Copy, PartialEq, Eq, Structural)]
pub enum Key {
    Char(char),
    Enter,
    Esc,
    Tab,
    BackTab,
    Backspace,
    Up,
    Down,
    Left,
    Right,
    Home,
    End,
    Delete,
    Insert,
    PageUp,
    PageDown,
    F(u8),
    Other,
}

/// A key together with the modifiers held while it was pressed.
#[derive(Debug, Clone, Copy, PartialEq, Eq, Structural)]
pub struct KeyPress {
    pub code: Key,
    pub ctrl: bool,
    pub shift: bool,
}

impl KeyPress {
    /// A key pressed without modifiers.
    pub fn plain(code: Key) -> (r: KeyPress)
        ensures
            r == (KeyPress { code, ctrl: false, shift: false }),
    {
        KeyPress { code, ctrl: false, shift: false }
    }
}

} // verus!
