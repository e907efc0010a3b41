//! Keys, as the terminal reports them.

use vstd::prelude::*;

verus! {

/// A key.
#[derive(Debug, Clone, Copy, PartialEq, Eq, Structural)]
pub enum KeyCode {
    Char(char),
    Enter,
    Esc,
    Tab,
    BackTab,
    Backspace,
    Delete,
    Insert,
    Up,
    Down,
    Left,
    Right,
    Home,
    End,
    PageUp,
    PageDown,
    F(u8),
    Other,
}

/// A key press with its modifiers. `other` stands for any modifier beside control, alt and
/// shift.
#[derive(Debug, Clone, Copy, PartialEq, Eq, Structural)]
pub struct KeyEvent {
    pub code: KeyCode,
    pub control: bool,
    pub alt: bool,
    pub shift: bool,
    pub other: bool,
}

impl KeyEvent {
    /// Whether no modifier is held.
    pub open spec fn is_bare(self) -> bool {
        !self.control && !self.alt && !self.shift && !self.other
    }

    /// Whether no modifier is held.
    pub fn bare(&self) -> (r: bool)
        ensures
            r == self.is_bare(),
    {
        !self.control && !self.alt && !self.shift && !self.other
    }

    /// A key without modifiers.
    pub fn plain(code: KeyCode) -> (r: Self)
        ensures
            r == (KeyEvent { code, control: false, alt: false, shift: false, other: false }),
    {
        KeyEvent { code, control: false, alt: false, shift: false, other: false }
    }
}

} // verus!
