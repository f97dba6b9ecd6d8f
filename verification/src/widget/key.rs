//! Key presses as the widgets see them.

use vstd::prelude::*;

verus! {

/// The key that an input event names.
#[derive(Clone, Copy, Debug, PartialEq, Eq)]
pub enum KeyCode {
    /// A character key.
    Char(char),
    Tab,
    /// Tab with shift held.
    BackTab,
    Esc,
    Backspace,
    Left,
    Right,
    /// Any key that the widgets do not know.
    Other,
}

/// One input event of the keyboard: the key, and whether it went down.
#[derive(Clone, Copy, Debug, PartialEq, Eq)]
pub struct KeyEvent {
    pub code: KeyCode,
    /// True for a press; false for a release or a repeat.
    pub pressed: bool,
}

impl KeyEvent {
    /// A press of the key `code`.
    pub fn press(code: KeyCode) -> (event: KeyEvent)
        ensures
            event == (KeyEvent { code, pressed: true }),
    {
        KeyEvent { code, pressed: true }
    }
}

} // verus!
