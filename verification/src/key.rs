//! Keys as the program tells them apart.

use vstd::prelude::*;

verus! {

/// A key on the keyboard.
#[derive(Clone, Copy, Debug, PartialEq, Eq, Structural)]
pub enum KeyCode {
    Char(char),
    Enter,
    Esc,
    Backspace,
    Up,
    Down,
    /// Any key that the program has no use for.
    Other,
}

/// A key that was pressed, with the modifiers that were held down.
#[derive(Clone, Copy, Debug, PartialEq, Eq, Structural)]
pub struct KeyEvent {
    pub code: KeyCode,
    pub control: bool,
    pub alt: bool,
}

} // verus!
