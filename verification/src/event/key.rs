//! Key presses as plain values.

use vstd::prelude::*;

verus! {

/// Which key it was. Keys that trigger nothing are all `Other`.
#[derive(Debug, Clone, Copy, PartialEq, Eq, Structural)]
pub enum KeyCode {
    Char(char),
    Backspace,
    Enter,
    Up,
    Down,
    Esc,
    Other,
}

#[derive(Debug, Clone, Copy, PartialEq, Eq, Structural)]
pub enum KeyEventKind {
    Press,
    Repeat,
    Release,
}

/// The modifier keys that were held.
#[derive(Debug, Clone, Copy, PartialEq, Eq, Structural)]
pub struct KeyModifiers {
    pub shift: bool,
    pub control: bool,
    pub alt: bool,
    pub super_key: bool,
    pub hyper: bool,
    pub meta: bool,
}

impl KeyModifiers {
    /// No modifier at all.
    pub open spec fn bare() -> KeyModifiers {
        KeyModifiers {
            shift: false,
            control: false,
            alt: false,
            super_key: false,
            hyper: false,
            meta: false,
        }
    }

    pub fn none() -> (r: KeyModifiers)
        ensures
            r == KeyModifiers::bare(),
    {
        KeyModifiers {
            shift: false,
            control: false,
            alt: false,
            super_key: false,
            hyper: false,
            meta: false,
        }
    }

    /// Shift and nothing else.
    pub fn only_shift() -> (r: KeyModifiers)
        ensures
            r == (KeyModifiers { shift: true, ..KeyModifiers::bare() }),
    {
        let mut r = KeyModifiers::none();
        r.shift = true;
        r
    }

    /// Control and nothing else.
    pub fn only_control() -> (r: KeyModifiers)
        ensures
            r == (KeyModifiers { control: true, ..KeyModifiers::bare() }),
    {
        let mut r = KeyModifiers::none();
        r.control = true;
        r
    }
}

/// One keystroke as the terminal reports it.
#[derive(Debug, Clone, Copy, PartialEq, Eq, Structural)]
pub struct KeyEvent {
    pub code: KeyCode,
    pub modifiers: KeyModifiers,
    pub kind: KeyEventKind,
}

impl KeyEvent {
    /// The press of a key.
    pub fn new(code: KeyCode, modifiers: KeyModifiers) -> (r: KeyEvent)
        ensures
            r == (KeyEvent { code, modifiers, kind: KeyEventKind::Press }),
    {
        KeyEvent { code, modifiers, kind: KeyEventKind::Press }
    }
}

} // verus!
