//! Key presses, as plain values.

use vstd::prelude::*;

verus! {

/// Which key was pressed.
#[derive(Clone, Copy, Debug, PartialEq, Eq, Structural)]
pub enum KeyCode {
    Char(char),
    Enter,
    Esc,
    Tab,
    Backspace,
    Left,
    Right,
    Up,
    Down,
    /// Any key that the session does not act on.
    Other,
}

/// The modifier keys held down with a key.
#[derive(Clone, Copy, Debug, PartialEq, Eq, Structural)]
pub struct KeyModifiers {
    pub control: bool,
    pub shift: bool,
    pub alt: bool,
}

/// One key press.
#[derive(Clone, Copy, Debug, PartialEq, Eq, Structural)]
pub struct KeyEvent {
    pub code: KeyCode,
    pub modifiers: KeyModifiers,
}

impl KeyModifiers {
    /// No modifier key.
    pub fn none() -> (m: KeyModifiers)
        ensures
            m == (KeyModifiers { control: false, shift: false, alt: false }),
    {
        KeyModifiers { control: false, shift: false, alt: false }
    }
}

impl KeyEvent {
    /// The key `code`, pressed alone.
    pub fn plain(code: KeyCode) -> (k: KeyEvent)
        ensures
            k == (KeyEvent {
                code,
                modifiers: KeyModifiers { control: false, shift: false, alt: false },
            }),
    {
        KeyEvent { code, modifiers: KeyModifiers::none() }
    }

    /// The character `c`, pressed with the control key.
    pub fn control(c: char) -> (k: KeyEvent)
        ensures
            k == (KeyEvent {
                code: KeyCode::Char(c),
                modifiers: KeyModifiers { control: true, shift: false, alt: false },
            }),
    {
        KeyEvent {
            code: KeyCode::Char(c),
            modifiers: KeyModifiers { control: true, shift: false, alt: false },
        }
    }
}

} // verus!
