//! Keyboard events as the timer's prompts and loops see them.

use vstd::prelude::*;

verus! {

/// The key of a keyboard event.
#[derive(Clone, Copy, Debug, PartialEq, Eq, Structural)]
pub enum Key {
    Char(char),
    Backspace,
    Left,
    Right,
    Enter,
    Esc,
    Other,
}

/// A keyboard event: its key, whether Control was held, and whether it is
/// a press (as opposed to a repeat or a release).
#[derive(Clone, Copy, Debug, PartialEq, Eq, Structural)]
pub struct KeyInput {
    pub code: Key,
    pub ctrl: bool,
    pub press: bool,
}

/// Esc, or Control with `c`.
pub open spec fn quits(key: KeyInput) -> bool {
    key.code == Key::Esc || (key.code == Key::Char('c') && key.ctrl)
}

/// Returns true if the event is Ctrl+C or Esc.
pub fn is_quit_event(key: &KeyInput) -> (b: bool)
    ensures
        b == quits(*key),
{
    match key.code {
        Key::Esc => true,
        Key::Char(c) => c == 'c' && key.ctrl,
        _ => false,
    }
}

} // verus!
