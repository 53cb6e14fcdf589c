//! Key presses, as the screens of the toolkit read them.

use vstd::prelude::*;

verus! {

/// How long a screen waits for a key before it draws again, in milliseconds.
pub const KEY_WAIT_MS: u64 = 100;

/// A key that was pressed.
#[derive(Clone, Copy, Debug, PartialEq, Eq, Structural)]
pub enum Key {
    /// A character key.
    Char(char),
    Enter,
    Esc,
    Up,
    Down,
    PageUp,
    PageDown,
    Home,
    End,
    /// Any key that no screen reacts to.
    Other,
}

impl Key {
    /// The keys that close a screen: `q`, Escape and Enter.
    pub open spec fn closes(self) -> bool {
        self == Key::Char('q') || self == Key::Esc || self == Key::Enter
    }

    /// The keys that move one step down: the arrow and `j`.
    pub open spec fn steps_down(self) -> bool {
        self == Key::Down || self == Key::Char('j')
    }

    /// The keys that move one step up: the arrow and `k`.
    pub open spec fn steps_up(self) -> bool {
        self == Key::Up || self == Key::Char('k')
    }

    /// Whether this key closes a screen.
    pub fn is_close(self) -> (b: bool)
        ensures
            b == self.closes(),
    {
        match self {
            Key::Char(c) => c == 'q',
            Key::Esc => true,
            Key::Enter => true,
            _ => false,
        }
    }

    /// Whether this key moves one step down.
    pub fn is_step_down(self) -> (b: bool)
        ensures
            b == self.steps_down(),
    {
        match self {
            Key::Char(c) => c == 'j',
            Key::Down => true,
            _ => false,
        }
    }

    /// Whether this key moves one step up.
    pub fn is_step_up(self) -> (b: bool)
        ensures
            b == self.steps_up(),
    {
        match self {
            Key::Char(c) => c == 'k',
            Key::Up => true,
            _ => false,
        }
    }
}

} // verus!
