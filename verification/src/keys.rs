//! Key presses, as the terminal reports them.

use vstd::prelude::*;

verus! {

/// A key.
#[derive(Clone, Copy, Debug, PartialEq, Eq, Structural)]
pub enum KeyCode {
    Backspace,
    Enter,
    Left,
    Right,
    Up,
    Down,
    Home,
    End,
    PageUp,
    PageDown,
    Tab,
    BackTab,
    Delete,
    Insert,
    F(u8),
    Char(char),
    Null,
    Esc,
}

/// The keys that were held down along with another one.
#[derive(Clone, Copy, Debug, PartialEq, Eq, Structural)]
pub struct KeyModifiers {
    pub shift: bool,
    pub control: bool,
    pub alt: bool,
}

/// A key press.
#[derive(Clone, Copy, Debug, PartialEq, Eq, Structural)]
pub struct KeyEvent {
    pub code: KeyCode,
    pub modifiers: KeyModifiers,
}

impl KeyModifiers {
    /// Nothing else was held down.
    pub open spec fn spec_is_none(self) -> bool {
        !self.shift && !self.control && !self.alt
    }

    /// Control alone was held down.
    pub open spec fn spec_is_control(self) -> bool {
        !self.shift && self.control && !self.alt
    }

    /// Nothing but possibly shift was held down.
    pub open spec fn spec_is_plain(self) -> bool {
        !self.control && !self.alt
    }

    /// Whether nothing else was held down.
    #[verifier::when_used_as_spec(spec_is_none)]
    pub fn is_none(self) -> (yes: bool)
        ensures
            yes == self.spec_is_none(),
    {
        !self.shift && !self.control && !self.alt
    }

    /// Whether control alone was held down.
    #[verifier::when_used_as_spec(spec_is_control)]
    pub fn is_control(self) -> (yes: bool)
        ensures
            yes == self.spec_is_control(),
    {
        !self.shift && self.control && !self.alt
    }

    /// Whether nothing but possibly shift was held down.
    #[verifier::when_used_as_spec(spec_is_plain)]
    pub fn is_plain(self) -> (yes: bool)
        ensures
            yes == self.spec_is_plain(),
    {
        !self.control && !self.alt
    }
}

} // verus!
