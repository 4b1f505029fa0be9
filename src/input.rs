//! Terminal input events as plain values.
use vstd::prelude::*;

verus! {

/// A key, independent of the terminal library.
#[derive(Clone, Copy, Debug, PartialEq, Eq, Hash, Structural)]
pub enum Key {
    Char(char),
    Enter,
    Escape,
    Tab,
    BackTab,
    Backspace,
    Delete,
    Left,
    Right,
    Up,
    Down,
    Home,
    End,
    PageUp,
    PageDown,
    F(u8),
}

/// Modifier keys as bit flags: shift 1, control 2, alt 4.
#[derive(Clone, Copy, Debug, Default, PartialEq, Eq, Hash, Structural)]
pub struct Modifiers(pub u8);

impl Modifiers {
    /// No modifier.
    pub fn none() -> (r: Modifiers)
        ensures
            r.0 == 0,
    {
        Modifiers(0)
    }

    pub fn shift() -> (r: Modifiers)
        ensures
            r.0 == 1,
    {
        Modifiers(1)
    }

    pub fn ctrl() -> (r: Modifiers)
        ensures
            r.0 == 2,
    {
        Modifiers(2)
    }

    pub fn alt() -> (r: Modifiers)
        ensures
            r.0 == 4,
    {
        Modifiers(4)
    }

    /// Whether every flag of `other` is set here.
    pub fn contains(self, other: Modifiers) -> (r: bool)
        ensures
            r == (self.0 & other.0 == other.0),
    {
        (self.0 & other.0) == other.0
    }

    pub fn is_empty(self) -> (r: bool)
        ensures
            r == (self.0 == 0),
    {
        self.0 == 0
    }

    /// The flags of both.
    pub fn union(self, other: Modifiers) -> (r: Modifiers)
        ensures
            r.0 == self.0 | other.0,
    {
        Modifiers(self.0 | other.0)
    }

    /// The flags common to both.
    pub fn intersection(self, other: Modifiers) -> (r: Modifiers)
        ensures
            r.0 == self.0 & other.0,
    {
        Modifiers(self.0 & other.0)
    }
}

/// A key press with its modifiers.
#[derive(Clone, Copy, Debug, PartialEq, Eq, Hash, Structural)]
pub struct KeyEvent {
    pub code: Key,
    pub modifiers: Modifiers,
}

impl KeyEvent {
    pub fn new(code: Key, modifiers: Modifiers) -> (r: KeyEvent)
        ensures
            r == (KeyEvent { code, modifiers }),
    {
        KeyEvent { code, modifiers }
    }
}

#[derive(Clone, Copy, Debug, PartialEq, Eq, Hash, Structural)]
pub enum MouseBtn {
    Left,
    Right,
    Middle,
}

#[derive(Clone, Copy, Debug, PartialEq, Eq, Hash, Structural)]
pub enum MouseAction {
    Down(MouseBtn),
    Up(MouseBtn),
    Drag(MouseBtn),
    Moved,
    ScrollUp,
    ScrollDown,
}

/// A mouse event at column `x`, row `y`.
#[derive(Clone, Copy, Debug, PartialEq, Eq, Hash, Structural)]
pub struct MouseEvent {
    pub kind: MouseAction,
    pub x: u16,
    pub y: u16,
    pub modifiers: Modifiers,
}

/// Any input the application reacts to.
#[derive(Clone, Debug, PartialEq, Eq)]
pub enum InputEvent {
    Key(KeyEvent),
    Mouse(MouseEvent),
    Resize { width: u16, height: u16 },
    FocusGained,
    FocusLost,
    Paste(String),
}

} // verus!
