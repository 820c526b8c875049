use vstd::prelude::*;

verus! {

/// Modifier bits held while a key was pressed (shift, control, alt, ...);
/// zero when none was held.
pub const NO_MODIFIERS: u8 = 0;

/// The keys that the pages react to.
#[derive(Debug, Clone, Copy, PartialEq, Eq, Structural)]
pub enum KeyCode {
    Char(char),
    Backspace,
    Delete,
    Left,
    Right,
    Up,
    Down,
    Enter,
    Esc,
    /// Any other key.
    Other,
}

/// A key press and the modifier bits that were held.
#[derive(Debug, Clone, Copy, PartialEq, Eq, Structural)]
pub struct KeyEvent {
    pub code: KeyCode,
    pub modifiers: u8,
}

/// The mouse actions that the pages react to.
#[derive(Debug, Clone, Copy, PartialEq, Eq, Structural)]
pub enum MouseEventKind {
    LeftDown,
    ScrollUp,
    ScrollDown,
    /// Any other mouse action.
    Other,
}

/// A mouse action at a terminal cell.
#[derive(Debug, Clone, Copy, PartialEq, Eq, Structural)]
pub struct MouseEvent {
    pub kind: MouseEventKind,
    pub column: u16,
    pub row: u16,
}

/// A terminal input event.
#[derive(Debug, Clone, Copy, PartialEq, Eq, Structural)]
pub enum Event {
    Key(KeyEvent),
    Mouse(MouseEvent),
    /// Focus changes, pastes, resizes and the like.
    Other,
}

} // verus!
