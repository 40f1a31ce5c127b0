//! Mouse events, independent of any terminal library.

use vstd::prelude::*;

use crate::keyboard::KeyModifiers;

verus! {

/// A mouse button.
#[derive(Debug, Clone, Copy, PartialEq, Eq, Structural)]
pub enum MouseButton {
    Left,
    Right,
    Middle,
}

/// What happened to the mouse.
#[derive(Debug, Clone, Copy, PartialEq, Eq, Structural)]
pub enum MouseEventKind {
    Down(MouseButton),
    Up(MouseButton),
    Drag(MouseButton),
    Moved,
    ScrollDown,
    ScrollUp,
    ScrollLeft,
    ScrollRight,
}

/// A mouse event: what happened, at which cell, with which modifiers held.
#[derive(Debug, Clone, Copy, PartialEq, Eq, Structural)]
pub struct MouseEvent {
    pub kind: MouseEventKind,
    pub column: u16,
    pub row: u16,
    pub modifiers: KeyModifiers,
}

impl MouseEvent {
    /// A mouse event of the given kind, position and modifiers.
    pub fn new(kind: MouseEventKind, column: u16, row: u16, modifiers: KeyModifiers) -> (e:
        MouseEvent)
        ensures
            e == (MouseEvent { kind, column, row, modifiers }),
    {
        MouseEvent { kind, column, row, modifiers }
    }
}

} // verus!
