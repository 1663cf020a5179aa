//! Raw input events and the filter that decides which of them are processed.

use vstd::prelude::*;

verus! {

/// A key on the keyboard.
#[derive(Clone, Copy, Debug, PartialEq, Eq, Structural)]
pub enum KeyCode {
    Char(char),
    Enter,
    Tab,
    Backspace,
    Delete,
    Esc,
    Left,
    Right,
    Up,
    Down,
    Home,
    End,
    PageUp,
    PageDown,
    Function(u8),
    /// Any key that has no variant of its own.
    Unidentified,
}

/// What happened to a key.
#[derive(Clone, Copy, Debug, PartialEq, Eq, Structural)]
pub enum KeyKind {
    Press,
    Repeat,
    Release,
}

/// An unprocessed notification from the terminal device.
#[derive(Clone, Copy, Debug, PartialEq, Eq, Structural)]
pub enum RawInputEvent {
    Key { code: KeyCode, modifiers: u8, kind: KeyKind },
    Resize { columns: u16, rows: u16 },
    /// Mouse, paste, focus change and every other notification.
    Other,
}

/// The filter's policy: a key event is accepted only when the key was
/// pressed, a resize always, anything else never.
pub open spec fn accepted(event: RawInputEvent) -> bool {
    match event {
        RawInputEvent::Key { kind, .. } => kind == KeyKind::Press,
        RawInputEvent::Resize { .. } => true,
        RawInputEvent::Other => false,
    }
}

/// Decides whether `event` goes on to translation.
pub fn should_process(event: &RawInputEvent) -> (process: bool)
    ensures
        process == accepted(*event),
{
    match event {
        RawInputEvent::Key { kind, .. } => *kind == KeyKind::Press,
        RawInputEvent::Resize { .. } => true,
        RawInputEvent::Other => false,
    }
}

} // verus!
