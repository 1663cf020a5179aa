//! Semantic commands, the two kinds of failure, and the policy that says
//! whether a failure ends the editor.

use vstd::prelude::*;
use crate::event::RawInputEvent;

verus! {

/// Where a caret movement goes.
#[derive(Clone, Copy, Debug, PartialEq, Eq, Structural)]
pub enum Direction {
    Up,
    Down,
    Left,
    Right,
    PageUp,
    PageDown,
    Home,
    End,
}

/// An editor-level intent derived from a raw input event.
#[derive(Clone, Copy, Debug, PartialEq, Eq, Structural)]
pub enum SemanticCommand {
    Move(Direction),
    Insert(char),
    InsertNewline,
    Delete,
    DeleteBackward,
    Resize { columns: u16, rows: u16 },
    Quit,
}

/// The event source could not deliver the next event.
#[derive(Clone, Copy, Debug, PartialEq, Eq, Structural)]
pub struct EventReadError {}

/// An accepted event has no command assigned to it. Holds the event.
#[derive(Clone, Copy, Debug, PartialEq, Eq, Structural)]
pub struct UnsupportedCommandError {
    pub event: RawInputEvent,
}

/// A failure that ended the control loop.
#[derive(Clone, Copy, Debug, PartialEq, Eq, Structural)]
pub enum FatalError {
    EventRead(EventReadError),
    UnsupportedCommand(UnsupportedCommandError),
}

/// Whether a failure to read or to translate ends the editor (`Strict`) or is
/// dropped (`Lenient`). Chosen once, when the editor is made.
#[derive(Clone, Copy, Debug, PartialEq, Eq, Structural)]
pub enum TerminationPolicy {
    Strict,
    Lenient,
}

/// What the event source handed over for one request.
pub type ReadOutcome = Result<RawInputEvent, EventReadError>;

} // verus!
