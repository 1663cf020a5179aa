//! The command translator: a key map that assigns commands to key chords.

use vstd::prelude::*;
use crate::command::{Direction, SemanticCommand, UnsupportedCommandError};
use crate::event::{KeyCode, RawInputEvent};

verus! {

/// Modifier bits of a key chord.
pub const NO_MODIFIERS: u8 = 0;
pub const SHIFT: u8 = 1;
pub const CONTROL: u8 = 2;
pub const ALT: u8 = 4;

/// A key together with the modifiers held while it was struck.
#[derive(Clone, Copy, Debug, PartialEq, Eq, Structural)]
pub struct KeyChord {
    pub code: KeyCode,
    pub modifiers: u8,
}

/// One entry of a key map.
#[derive(Clone, Copy, Debug, PartialEq, Eq, Structural)]
pub struct KeyBinding {
    pub chord: KeyChord,
    pub command: SemanticCommand,
}

/// What a key map is, mathematically: the command of each bound chord, and
/// whether unbound character keys insert their character.
pub struct KeyMapView {
    pub bindings: Map<KeyChord, SemanticCommand>,
    pub inserts_text: bool,
}

/// The assignments that a list of bindings makes: a later entry replaces an
/// earlier one for the same chord.
pub open spec fn assignments(bindings: Seq<KeyBinding>) -> Map<KeyChord, SemanticCommand>
    decreases bindings.len(),
{
    if bindings.len() == 0 {
        Map::empty()
    } else {
        assignments(bindings.drop_last()).insert(bindings.last().chord, bindings.last().command)
    }
}

/// A chord that types a character: a character key struck alone or with shift.
pub open spec fn types_text(chord: KeyChord) -> bool {
    chord.code is Char && (chord.modifiers == NO_MODIFIERS || chord.modifiers == SHIFT)
}

/// The command that `keymap` gives `event`.
///
/// A key event has the command bound to its chord; where none is bound and
/// the map inserts text, a chord that types a character inserts it. A resize
/// always resizes the viewport to the new dimensions. Everything else has no
/// command. Whether a key was pressed or released plays no part here: that is
/// the filter's concern.
pub open spec fn translation(keymap: KeyMapView, event: RawInputEvent) -> Result<
    SemanticCommand,
    UnsupportedCommandError,
> {
    match event {
        RawInputEvent::Key { code, modifiers, .. } => {
            let chord = KeyChord { code, modifiers };
            if keymap.bindings.contains_key(chord) {
                Ok(keymap.bindings[chord])
            } else if keymap.inserts_text && types_text(chord) {
                Ok(SemanticCommand::Insert(code->Char_0))
            } else {
                Err(UnsupportedCommandError { event })
            }
        },
        RawInputEvent::Resize { columns, rows } => Ok(SemanticCommand::Resize { columns, rows }),
        RawInputEvent::Other => Err(UnsupportedCommandError { event }),
    }
}

/// The bindings of the standard key map.
pub open spec fn standard_bindings() -> Seq<KeyBinding> {
    seq![
        KeyBinding {
            chord: KeyChord { code: KeyCode::Char('q'), modifiers: CONTROL },
            command: SemanticCommand::Quit,
        },
        KeyBinding {
            chord: KeyChord { code: KeyCode::Up, modifiers: NO_MODIFIERS },
            command: SemanticCommand::Move(Direction::Up),
        },
        KeyBinding {
            chord: KeyChord { code: KeyCode::Down, modifiers: NO_MODIFIERS },
            command: SemanticCommand::Move(Direction::Down),
        },
        KeyBinding {
            chord: KeyChord { code: KeyCode::Left, modifiers: NO_MODIFIERS },
            command: SemanticCommand::Move(Direction::Left),
        },
        KeyBinding {
            chord: KeyChord { code: KeyCode::Right, modifiers: NO_MODIFIERS },
            command: SemanticCommand::Move(Direction::Right),
        },
        KeyBinding {
            chord: KeyChord { code: KeyCode::PageUp, modifiers: NO_MODIFIERS },
            command: SemanticCommand::Move(Direction::PageUp),
        },
        KeyBinding {
            chord: KeyChord { code: KeyCode::PageDown, modifiers: NO_MODIFIERS },
            command: SemanticCommand::Move(Direction::PageDown),
        },
        KeyBinding {
            chord: KeyChord { code: KeyCode::Home, modifiers: NO_MODIFIERS },
            command: SemanticCommand::Move(Direction::Home),
        },
        KeyBinding {
            chord: KeyChord { code: KeyCode::End, modifiers: NO_MODIFIERS },
            command: SemanticCommand::Move(Direction::End),
        },
        KeyBinding {
            chord: KeyChord { code: KeyCode::Enter, modifiers: NO_MODIFIERS },
            command: SemanticCommand::InsertNewline,
        },
        KeyBinding {
            chord: KeyChord { code: KeyCode::Tab, modifiers: NO_MODIFIERS },
            command: SemanticCommand::Insert('\t'),
        },
        KeyBinding {
            chord: KeyChord { code: KeyCode::Delete, modifiers: NO_MODIFIERS },
            command: SemanticCommand::Delete,
        },
        KeyBinding {
            chord: KeyChord { code: KeyCode::Backspace, modifiers: NO_MODIFIERS },
            command: SemanticCommand::DeleteBackward,
        },
    ]
}

/// A configured key map.
pub struct KeyMap {
    bindings: Vec<KeyBinding>,
    inserts_text: bool,
}

impl View for KeyMap {
    type V = KeyMapView;

    closed spec fn view(&self) -> KeyMapView {
        KeyMapView { bindings: assignments(self.bindings@), inserts_text: self.inserts_text }
    }
}

/// No entry from `from` on binds `chord`.
spec fn unbound_from(bindings: Seq<KeyBinding>, chord: KeyChord, from: int) -> bool {
    forall|j: int| from <= j < bindings.len() ==> (#[trigger] bindings[j]).chord != chord
}

/// A chord that no entry binds has no assignment.
proof fn lemma_unbound(bindings: Seq<KeyBinding>, chord: KeyChord)
    requires
        unbound_from(bindings, chord, 0),
    ensures
        !assignments(bindings).contains_key(chord),
    decreases bindings.len(),
{
    if bindings.len() > 0 {
        let rest = bindings.drop_last();
        assert forall|j: int| 0 <= j < rest.len() implies (#[trigger] rest[j]).chord != chord by {
            assert(rest[j] == bindings[j]);
        }
        lemma_unbound(rest, chord);
    }
}

/// The last entry that binds a chord gives it its command.
proof fn lemma_last_binding_wins(bindings: Seq<KeyBinding>, chord: KeyChord, at: int)
    requires
        0 <= at < bindings.len(),
        bindings[at].chord == chord,
        unbound_from(bindings, chord, at + 1),
    ensures
        assignments(bindings).contains_key(chord),
        assignments(bindings)[chord] == bindings[at].command,
    decreases bindings.len(),
{
    if at < bindings.len() - 1 {
        let rest = bindings.drop_last();
        assert(rest[at] == bindings[at]);
        assert forall|j: int| at + 1 <= j < rest.len() implies (#[trigger] rest[j]).chord
            != chord by {
            assert(rest[j] == bindings[j]);
        }
        lemma_last_binding_wins(rest, chord, at);
    }
}

impl KeyMap {
    /// A key map without bindings. With `inserts_text`, character keys insert
    /// their character.
    pub fn new(inserts_text: bool) -> (keymap: KeyMap)
        ensures
            keymap@ == (KeyMapView { bindings: Map::empty(), inserts_text }),
    {
        KeyMap { bindings: Vec::new(), inserts_text }
    }

    /// The standard key map: control-q quits, the arrow and paging keys move
    /// the caret, enter, tab, delete and backspace edit, and character keys
    /// insert their character.
    pub fn standard() -> (keymap: KeyMap)
        ensures
            keymap@ == (KeyMapView {
                bindings: assignments(standard_bindings()),
                inserts_text: true,
            }),
    {
        let mut bindings: Vec<KeyBinding> = Vec::new();
        bindings.push(
            KeyBinding {
                chord: KeyChord { code: KeyCode::Char('q'), modifiers: CONTROL },
                command: SemanticCommand::Quit,
            },
        );
        bindings.push(
            KeyBinding {
                chord: KeyChord { code: KeyCode::Up, modifiers: NO_MODIFIERS },
                command: SemanticCommand::Move(Direction::Up),
            },
        );
        bindings.push(
            KeyBinding {
                chord: KeyChord { code: KeyCode::Down, modifiers: NO_MODIFIERS },
                command: SemanticCommand::Move(Direction::Down),
            },
        );
        bindings.push(
            KeyBinding {
                chord: KeyChord { code: KeyCode::Left, modifiers: NO_MODIFIERS },
                command: SemanticCommand::Move(Direction::Left),
            },
        );
        bindings.push(
            KeyBinding {
                chord: KeyChord { code: KeyCode::Right, modifiers: NO_MODIFIERS },
                command: SemanticCommand::Move(Direction::Right),
            },
        );
        bindings.push(
            KeyBinding {
                chord: KeyChord { code: KeyCode::PageUp, modifiers: NO_MODIFIERS },
                command: SemanticCommand::Move(Direction::PageUp),
            },
        );
        bindings.push(
            KeyBinding {
                chord: KeyChord { code: KeyCode::PageDown, modifiers: NO_MODIFIERS },
                command: SemanticCommand::Move(Direction::PageDown),
            },
        );
        bindings.push(
            KeyBinding {
                chord: KeyChord { code: KeyCode::Home, modifiers: NO_MODIFIERS },
                command: SemanticCommand::Move(Direction::Home),
            },
        );
        bindings.push(
            KeyBinding {
                chord: KeyChord { code: KeyCode::End, modifiers: NO_MODIFIERS },
                command: SemanticCommand::Move(Direction::End),
            },
        );
        bindings.push(
            KeyBinding {
                chord: KeyChord { code: KeyCode::Enter, modifiers: NO_MODIFIERS },
                command: SemanticCommand::InsertNewline,
            },
        );
        bindings.push(
            KeyBinding {
                chord: KeyChord { code: KeyCode::Tab, modifiers: NO_MODIFIERS },
                command: SemanticCommand::Insert('\t'),
            },
        );
        bindings.push(
            KeyBinding {
                chord: KeyChord { code: KeyCode::Delete, modifiers: NO_MODIFIERS },
                command: SemanticCommand::Delete,
            },
        );
        bindings.push(
            KeyBinding {
                chord: KeyChord { code: KeyCode::Backspace, modifiers: NO_MODIFIERS },
                command: SemanticCommand::DeleteBackward,
            },
        );
        assert(bindings@ =~= standard_bindings());
        KeyMap { bindings, inserts_text: true }
    }

    /// Assigns `command` to `chord`, in place of what was assigned before.
    pub fn bind(&mut self, chord: KeyChord, command: SemanticCommand)
        ensures
            final(self)@ == (KeyMapView {
                bindings: old(self)@.bindings.insert(chord, command),
                inserts_text: old(self)@.inserts_text,
            }),
    {
        self.bindings.push(KeyBinding { chord, command });
        assert(self.bindings@.drop_last() =~= old(self).bindings@);
    }

    /// The command bound to `chord`, if there is one. Text insertion is not
    /// a binding.
    pub fn lookup(&self, chord: KeyChord) -> (command: Option<SemanticCommand>)
        ensures
            command == (if self@.bindings.contains_key(chord) {
                Some(self@.bindings[chord])
            } else {
                None
            }),
    {
        let mut at: usize = self.bindings.len();
        while at > 0
            invariant
                at <= self.bindings.len(),
                unbound_from(self.bindings@, chord, at as int),
            decreases at,
        {
            at = at - 1;
            if self.bindings[at].chord == chord {
                proof {
                    lemma_last_binding_wins(self.bindings@, chord, at as int);
                }
                return Some(self.bindings[at].command);
            }
        }
        proof {
            lemma_unbound(self.bindings@, chord);
        }
        None
    }

    /// Translates `event` into its command, or fails where it has none.
    pub fn translate(&self, event: RawInputEvent) -> (command: Result<
        SemanticCommand,
        UnsupportedCommandError,
    >)
        ensures
            command == translation(self@, event),
    {
        match event {
            RawInputEvent::Key { code, modifiers, .. } => {
                let chord = KeyChord { code, modifiers };
                match self.lookup(chord) {
                    Some(bound) => Ok(bound),
                    None => {
                        if self.inserts_text && (modifiers == NO_MODIFIERS || modifiers == SHIFT) {
                            match code {
                                KeyCode::Char(c) => Ok(SemanticCommand::Insert(c)),
                                _ => Err(UnsupportedCommandError { event }),
                            }
                        } else {
                            Err(UnsupportedCommandError { event })
                        }
                    },
                }
            },
            RawInputEvent::Resize { columns, rows } => Ok(
                SemanticCommand::Resize { columns, rows },
            ),
            RawInputEvent::Other => Err(UnsupportedCommandError { event }),
        }
    }
}

} // verus!
