use editor_core::command::{Direction, SemanticCommand, UnsupportedCommandError};
use editor_core::event::{should_process, KeyCode, KeyKind, RawInputEvent};
use editor_core::keymap::{KeyChord, KeyMap, ALT, CONTROL, NO_MODIFIERS, SHIFT};

fn key(code: KeyCode, modifiers: u8, kind: KeyKind) -> RawInputEvent {
    RawInputEvent::Key { code, modifiers, kind }
}

fn press(code: KeyCode) -> RawInputEvent {
    key(code, NO_MODIFIERS, KeyKind::Press)
}

#[test]
fn filter_accepts_key_presses() {
    assert!(should_process(&press(KeyCode::Char('a'))));
    assert!(should_process(&key(KeyCode::Esc, CONTROL | ALT, KeyKind::Press)));
}

#[test]
fn filter_rejects_key_releases_and_repeats() {
    assert!(!should_process(&key(KeyCode::Char('x'), NO_MODIFIERS, KeyKind::Release)));
    assert!(!should_process(&key(KeyCode::Char('x'), NO_MODIFIERS, KeyKind::Repeat)));
}

#[test]
fn filter_accepts_every_resize() {
    assert!(should_process(&RawInputEvent::Resize { columns: 0, rows: 0 }));
    assert!(should_process(&RawInputEvent::Resize { columns: u16::MAX, rows: 1 }));
}

#[test]
fn filter_rejects_other_events() {
    assert!(!should_process(&RawInputEvent::Other));
}

#[test]
fn empty_map_without_text_has_no_command_for_a_key() {
    let keymap = KeyMap::new(false);
    let event = press(KeyCode::Char('a'));
    assert_eq!(keymap.translate(event), Err(UnsupportedCommandError { event }));
    assert_eq!(keymap.lookup(KeyChord { code: KeyCode::Char('a'), modifiers: NO_MODIFIERS }), None);
}

#[test]
fn text_insertion_takes_plain_and_shifted_characters() {
    let keymap = KeyMap::new(true);
    assert_eq!(keymap.translate(press(KeyCode::Char('a'))), Ok(SemanticCommand::Insert('a')));
    assert_eq!(
        keymap.translate(key(KeyCode::Char('A'), SHIFT, KeyKind::Press)),
        Ok(SemanticCommand::Insert('A'))
    );
}

#[test]
fn text_insertion_leaves_out_control_and_alt_chords() {
    let keymap = KeyMap::new(true);
    let with_control = key(KeyCode::Char('a'), CONTROL, KeyKind::Press);
    let with_alt = key(KeyCode::Char('a'), ALT, KeyKind::Press);
    let with_both = key(KeyCode::Char('a'), SHIFT | CONTROL, KeyKind::Press);
    assert_eq!(keymap.translate(with_control), Err(UnsupportedCommandError { event: with_control }));
    assert_eq!(keymap.translate(with_alt), Err(UnsupportedCommandError { event: with_alt }));
    assert_eq!(keymap.translate(with_both), Err(UnsupportedCommandError { event: with_both }));
}

#[test]
fn text_insertion_leaves_out_keys_without_a_character() {
    let keymap = KeyMap::new(true);
    let event = press(KeyCode::Function(5));
    assert_eq!(keymap.translate(event), Err(UnsupportedCommandError { event }));
}

#[test]
fn a_binding_is_found_by_its_exact_chord() {
    let mut keymap = KeyMap::new(false);
    keymap.bind(KeyChord { code: KeyCode::Char('s'), modifiers: CONTROL }, SemanticCommand::Delete);
    assert_eq!(
        keymap.translate(key(KeyCode::Char('s'), CONTROL, KeyKind::Press)),
        Ok(SemanticCommand::Delete)
    );
    let plain = press(KeyCode::Char('s'));
    assert_eq!(keymap.translate(plain), Err(UnsupportedCommandError { event: plain }));
    assert_eq!(
        keymap.lookup(KeyChord { code: KeyCode::Char('s'), modifiers: CONTROL }),
        Some(SemanticCommand::Delete)
    );
    assert_eq!(keymap.lookup(KeyChord { code: KeyCode::Char('s'), modifiers: ALT }), None);
}

#[test]
fn a_binding_goes_before_text_insertion() {
    let mut keymap = KeyMap::new(true);
    keymap.bind(KeyChord { code: KeyCode::Char('q'), modifiers: NO_MODIFIERS }, SemanticCommand::Quit);
    assert_eq!(keymap.translate(press(KeyCode::Char('q'))), Ok(SemanticCommand::Quit));
    assert_eq!(keymap.translate(press(KeyCode::Char('r'))), Ok(SemanticCommand::Insert('r')));
}

#[test]
fn binding_a_chord_again_replaces_its_command() {
    let mut keymap = KeyMap::new(false);
    let chord = KeyChord { code: KeyCode::Esc, modifiers: NO_MODIFIERS };
    let other = KeyChord { code: KeyCode::Enter, modifiers: NO_MODIFIERS };
    keymap.bind(chord, SemanticCommand::Quit);
    keymap.bind(other, SemanticCommand::InsertNewline);
    keymap.bind(chord, SemanticCommand::Move(Direction::Home));
    assert_eq!(keymap.lookup(chord), Some(SemanticCommand::Move(Direction::Home)));
    assert_eq!(keymap.lookup(other), Some(SemanticCommand::InsertNewline));
}

#[test]
fn a_resize_always_resizes_the_viewport() {
    let event = RawInputEvent::Resize { columns: 80, rows: 24 };
    let expected = Ok(SemanticCommand::Resize { columns: 80, rows: 24 });
    assert_eq!(KeyMap::new(false).translate(event), expected);
    assert_eq!(KeyMap::standard().translate(event), expected);
}

#[test]
fn other_events_have_no_command() {
    let event = RawInputEvent::Other;
    assert_eq!(KeyMap::standard().translate(event), Err(UnsupportedCommandError { event }));
}

#[test]
fn translation_does_not_look_at_the_kind_of_key_event() {
    let keymap = KeyMap::new(true);
    assert_eq!(
        keymap.translate(key(KeyCode::Char('z'), NO_MODIFIERS, KeyKind::Release)),
        Ok(SemanticCommand::Insert('z'))
    );
}

#[test]
fn standard_map_quits_on_control_q() {
    let keymap = KeyMap::standard();
    assert_eq!(
        keymap.translate(key(KeyCode::Char('q'), CONTROL, KeyKind::Press)),
        Ok(SemanticCommand::Quit)
    );
    assert_eq!(keymap.translate(press(KeyCode::Char('q'))), Ok(SemanticCommand::Insert('q')));
}

#[test]
fn standard_map_moves_edits_and_inserts() {
    let keymap = KeyMap::standard();
    let expected = [
        (KeyCode::Up, SemanticCommand::Move(Direction::Up)),
        (KeyCode::Down, SemanticCommand::Move(Direction::Down)),
        (KeyCode::Left, SemanticCommand::Move(Direction::Left)),
        (KeyCode::Right, SemanticCommand::Move(Direction::Right)),
        (KeyCode::PageUp, SemanticCommand::Move(Direction::PageUp)),
        (KeyCode::PageDown, SemanticCommand::Move(Direction::PageDown)),
        (KeyCode::Home, SemanticCommand::Move(Direction::Home)),
        (KeyCode::End, SemanticCommand::Move(Direction::End)),
        (KeyCode::Enter, SemanticCommand::InsertNewline),
        (KeyCode::Tab, SemanticCommand::Insert('\t')),
        (KeyCode::Delete, SemanticCommand::Delete),
        (KeyCode::Backspace, SemanticCommand::DeleteBackward),
        (KeyCode::Char('x'), SemanticCommand::Insert('x')),
    ];
    for (code, command) in expected {
        assert_eq!(keymap.translate(press(code)), Ok(command));
    }
    let unbound = press(KeyCode::Esc);
    assert_eq!(keymap.translate(unbound), Err(UnsupportedCommandError { event: unbound }));
}
