use ptygrid::keymap::{key_to_bytes, KeyCode, KeyMods};

#[test]
fn plain_ascii_character() {
    assert_eq!(key_to_bytes(KeyCode::Char('a'), KeyMods::Plain), Some(vec![97]));
    assert_eq!(key_to_bytes(KeyCode::Char('1'), KeyMods::Plain), Some(vec![49]));
}

#[test]
fn shift_upcases_letters() {
    assert_eq!(key_to_bytes(KeyCode::Char('a'), KeyMods::Shift), Some(vec![65]));
    assert_eq!(key_to_bytes(KeyCode::Char('Z'), KeyMods::Shift), Some(vec![90]));
    assert_eq!(key_to_bytes(KeyCode::Char('1'), KeyMods::Shift), Some(vec![49]));
}

#[test]
fn control_letters_map_to_control_bytes() {
    assert_eq!(key_to_bytes(KeyCode::Char('a'), KeyMods::Ctrl), Some(vec![1]));
    assert_eq!(key_to_bytes(KeyCode::Char('c'), KeyMods::Ctrl), Some(vec![3]));
    assert_eq!(key_to_bytes(KeyCode::Char('C'), KeyMods::Ctrl), Some(vec![3]));
    assert_eq!(key_to_bytes(KeyCode::Char('z'), KeyMods::Ctrl), Some(vec![26]));
    assert_eq!(key_to_bytes(KeyCode::Char('1'), KeyMods::Ctrl), None);
}

#[test]
fn non_ascii_and_unknown_modifiers_send_nothing() {
    assert_eq!(key_to_bytes(KeyCode::Char('é'), KeyMods::Plain), None);
    assert_eq!(key_to_bytes(KeyCode::Char('a'), KeyMods::Other), None);
}

#[test]
fn special_keys() {
    assert_eq!(key_to_bytes(KeyCode::Enter, KeyMods::Plain), Some(vec![b'\r']));
    assert_eq!(key_to_bytes(KeyCode::Backspace, KeyMods::Plain), Some(vec![127]));
    assert_eq!(key_to_bytes(KeyCode::Tab, KeyMods::Plain), Some(vec![b'\t']));
    assert_eq!(key_to_bytes(KeyCode::Esc, KeyMods::Plain), Some(vec![27]));
    assert_eq!(key_to_bytes(KeyCode::Up, KeyMods::Plain), Some(vec![27, b'[', b'A']));
    assert_eq!(key_to_bytes(KeyCode::Down, KeyMods::Plain), Some(vec![27, b'[', b'B']));
    assert_eq!(key_to_bytes(KeyCode::Right, KeyMods::Plain), Some(vec![27, b'[', b'C']));
    assert_eq!(key_to_bytes(KeyCode::Left, KeyMods::Plain), Some(vec![27, b'[', b'D']));
    assert_eq!(key_to_bytes(KeyCode::Home, KeyMods::Plain), Some(vec![27, b'[', b'H']));
    assert_eq!(key_to_bytes(KeyCode::End, KeyMods::Plain), Some(vec![27, b'[', b'F']));
    assert_eq!(key_to_bytes(KeyCode::Delete, KeyMods::Plain), Some(vec![27, b'[', b'3', b'~']));
    assert_eq!(key_to_bytes(KeyCode::PageUp, KeyMods::Plain), Some(vec![27, b'[', b'5', b'~']));
    assert_eq!(key_to_bytes(KeyCode::PageDown, KeyMods::Plain), Some(vec![27, b'[', b'6', b'~']));
}

#[test]
fn special_keys_ignore_modifiers() {
    assert_eq!(key_to_bytes(KeyCode::Enter, KeyMods::Ctrl), Some(vec![b'\r']));
    assert_eq!(key_to_bytes(KeyCode::Up, KeyMods::Shift), Some(vec![27, b'[', b'A']));
}
