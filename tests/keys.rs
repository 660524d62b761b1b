use espmonitor::keys::{encode_utf8, handle_key_event, KeyCode, KeyEvent};

fn plain(code: KeyCode) -> KeyEvent {
    KeyEvent { code, control: false }
}

fn ctrl(c: char) -> KeyEvent {
    KeyEvent { code: KeyCode::Char(c), control: true }
}

#[test]
fn named_keys_have_fixed_sequences() {
    let table: Vec<(KeyCode, &[u8])> = vec![
        (KeyCode::Backspace, b"\x08"),
        (KeyCode::Enter, b"\r"),
        (KeyCode::Left, b"\x1b[D"),
        (KeyCode::Right, b"\x1b[C"),
        (KeyCode::Home, b"\x1b[H"),
        (KeyCode::End, b"\x1b[F"),
        (KeyCode::Up, b"\x1b[A"),
        (KeyCode::Down, b"\x1b[B"),
        (KeyCode::Tab, b"\t"),
        (KeyCode::Delete, b"\x1b[3~"),
        (KeyCode::Insert, b"\x1b[2~"),
        (KeyCode::Esc, b"\x1b"),
    ];
    for (code, bytes) in table {
        assert_eq!(handle_key_event(plain(code)), Some(bytes.to_vec()));
        // Holding Control does not change a named key, and asking twice gives
        // the same answer.
        assert_eq!(handle_key_event(KeyEvent { code, control: true }), Some(bytes.to_vec()));
        assert_eq!(handle_key_event(plain(code)), handle_key_event(plain(code)));
    }
}

#[test]
fn unmapped_key_sends_nothing() {
    assert_eq!(handle_key_event(plain(KeyCode::Other)), None);
    assert_eq!(handle_key_event(KeyEvent { code: KeyCode::Other, control: true }), None);
}

#[test]
fn control_letters_and_space() {
    assert_eq!(handle_key_event(ctrl('a')), Some(vec![0x01]));
    assert_eq!(handle_key_event(ctrl('z')), Some(vec![0x1a]));
    assert_eq!(handle_key_event(ctrl(' ')), Some(vec![0x00]));
}

#[test]
fn control_digits_four_to_seven() {
    assert_eq!(handle_key_event(ctrl('4')), Some(vec![0x1c]));
    assert_eq!(handle_key_event(ctrl('5')), Some(vec![0x1d]));
    assert_eq!(handle_key_event(ctrl('6')), Some(vec![0x1e]));
    assert_eq!(handle_key_event(ctrl('7')), Some(vec![0x1f]));
}

#[test]
fn other_control_characters_pass_through() {
    assert_eq!(handle_key_event(ctrl('3')), Some(vec![b'3']));
    assert_eq!(handle_key_event(ctrl('A')), Some(vec![b'A']));
    assert_eq!(handle_key_event(ctrl('é')), Some("é".as_bytes().to_vec()));
}

#[test]
fn plain_characters_are_utf8() {
    assert_eq!(handle_key_event(plain(KeyCode::Char('a'))), Some(vec![b'a']));
    for c in ['x', 'é', '€', '😀', '\u{7f}', '\u{80}', '\u{7ff}', '\u{800}', '\u{ffff}', '\u{10000}'] {
        let mut buf = [0u8; 4];
        let expected = c.encode_utf8(&mut buf).as_bytes().to_vec();
        assert_eq!(handle_key_event(plain(KeyCode::Char(c))), Some(expected.clone()));
        assert_eq!(encode_utf8(c), expected);
    }
}
