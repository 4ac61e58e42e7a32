use multiplexer::keys::{control_char_byte, key_to_bytes, KeyCode, KeyEvent, KeyModifiers};

fn pressed(code: KeyCode, modifiers: KeyModifiers) -> Vec<u8> {
    key_to_bytes(&KeyEvent::new(code, modifiers))
}

fn none() -> KeyModifiers {
    KeyModifiers::none()
}

fn shift() -> KeyModifiers {
    KeyModifiers::shift()
}

fn control() -> KeyModifiers {
    KeyModifiers::control()
}

fn alt() -> KeyModifiers {
    KeyModifiers::alt()
}

fn control_shift() -> KeyModifiers {
    KeyModifiers::control().union(KeyModifiers::shift())
}

#[test]
fn control_letters_encode_to_c0() {
    for (i, c) in ('a'..='z').enumerate() {
        assert_eq!(
            pressed(KeyCode::Char(c), control()),
            vec![(i + 1) as u8],
            "Ctrl+{c}"
        );
    }
}

#[test]
fn control_uppercase_and_shift_are_normalized() {
    assert_eq!(
        pressed(KeyCode::Char('C'), control()),
        vec![0x03],
        "Ctrl+C reported as uppercase"
    );
    assert_eq!(pressed(KeyCode::Char('C'), control_shift()), vec![0x03], "Ctrl+Shift+C");
}

#[test]
fn control_punctuation_covers_rest_of_c0() {
    let cases = [
        ('@', 0x00),
        (' ', 0x00),
        ('[', 0x1b),
        ('\\', 0x1c),
        (']', 0x1d),
        ('^', 0x1e),
        ('_', 0x1f),
        ('/', 0x1f),
        ('?', 0x7f),
    ];
    for (c, expected) in cases {
        assert_eq!(pressed(KeyCode::Char(c), control()), vec![expected], "Ctrl+{c}");
    }
}

#[test]
fn control_on_unmappable_char_is_sent_literally() {
    assert_eq!(pressed(KeyCode::Char('1'), control()), b"1".to_vec());
    assert_eq!(pressed(KeyCode::Char('é'), control()), "é".as_bytes().to_vec());
}

#[test]
fn navigation_and_edit_keys_get_terminal_sequences() {
    let cases = [
        (KeyCode::Enter, &b"\r"[..]),
        (KeyCode::Tab, b"\t"),
        (KeyCode::Backspace, b"\x7f"),
        (KeyCode::Esc, b"\x1b"),
        (KeyCode::Up, b"\x1b[A"),
        (KeyCode::Down, b"\x1b[B"),
        (KeyCode::Right, b"\x1b[C"),
        (KeyCode::Left, b"\x1b[D"),
        (KeyCode::Delete, b"\x1b[3~"),
        (KeyCode::Null, b""),
    ];
    for (code, expected) in cases {
        assert_eq!(pressed(code, none()), expected, "{code:?}");
    }
}

#[test]
fn plain_chars_are_sent_as_utf8() {
    assert_eq!(pressed(KeyCode::Char('a'), none()), b"a".to_vec());
    assert_eq!(pressed(KeyCode::Char('é'), none()), "é".as_bytes().to_vec());
}

#[test]
fn alt_keys_are_esc_prefixed() {
    assert_eq!(pressed(KeyCode::Char('x'), alt()), b"\x1bx".to_vec());
    assert_eq!(pressed(KeyCode::Enter, alt()), b"\x1b\r".to_vec());
    assert_eq!(pressed(KeyCode::Backspace, alt()), b"\x1b\x7f".to_vec());
    assert_eq!(pressed(KeyCode::Up, alt()), b"\x1b[1;3A".to_vec());
    assert_eq!(
        pressed(KeyCode::Char('c'), alt().union(control())),
        b"\x1b\x03".to_vec()
    );
}

#[test]
fn csi_keys_encode_with_modifier_parameter() {
    let cases: &[(KeyCode, KeyModifiers, &[u8])] = &[
        (KeyCode::Home, none(), b"\x1b[H"),
        (KeyCode::Home, shift(), b"\x1b[1;2H"),
        (KeyCode::Home, control(), b"\x1b[1;5H"),
        (KeyCode::Home, alt(), b"\x1b[1;3H"),
        (KeyCode::Home, control_shift(), b"\x1b[1;6H"),
        (KeyCode::End, none(), b"\x1b[F"),
        (KeyCode::End, shift(), b"\x1b[1;2F"),
        (KeyCode::End, control(), b"\x1b[1;5F"),
        (KeyCode::End, alt(), b"\x1b[1;3F"),
        (KeyCode::End, control_shift(), b"\x1b[1;6F"),
        (KeyCode::Insert, none(), b"\x1b[2~"),
        (KeyCode::Insert, shift(), b"\x1b[2;2~"),
        (KeyCode::Insert, control(), b"\x1b[2;5~"),
        (KeyCode::Insert, alt(), b"\x1b[2;3~"),
        (KeyCode::Insert, control_shift(), b"\x1b[2;6~"),
        (KeyCode::PageUp, none(), b"\x1b[5~"),
        (KeyCode::PageUp, shift(), b"\x1b[5;2~"),
        (KeyCode::PageUp, control(), b"\x1b[5;5~"),
        (KeyCode::PageUp, alt(), b"\x1b[5;3~"),
        (KeyCode::PageUp, control_shift(), b"\x1b[5;6~"),
        (KeyCode::PageDown, none(), b"\x1b[6~"),
        (KeyCode::PageDown, shift(), b"\x1b[6;2~"),
        (KeyCode::PageDown, control(), b"\x1b[6;5~"),
        (KeyCode::PageDown, alt(), b"\x1b[6;3~"),
        (KeyCode::PageDown, control_shift(), b"\x1b[6;6~"),
        (KeyCode::F(1), none(), b"\x1bOP"),
        (KeyCode::F(1), shift(), b"\x1b[1;2P"),
        (KeyCode::F(1), control(), b"\x1b[1;5P"),
        (KeyCode::F(1), alt(), b"\x1b[1;3P"),
        (KeyCode::F(1), control_shift(), b"\x1b[1;6P"),
        (KeyCode::F(4), none(), b"\x1bOS"),
        (KeyCode::F(4), shift(), b"\x1b[1;2S"),
        (KeyCode::F(4), control(), b"\x1b[1;5S"),
        (KeyCode::F(4), alt(), b"\x1b[1;3S"),
        (KeyCode::F(4), control_shift(), b"\x1b[1;6S"),
        (KeyCode::F(5), none(), b"\x1b[15~"),
        (KeyCode::F(5), shift(), b"\x1b[15;2~"),
        (KeyCode::F(5), control(), b"\x1b[15;5~"),
        (KeyCode::F(5), alt(), b"\x1b[15;3~"),
        (KeyCode::F(5), control_shift(), b"\x1b[15;6~"),
        (KeyCode::F(12), none(), b"\x1b[24~"),
        (KeyCode::F(12), shift(), b"\x1b[24;2~"),
        (KeyCode::F(12), control(), b"\x1b[24;5~"),
        (KeyCode::F(12), alt(), b"\x1b[24;3~"),
        (KeyCode::F(12), control_shift(), b"\x1b[24;6~"),
    ];

    for (code, modifiers, expected) in cases {
        assert_eq!(
            pressed(*code, *modifiers),
            expected.to_vec(),
            "{code:?} with {modifiers:?}"
        );
    }

    assert_eq!(pressed(KeyCode::Tab, shift()), b"\x1b[Z".to_vec());
}

#[test]
fn remaining_function_keys_and_unencoded_keys() {
    let table = [(6u8, 17u8), (7, 18), (8, 19), (9, 20), (10, 21), (11, 23)];
    for (n, code) in table {
        assert_eq!(pressed(KeyCode::F(n), none()), format!("\x1b[{code}~").into_bytes());
    }
    assert_eq!(pressed(KeyCode::F(2), none()), b"\x1bOQ".to_vec());
    assert_eq!(pressed(KeyCode::F(3), none()), b"\x1bOR".to_vec());
    assert_eq!(pressed(KeyCode::F(13), none()), b"".to_vec());
    assert_eq!(pressed(KeyCode::F(0), alt()), b"".to_vec());
    assert_eq!(pressed(KeyCode::Null, alt()), b"".to_vec());
    assert_eq!(pressed(KeyCode::Char('😀'), none()), "😀".as_bytes().to_vec());
    assert_eq!(pressed(KeyCode::Char('€'), alt()), "\x1b€".as_bytes().to_vec());
    assert_eq!(pressed(KeyCode::Up, control().union(alt()).union(shift())), b"\x1b[1;8A".to_vec());
}

#[test]
fn back_tab_encodes_as_shift_tab() {
    assert_eq!(pressed(KeyCode::BackTab, shift()), b"\x1b[Z".to_vec());
    assert_eq!(pressed(KeyCode::BackTab, none()), b"\x1b[Z".to_vec());
    assert_eq!(pressed(KeyCode::Tab, shift()), b"\x1b[Z".to_vec());
}

#[test]
fn control_byte_is_the_same_for_both_cases() {
    assert_eq!(control_char_byte('C'), Some(0x03));
    assert_eq!(control_char_byte('c'), Some(0x03));
    for c in ['A', 'z', '[', '@', '?', '1', 'é'] {
        assert_eq!(control_char_byte(c), control_char_byte(c.to_ascii_lowercase()));
    }
    assert_eq!(control_char_byte('1'), None);
}
