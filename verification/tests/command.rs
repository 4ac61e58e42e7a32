use multiplexer::command::{resolve, Command};
use multiplexer::keys::{KeyCode, KeyEvent, KeyModifiers};

fn key(code: KeyCode, modifiers: KeyModifiers) -> KeyEvent {
    KeyEvent::new(code, modifiers)
}

#[test]
fn alt_letters_map_to_mux_commands() {
    let cases = [
        ('w', Command::Quit),
        ('c', Command::NewTab),
        ('e', Command::NextTab),
        ('q', Command::PrevTab),
        ('j', Command::CycleGrid),
        ('r', Command::DeletePane),
        ('n', Command::NextPane),
        ('t', Command::NewPane),
    ];
    for (c, expected) in cases {
        assert_eq!(
            resolve(key(KeyCode::Char(c), KeyModifiers::alt())),
            expected,
            "Alt+{c}"
        );
    }
}

#[test]
fn alt_with_extra_modifiers_still_matches() {
    assert_eq!(
        resolve(key(
            KeyCode::Char('w'),
            KeyModifiers::alt().union(KeyModifiers::shift())
        )),
        Command::Quit
    );
}

#[test]
fn plain_letter_is_sent_to_pane() {
    let k = key(KeyCode::Char('w'), KeyModifiers::none());
    assert_eq!(resolve(k), Command::SendKey(k));
}

#[test]
fn unbound_alt_letter_falls_through_to_pane() {
    let k = key(KeyCode::Char('x'), KeyModifiers::alt());
    assert_eq!(resolve(k), Command::SendKey(k));
}

#[test]
fn scroll_keys_fire_regardless_of_modifiers() {
    let cases = [
        (KeyCode::Home, Command::ScrollToTop),
        (KeyCode::End, Command::ScrollToBottom),
        (KeyCode::PageUp, Command::ScrollPageUp),
        (KeyCode::PageDown, Command::ScrollPageDown),
    ];
    for (code, expected) in cases {
        assert_eq!(resolve(key(code, KeyModifiers::none())), expected, "{code:?}");
        assert_eq!(
            resolve(key(code, KeyModifiers::alt())),
            expected,
            "Alt+{code:?}"
        );
    }
}

#[test]
fn control_letter_is_not_a_hotkey() {
    let k = key(KeyCode::Char('w'), KeyModifiers::control());
    assert_eq!(resolve(k), Command::SendKey(k));
    let f = key(KeyCode::F(1), KeyModifiers::alt());
    assert_eq!(resolve(f), Command::SendKey(f));
}
