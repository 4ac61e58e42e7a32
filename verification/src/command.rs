//! Key bindings: the translation of key events into multiplexer commands.

use vstd::prelude::*;
use crate::keys::{KeyCode, KeyEvent, KeyModifiers};

verus! {

/// What a key press asks the multiplexer to do.
#[derive(Clone, Copy, Debug, PartialEq, Eq, Structural)]
pub enum Command {
    Quit,
    NewTab,
    NextTab,
    PrevTab,
    CycleGrid,
    DeletePane,
    NextPane,
    NewPane,
    ScrollToTop,
    ScrollToBottom,
    ScrollPageUp,
    ScrollPageDown,
    /// Not a multiplexer hotkey: forward the key to the active pane.
    SendKey(KeyEvent),
}

/// Multiplexer hotkeys: Alt+letter.
pub open spec fn alt_binding(c: char) -> Option<Command> {
    if c == 'w' {
        Some(Command::Quit)
    } else if c == 'c' {
        Some(Command::NewTab)
    } else if c == 'e' {
        Some(Command::NextTab)
    } else if c == 'q' {
        Some(Command::PrevTab)
    } else if c == 'j' {
        Some(Command::CycleGrid)
    } else if c == 'r' {
        Some(Command::DeletePane)
    } else if c == 'n' {
        Some(Command::NextPane)
    } else if c == 't' {
        Some(Command::NewPane)
    } else {
        None
    }
}

/// Scroll keys, whatever the modifiers.
pub open spec fn scroll_binding(code: KeyCode) -> Option<Command> {
    match code {
        KeyCode::Home => Some(Command::ScrollToTop),
        KeyCode::End => Some(Command::ScrollToBottom),
        KeyCode::PageUp => Some(Command::ScrollPageUp),
        KeyCode::PageDown => Some(Command::ScrollPageDown),
        _ => None,
    }
}

/// The command that `key` triggers: an Alt hotkey first, then a scroll key,
/// and otherwise the key is sent to the active pane.
pub open spec fn resolve_spec(key: KeyEvent) -> Command {
    if key.modifiers.alt && key.code is Char && alt_binding(key.code->Char_0) is Some {
        alt_binding(key.code->Char_0).unwrap()
    } else if scroll_binding(key.code) is Some {
        scroll_binding(key.code).unwrap()
    } else {
        Command::SendKey(key)
    }
}

fn alt_command(c: char) -> (cmd: Option<Command>)
    ensures
        cmd == alt_binding(c),
{
    match c {
        'w' => Some(Command::Quit),
        'c' => Some(Command::NewTab),
        'e' => Some(Command::NextTab),
        'q' => Some(Command::PrevTab),
        'j' => Some(Command::CycleGrid),
        'r' => Some(Command::DeletePane),
        'n' => Some(Command::NextPane),
        't' => Some(Command::NewPane),
        _ => None,
    }
}

fn scroll_command(code: KeyCode) -> (cmd: Option<Command>)
    ensures
        cmd == scroll_binding(code),
{
    match code {
        KeyCode::Home => Some(Command::ScrollToTop),
        KeyCode::End => Some(Command::ScrollToBottom),
        KeyCode::PageUp => Some(Command::ScrollPageUp),
        KeyCode::PageDown => Some(Command::ScrollPageDown),
        _ => None,
    }
}

/// Maps a key event to the command it triggers.
pub fn resolve(key: KeyEvent) -> (cmd: Command)
    ensures
        cmd == resolve_spec(key),
{
    if key.modifiers.alt {
        if let KeyCode::Char(c) = key.code {
            if let Some(command) = alt_command(c) {
                return command;
            }
        }
    }
    if let Some(command) = scroll_command(key.code) {
        return command;
    }
    Command::SendKey(key)
}

/// Home, End, PageUp and PageDown scroll the active pane whatever modifiers
/// are held: to the top, to the live screen, a page up and a page down.
pub proof fn lemma_scroll_keys_ignore_modifiers(modifiers: KeyModifiers)
    ensures
        resolve_spec(KeyEvent { code: KeyCode::Home, modifiers }) == Command::ScrollToTop,
        resolve_spec(KeyEvent { code: KeyCode::End, modifiers }) == Command::ScrollToBottom,
        resolve_spec(KeyEvent { code: KeyCode::PageUp, modifiers }) == Command::ScrollPageUp,
        resolve_spec(KeyEvent { code: KeyCode::PageDown, modifiers }) == Command::ScrollPageDown,
{
}

} // verus!
