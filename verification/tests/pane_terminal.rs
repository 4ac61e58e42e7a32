use std::sync::{Arc, Mutex};

use multiplexer::pane::{csi_reply, SharedTitle};

const SCROLLBACK_SIZE: usize = 1200;

/// Connects a vt100 parser to the library's reply and title handling, the
/// way the multiplexer's callbacks do.
struct Wiring {
    replies: Arc<Mutex<Vec<u8>>>,
    title: Arc<Mutex<SharedTitle>>,
}

impl vt100::Callbacks for Wiring {
    fn set_window_title(&mut self, _screen: &mut vt100::Screen, title: &[u8]) {
        self.title.lock().unwrap().set_from_bytes(title);
    }

    fn set_window_icon_name(&mut self, _screen: &mut vt100::Screen, icon_name: &[u8]) {
        self.title.lock().unwrap().set_from_bytes(icon_name);
    }

    fn unhandled_csi(
        &mut self,
        screen: &mut vt100::Screen,
        i1: Option<u8>,
        _i2: Option<u8>,
        params: &[&[u16]],
        c: char,
    ) {
        let first = params.first().and_then(|p| p.first()).copied();
        let (row, col) = screen.cursor_position();
        if let Some(bytes) = csi_reply(i1, c, first, row, col) {
            self.replies.lock().unwrap().extend_from_slice(&bytes);
        }
    }
}

fn test_parser_with_title() -> (
    vt100::Parser<Wiring>,
    Arc<Mutex<Vec<u8>>>,
    Arc<Mutex<SharedTitle>>,
) {
    let bytes = Arc::new(Mutex::new(Vec::new()));
    let title = Arc::new(Mutex::new(SharedTitle::new()));
    let parser = vt100::Parser::new_with_callbacks(
        24,
        80,
        SCROLLBACK_SIZE,
        Wiring { replies: Arc::clone(&bytes), title: Arc::clone(&title) },
    );
    (parser, bytes, title)
}

fn test_parser() -> (vt100::Parser<Wiring>, Arc<Mutex<Vec<u8>>>) {
    let (parser, bytes, _title) = test_parser_with_title();
    (parser, bytes)
}

fn take(title: &Arc<Mutex<SharedTitle>>) -> Option<String> {
    title.lock().unwrap().take_if_changed()
}

#[test]
fn da1_replies_vt220() {
    let (mut parser, bytes) = test_parser();
    parser.process(b"\x1b[c");
    assert_eq!(*bytes.lock().unwrap(), b"\x1b[?62;22c".to_vec());
}

#[test]
fn dsr5_replies_ok() {
    let (mut parser, bytes) = test_parser();
    parser.process(b"\x1b[5n");
    assert_eq!(*bytes.lock().unwrap(), b"\x1b[0n".to_vec());
}

#[test]
fn cpr_reports_one_based_position() {
    let (mut parser, bytes) = test_parser();
    parser.process(b"\x1b[3;5H\x1b[6n");
    assert_eq!(*bytes.lock().unwrap(), b"\x1b[3;5R".to_vec());
}

#[test]
fn cpr_reports_home_as_1_1() {
    let (mut parser, bytes) = test_parser();
    parser.process(b"\x1b[H\x1b[6n");
    assert_eq!(*bytes.lock().unwrap(), b"\x1b[1;1R".to_vec());
}

#[test]
fn private_cpr_is_answered() {
    let (mut parser, bytes) = test_parser();
    parser.process(b"\x1b[2;2H\x1b[?6n");
    assert_eq!(*bytes.lock().unwrap(), b"\x1b[2;2R".to_vec());
}

#[test]
fn da2_replies_generic_terminal() {
    let (mut parser, bytes) = test_parser();
    parser.process(b"\x1b[>0c");
    assert_eq!(*bytes.lock().unwrap(), b"\x1b[>0;1;0c".to_vec());
}

#[test]
fn printer_status_is_ignored() {
    let (mut parser, bytes) = test_parser();
    parser.process(b"\x1b[?5n");
    assert!(bytes.lock().unwrap().is_empty());
}

#[test]
fn osc0_title_surfaces_as_single_change() {
    let (mut parser, _bytes, title) = test_parser_with_title();
    parser.process(b"\x1b]0;my title\x07");
    assert_eq!(take(&title).as_deref(), Some("my title"));
    assert_eq!(take(&title), None);
}

#[test]
fn osc2_title_updates() {
    let (mut parser, _bytes, title) = test_parser_with_title();
    parser.process(b"\x1b]2;other title\x07");
    assert_eq!(take(&title).as_deref(), Some("other title"));
}

#[test]
fn osc1_icon_name_counts_as_title() {
    let (mut parser, _bytes, title) = test_parser_with_title();
    parser.process(b"\x1b]1;icon name\x07");
    assert_eq!(take(&title).as_deref(), Some("icon name"));
}

#[test]
fn non_utf8_title_is_ignored() {
    let (mut parser, _bytes, title) = test_parser_with_title();
    parser.process(b"\x1b]2;\xff\xfe\x07");
    assert_eq!(take(&title), None);
}

#[test]
fn latest_title_wins_before_sync() {
    let (mut parser, _bytes, title) = test_parser_with_title();
    parser.process(b"\x1b]2;first\x07");
    parser.process(b"\x1b]2;second\x07");
    assert_eq!(take(&title).as_deref(), Some("second"));
}

#[test]
fn replies_computed_directly() {
    assert_eq!(csi_reply(None, 'c', None, 0, 0), Some(b"\x1b[?62;22c".to_vec()));
    assert_eq!(csi_reply(Some(b'>'), 'c', Some(0), 0, 0), Some(b"\x1b[>0;1;0c".to_vec()));
    assert_eq!(csi_reply(None, 'n', Some(6), 9, 119), Some(b"\x1b[10;120R".to_vec()));
    assert_eq!(csi_reply(Some(b'?'), 'n', Some(5), 0, 0), None);
    assert_eq!(csi_reply(None, 'n', None, 0, 0), None);
    assert_eq!(csi_reply(None, 'x', Some(6), 0, 0), None);
    assert_eq!(csi_reply(Some(b'='), 'c', None, 0, 0), None);
}

#[test]
fn title_slot_take_and_set() {
    let mut slot = SharedTitle::new();
    assert_eq!(slot.take_if_changed(), None);
    slot.set("a".to_string());
    slot.set_from_bytes(b"b\xff");
    assert_eq!(slot.take_if_changed().as_deref(), Some("a"));
    assert_eq!(slot.take_if_changed(), None);
    slot.set_from_bytes("ü".as_bytes());
    assert_eq!(slot.take_if_changed().as_deref(), Some("ü"));
}
