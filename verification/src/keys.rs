//! Key events and their encoding into the bytes a terminal sends to the
//! program running in it (xterm conventions).

use vstd::prelude::*;
use crate::text::{ascii_lower, decimal, push_decimal, to_ascii_lower, utf8_bytes, utf8_of};

verus! {

/// A media key.
#[derive(Clone, Copy, Debug, PartialEq, Eq, Structural)]
pub enum MediaKeyCode {
    Play,
    Pause,
    PlayPause,
    Reverse,
    Stop,
    FastForward,
    Rewind,
    TrackNext,
    TrackPrevious,
    Record,
    LowerVolume,
    RaiseVolume,
    MuteVolume,
}

/// A modifier key pressed on its own.
#[derive(Clone, Copy, Debug, PartialEq, Eq, Structural)]
pub enum ModifierKeyCode {
    LeftShift,
    LeftControl,
    LeftAlt,
    LeftSuper,
    LeftHyper,
    LeftMeta,
    RightShift,
    RightControl,
    RightAlt,
    RightSuper,
    RightHyper,
    RightMeta,
    IsoLevel3Shift,
    IsoLevel5Shift,
}

/// The key of a key event.
#[derive(Clone, Copy, Debug, PartialEq, Eq, Structural)]
pub enum KeyCode {
    Backspace,
    Enter,
    Left,
    Right,
    Up,
    Down,
    Home,
    End,
    PageUp,
    PageDown,
    Tab,
    BackTab,
    Delete,
    Insert,
    F(u8),
    Char(char),
    Null,
    Esc,
    CapsLock,
    ScrollLock,
    NumLock,
    PrintScreen,
    Pause,
    Menu,
    KeypadBegin,
    Media(MediaKeyCode),
    Modifier(ModifierKeyCode),
}

/// The modifier keys held during a key event.
#[derive(Clone, Copy, Debug, PartialEq, Eq, Structural)]
pub struct KeyModifiers {
    pub shift: bool,
    pub control: bool,
    pub alt: bool,
    pub super_key: bool,
    pub hyper: bool,
    pub meta: bool,
}

impl KeyModifiers {
    /// No modifier held.
    pub fn none() -> (m: KeyModifiers)
        ensures
            !m.shift && !m.control && !m.alt && !m.super_key && !m.hyper && !m.meta,
    {
        KeyModifiers { shift: false, control: false, alt: false, super_key: false, hyper: false, meta: false }
    }

    /// Shift alone.
    pub fn shift() -> (m: KeyModifiers)
        ensures
            m.shift && !m.control && !m.alt && !m.super_key && !m.hyper && !m.meta,
    {
        KeyModifiers { shift: true, control: false, alt: false, super_key: false, hyper: false, meta: false }
    }

    /// Control alone.
    pub fn control() -> (m: KeyModifiers)
        ensures
            !m.shift && m.control && !m.alt && !m.super_key && !m.hyper && !m.meta,
    {
        KeyModifiers { shift: false, control: true, alt: false, super_key: false, hyper: false, meta: false }
    }

    /// Alt alone.
    pub fn alt() -> (m: KeyModifiers)
        ensures
            !m.shift && !m.control && m.alt && !m.super_key && !m.hyper && !m.meta,
    {
        KeyModifiers { shift: false, control: false, alt: true, super_key: false, hyper: false, meta: false }
    }

    /// The modifiers held in either `self` or `other`.
    pub fn union(self, other: KeyModifiers) -> (m: KeyModifiers)
        ensures
            m.shift == (self.shift || other.shift),
            m.control == (self.control || other.control),
            m.alt == (self.alt || other.alt),
            m.super_key == (self.super_key || other.super_key),
            m.hyper == (self.hyper || other.hyper),
            m.meta == (self.meta || other.meta),
    {
        KeyModifiers {
            shift: self.shift || other.shift,
            control: self.control || other.control,
            alt: self.alt || other.alt,
            super_key: self.super_key || other.super_key,
            hyper: self.hyper || other.hyper,
            meta: self.meta || other.meta,
        }
    }
}

/// A key press: the key and the modifiers held with it.
#[derive(Clone, Copy, Debug, PartialEq, Eq, Structural)]
pub struct KeyEvent {
    pub code: KeyCode,
    pub modifiers: KeyModifiers,
}

impl KeyEvent {
    pub fn new(code: KeyCode, modifiers: KeyModifiers) -> (k: KeyEvent)
        ensures
            k.code == code,
            k.modifiers == modifiers,
    {
        KeyEvent { code, modifiers }
    }
}

/// The escape byte.
pub open spec fn esc() -> u8 {
    0x1b
}

/// The xterm modifier parameter: 1 + shift + 2·alt + 4·control.
pub open spec fn modifier_param_spec(m: KeyModifiers) -> u8 {
    (1 + (if m.shift { 1int } else { 0 }) + 2 * (if m.alt { 1int } else { 0 }) + 4 * (if m.control {
        1int
    } else {
        0
    })) as u8
}

/// Whether shift, alt or control is held (other modifiers do not count).
pub open spec fn is_modified(m: KeyModifiers) -> bool {
    m.shift || m.alt || m.control
}

/// `ESC [ final` or, when modified, `ESC [ 1 ; m final`.
pub open spec fn csi_seq(final_byte: u8, modified: bool, m: u8) -> Seq<u8> {
    if modified {
        seq![esc(), 91u8, 49u8, 59u8] + decimal(m as nat) + seq![final_byte]
    } else {
        seq![esc(), 91u8, final_byte]
    }
}

/// `ESC [ n ~` or, when modified, `ESC [ n ; m ~`.
pub open spec fn tilde_seq(n: u8, modified: bool, m: u8) -> Seq<u8> {
    if modified {
        seq![esc(), 91u8] + decimal(n as nat) + seq![59u8] + decimal(m as nat) + seq![126u8]
    } else {
        seq![esc(), 91u8] + decimal(n as nat) + seq![126u8]
    }
}

/// The final character of the F1..=F4 sequences.
pub open spec fn f_final_spec(n: u8) -> char {
    if n == 1 {
        'P'
    } else if n == 2 {
        'Q'
    } else if n == 3 {
        'R'
    } else {
        'S'
    }
}

/// The `~` code of F5..=F12.
pub open spec fn f_tilde_code(n: u8) -> u8 {
    if n == 5 {
        15
    } else if n == 6 {
        17
    } else if n == 7 {
        18
    } else if n == 8 {
        19
    } else if n == 9 {
        20
    } else if n == 10 {
        21
    } else if n == 11 {
        23
    } else {
        24
    }
}

/// The bytes of function key `n` (1..=12).
pub open spec fn f_key_seq(n: u8, modified: bool, m: u8) -> Seq<u8> {
    if 1 <= n <= 4 {
        if modified {
            csi_seq(f_final_spec(n) as u8, true, m)
        } else {
            seq![esc(), 79u8, f_final_spec(n) as u8]
        }
    } else {
        tilde_seq(f_tilde_code(n), modified, m)
    }
}

/// The escape sequence of keys that are sent as CSI sequences, if `key` is one.
pub open spec fn csi_key_spec(key: KeyEvent) -> Option<Seq<u8>> {
    let modified = is_modified(key.modifiers);
    let m = modifier_param_spec(key.modifiers);
    match key.code {
        KeyCode::Up => Some(csi_seq(65u8, modified, m)),
        KeyCode::Down => Some(csi_seq(66u8, modified, m)),
        KeyCode::Right => Some(csi_seq(67u8, modified, m)),
        KeyCode::Left => Some(csi_seq(68u8, modified, m)),
        KeyCode::Home => Some(csi_seq(72u8, modified, m)),
        KeyCode::End => Some(csi_seq(70u8, modified, m)),
        KeyCode::Insert => Some(tilde_seq(2, modified, m)),
        KeyCode::Delete => Some(tilde_seq(3, modified, m)),
        KeyCode::PageUp => Some(tilde_seq(5, modified, m)),
        KeyCode::PageDown => Some(tilde_seq(6, modified, m)),
        KeyCode::F(n) => if 1 <= n <= 12 {
            Some(f_key_seq(n, modified, m))
        } else {
            None
        },
        KeyCode::Tab => if key.modifiers.shift {
            Some(seq![esc(), 91u8, 90u8])
        } else {
            None
        },
        KeyCode::BackTab => Some(seq![esc(), 91u8, 90u8]),
        _ => None,
    }
}

/// The C0 control byte that Ctrl+`c` produces, if any.
pub open spec fn control_byte_spec(c: char) -> Option<u8> {
    let l = ascii_lower(c);
    if 'a' <= l && l <= 'z' {
        Some((l as u32 - 96) as u8)
    } else if l == '@' || l == ' ' {
        Some(0x00)
    } else if l == '[' {
        Some(0x1b)
    } else if l == '\\' {
        Some(0x1c)
    } else if l == ']' {
        Some(0x1d)
    } else if l == '^' {
        Some(0x1e)
    } else if l == '_' || l == '/' {
        Some(0x1f)
    } else if l == '?' {
        Some(0x7f)
    } else {
        None
    }
}

/// The bytes of a key that is not a CSI key, before any Alt prefix.
pub open spec fn plain_key_spec(key: KeyEvent) -> Seq<u8> {
    match key.code {
        KeyCode::Enter => seq![13u8],
        KeyCode::Tab => seq![9u8],
        KeyCode::Backspace => seq![127u8],
        KeyCode::Esc => seq![esc()],
        KeyCode::Char(c) => if key.modifiers.control {
            match control_byte_spec(c) {
                Some(b) => seq![b],
                None => utf8_of(c),
            }
        } else {
            utf8_of(c)
        },
        _ => seq![],
    }
}

/// The bytes a terminal sends for `key`.
pub open spec fn key_bytes_spec(key: KeyEvent) -> Seq<u8> {
    match csi_key_spec(key) {
        Some(seq) => seq,
        None => {
            let base = plain_key_spec(key);
            if key.modifiers.alt && base.len() > 0 {
                seq![esc()] + base
            } else {
                base
            }
        },
    }
}

/// The xterm modifier parameter of `modifiers`.
fn modifier_param(modifiers: KeyModifiers) -> (m: u8)
    ensures
        m == modifier_param_spec(modifiers),
        1 <= m <= 8,
{
    let shift: u8 = if modifiers.shift { 1 } else { 0 };
    let alt: u8 = if modifiers.alt { 1 } else { 0 };
    let ctrl: u8 = if modifiers.control { 1 } else { 0 };
    1 + shift + 2 * alt + 4 * ctrl
}

/// `ESC [ final`, or `ESC [ 1 ; m final` when modified.
fn ansi_csi(final_byte: u8, modified: bool, m: u8) -> (bytes: Vec<u8>)
    ensures
        bytes@ == csi_seq(final_byte, modified, m),
{
    let mut bytes: Vec<u8> = Vec::new();
    bytes.push(0x1b);
    bytes.push(0x5b);
    if modified {
        bytes.push(0x31);
        bytes.push(0x3b);
        push_decimal(&mut bytes, m as u32);
    }
    bytes.push(final_byte);
    assert(bytes@ =~= csi_seq(final_byte, modified, m));
    bytes
}

/// `ESC [ n ~`, or `ESC [ n ; m ~` when modified.
fn ansi_tilde(n: u8, modified: bool, m: u8) -> (bytes: Vec<u8>)
    ensures
        bytes@ == tilde_seq(n, modified, m),
{
    let mut bytes: Vec<u8> = Vec::new();
    bytes.push(0x1b);
    bytes.push(0x5b);
    push_decimal(&mut bytes, n as u32);
    if modified {
        bytes.push(0x3b);
        push_decimal(&mut bytes, m as u32);
    }
    bytes.push(0x7e);
    assert(bytes@ =~= tilde_seq(n, modified, m));
    bytes
}

/// The final character of F1..=F4.
fn f_final(n: u8) -> (c: char)
    requires
        1 <= n <= 4,
    ensures
        c == f_final_spec(n),
{
    match n {
        1 => 'P',
        2 => 'Q',
        3 => 'R',
        _ => 'S',
    }
}

/// The bytes of function key `n`.
fn f_key_to_bytes(n: u8, modified: bool, m: u8) -> (bytes: Vec<u8>)
    requires
        1 <= n <= 12,
    ensures
        bytes@ == f_key_seq(n, modified, m),
{
    if 1 <= n && n <= 4 {
        let fin: char = f_final(n);
        if modified {
            ansi_csi(fin as u8, true, m)
        } else {
            let mut bytes: Vec<u8> = Vec::new();
            bytes.push(0x1b);
            bytes.push(0x4f);
            bytes.push(fin as u8);
            assert(bytes@ =~= f_key_seq(n, modified, m));
            bytes
        }
    } else {
        let code: u8 = match n {
            5 => 15,
            6 => 17,
            7 => 18,
            8 => 19,
            9 => 20,
            10 => 21,
            11 => 23,
            _ => 24,
        };
        ansi_tilde(code, modified, m)
    }
}

/// The escape sequence of `key` when it is a CSI key.
fn csi_key_to_bytes(key: &KeyEvent) -> (bytes: Option<Vec<u8>>)
    ensures
        match bytes {
            Some(b) => csi_key_spec(*key) == Some(b@),
            None => csi_key_spec(*key) is None,
        },
{
    let m: u8 = modifier_param(key.modifiers);
    let modified: bool = key.modifiers.shift || key.modifiers.alt || key.modifiers.control;
    match key.code {
        KeyCode::Up => Some(ansi_csi(0x41, modified, m)),
        KeyCode::Down => Some(ansi_csi(0x42, modified, m)),
        KeyCode::Right => Some(ansi_csi(0x43, modified, m)),
        KeyCode::Left => Some(ansi_csi(0x44, modified, m)),
        KeyCode::Home => Some(ansi_csi(0x48, modified, m)),
        KeyCode::End => Some(ansi_csi(0x46, modified, m)),
        KeyCode::Insert => Some(ansi_tilde(2, modified, m)),
        KeyCode::Delete => Some(ansi_tilde(3, modified, m)),
        KeyCode::PageUp => Some(ansi_tilde(5, modified, m)),
        KeyCode::PageDown => Some(ansi_tilde(6, modified, m)),
        KeyCode::F(n) => {
            if 1 <= n && n <= 12 {
                Some(f_key_to_bytes(n, modified, m))
            } else {
                None
            }
        },
        KeyCode::BackTab => {
            let mut bytes: Vec<u8> = Vec::new();
            bytes.push(0x1b);
            bytes.push(0x5b);
            bytes.push(0x5a);
            assert(bytes@ =~= seq![esc(), 91u8, 90u8]);
            Some(bytes)
        },
        KeyCode::Tab => {
            if key.modifiers.shift {
                let mut bytes: Vec<u8> = Vec::new();
                bytes.push(0x1b);
                bytes.push(0x5b);
                bytes.push(0x5a);
                assert(bytes@ =~= seq![esc(), 91u8, 90u8]);
                Some(bytes)
            } else {
                None
            }
        },
        _ => None,
    }
}

/// The C0 control byte that Ctrl+`c` produces, if any; upper and lower case
/// give the same byte (`lemma_control_byte_ignores_case`).
pub fn control_char_byte(c: char) -> (b: Option<u8>)
    ensures
        b == control_byte_spec(c),
{
    let l: char = to_ascii_lower(c);
    if 'a' <= l && l <= 'z' {
        Some(((l as u32) - 96) as u8)
    } else if l == '@' || l == ' ' {
        Some(0x00)
    } else if l == '[' {
        Some(0x1b)
    } else if l == '\\' {
        Some(0x1c)
    } else if l == ']' {
        Some(0x1d)
    } else if l == '^' {
        Some(0x1e)
    } else if l == '_' || l == '/' {
        Some(0x1f)
    } else if l == '?' {
        Some(0x7f)
    } else {
        None
    }
}

/// The bytes a terminal sends to the program in it when `key` is pressed:
/// CSI keys get their (modifier-parameterised) escape sequence, Shift+Tab
/// (reported as BackTab or as Tab with Shift) `ESC [ Z`; Enter, Tab,
/// Backspace and Esc their control byte; characters their UTF-8 encoding,
/// or their C0 byte under Control; Alt prefixes a non-empty non-CSI
/// encoding with ESC; every other key gives no bytes.
pub fn key_to_bytes(key: &KeyEvent) -> (bytes: Vec<u8>)
    ensures
        bytes@ == key_bytes_spec(*key),
{
    if let Some(seq) = csi_key_to_bytes(key) {
        return seq;
    }
    let mut bytes: Vec<u8> = match key.code {
        KeyCode::Enter => {
            let mut v: Vec<u8> = Vec::new();
            v.push(0x0d);
            v
        },
        KeyCode::Tab => {
            let mut v: Vec<u8> = Vec::new();
            v.push(0x09);
            v
        },
        KeyCode::Backspace => {
            let mut v: Vec<u8> = Vec::new();
            v.push(0x7f);
            v
        },
        KeyCode::Esc => {
            let mut v: Vec<u8> = Vec::new();
            v.push(0x1b);
            v
        },
        KeyCode::Char(c) => {
            if key.modifiers.control {
                match control_char_byte(c) {
                    Some(b) => {
                        let mut v: Vec<u8> = Vec::new();
                        v.push(b);
                        v
                    },
                    None => utf8_bytes(c),
                }
            } else {
                utf8_bytes(c)
            }
        },
        _ => Vec::new(),
    };
    assert(bytes@ =~= plain_key_spec(*key));
    if key.modifiers.alt && bytes.len() > 0 {
        bytes.insert(0, 0x1b);
        assert(bytes@ =~= seq![esc()] + plain_key_spec(*key));
    }
    bytes
}

/// Alt is sent as an ESC prefix ("meta sends escape"): for a key that is
/// not a CSI key, pressing it with Alt sends ESC followed by what it sends
/// without Alt, or nothing when it sends nothing without Alt.
pub proof fn lemma_alt_sends_escape_prefix(key: KeyEvent)
    requires
        key.modifiers.alt,
        csi_key_spec(key) is None,
    ensures
        ({
            let plain = KeyEvent { code: key.code, modifiers: KeyModifiers { alt: false, ..key.modifiers } };
            &&& csi_key_spec(plain) is None
            &&& key_bytes_spec(key) == if key_bytes_spec(plain).len() > 0 {
                seq![esc()] + key_bytes_spec(plain)
            } else {
                Seq::<u8>::empty()
            }
        }),
{
    let plain = KeyEvent { code: key.code, modifiers: KeyModifiers { alt: false, ..key.modifiers } };
    assert(plain_key_spec(plain) == plain_key_spec(key));
    if plain_key_spec(key).len() == 0 {
        assert(key_bytes_spec(key) =~= Seq::<u8>::empty());
    }
}

/// Control with a letter, in either case, sends the letter's C0 control
/// byte: 1 for `a`, up to 26 for `z`, whatever else is held but Alt.
pub proof fn lemma_control_letters(c: char, modifiers: KeyModifiers)
    requires
        ('a' <= c <= 'z') || ('A' <= c <= 'Z'),
        modifiers.control,
        !modifiers.alt,
    ensures
        key_bytes_spec(KeyEvent { code: KeyCode::Char(c), modifiers }) == seq![
            (if 'a' <= c <= 'z' { c as u32 - 96 } else { c as u32 - 64 }) as u8,
        ],
{
}

/// The modifier parameter of a modified CSI key lies between 2 and 8.
pub proof fn lemma_modifier_param_range(m: KeyModifiers)
    requires
        is_modified(m),
    ensures
        2 <= modifier_param_spec(m) <= 8,
{
}

/// Control ignores case: the control byte of any character is that of its
/// ASCII lower-case form.
pub proof fn lemma_control_byte_ignores_case(c: char)
    ensures
        control_byte_spec(c) == control_byte_spec(ascii_lower(c)),
        ascii_lower(ascii_lower(c)) == ascii_lower(c),
{
    if 'A' <= c && c <= 'Z' {
        let l = ((c as u32) + 32) as char;
        assert((l as u32) == (c as u32) + 32);
        assert('a' <= l && l <= 'z');
    }
}

/// Arrow keys, Home and End are sent as `ESC [ <final>` when no modifier is
/// held, and otherwise as `ESC [ 1 ; <m> <final>`, where the one-digit `m`
/// is 1, plus 1 for Shift, 2 for Alt and 4 for Control: Ctrl+Left sends
/// `ESC [ 1 ; 5 D`, Shift+Up `ESC [ 1 ; 2 A`.
pub proof fn lemma_cursor_keys_carry_modifiers(key: KeyEvent)
    requires
        key.code is Up || key.code is Down || key.code is Right || key.code is Left
            || key.code is Home || key.code is End,
    ensures
        ({
            let final_byte: u8 = match key.code {
                KeyCode::Up => 0x41u8,
                KeyCode::Down => 0x42u8,
                KeyCode::Right => 0x43u8,
                KeyCode::Left => 0x44u8,
                KeyCode::Home => 0x48u8,
                _ => 0x46u8,
            };
            let m: int = 1 + (if key.modifiers.shift { 1int } else { 0 }) + (if key.modifiers.alt {
                2int
            } else {
                0
            }) + (if key.modifiers.control { 4int } else { 0 });
            key_bytes_spec(key) == if key.modifiers.shift || key.modifiers.alt || key.modifiers.control {
                seq![0x1bu8, 0x5bu8, 0x31u8, 0x3bu8, (0x30 + m) as u8, final_byte]
            } else {
                seq![0x1bu8, 0x5bu8, final_byte]
            }
        }),
{
    let m = modifier_param_spec(key.modifiers);
    assert(decimal(m as nat) == seq![(48 + m) as u8]);
    assert(key_bytes_spec(key) == csi_key_spec(key).unwrap());
    if is_modified(key.modifiers) {
        assert(csi_seq(65u8, true, m) =~= seq![0x1bu8, 0x5bu8, 0x31u8, 0x3bu8, (48 + m) as u8, 65u8]);
        assert(csi_seq(66u8, true, m) =~= seq![0x1bu8, 0x5bu8, 0x31u8, 0x3bu8, (48 + m) as u8, 66u8]);
        assert(csi_seq(67u8, true, m) =~= seq![0x1bu8, 0x5bu8, 0x31u8, 0x3bu8, (48 + m) as u8, 67u8]);
        assert(csi_seq(68u8, true, m) =~= seq![0x1bu8, 0x5bu8, 0x31u8, 0x3bu8, (48 + m) as u8, 68u8]);
        assert(csi_seq(72u8, true, m) =~= seq![0x1bu8, 0x5bu8, 0x31u8, 0x3bu8, (48 + m) as u8, 72u8]);
        assert(csi_seq(70u8, true, m) =~= seq![0x1bu8, 0x5bu8, 0x31u8, 0x3bu8, (48 + m) as u8, 70u8]);
    }
}

/// Insert, Delete, PageUp and PageDown are sent as `ESC [ <n> ~` when no
/// modifier is held, and otherwise as `ESC [ <n> ; <m> ~`, with `n` 2, 3, 5
/// and 6 and `m` as for the arrow keys.
pub proof fn lemma_tilde_keys_carry_modifiers(key: KeyEvent)
    requires
        key.code is Insert || key.code is Delete || key.code is PageUp || key.code is PageDown,
    ensures
        ({
            let n: u8 = match key.code {
                KeyCode::Insert => 0x32u8,
                KeyCode::Delete => 0x33u8,
                KeyCode::PageUp => 0x35u8,
                _ => 0x36u8,
            };
            let m: int = 1 + (if key.modifiers.shift { 1int } else { 0 }) + (if key.modifiers.alt {
                2int
            } else {
                0
            }) + (if key.modifiers.control { 4int } else { 0 });
            key_bytes_spec(key) == if key.modifiers.shift || key.modifiers.alt || key.modifiers.control {
                seq![0x1bu8, 0x5bu8, n, 0x3bu8, (0x30 + m) as u8, 0x7eu8]
            } else {
                seq![0x1bu8, 0x5bu8, n, 0x7eu8]
            }
        }),
{
    let m = modifier_param_spec(key.modifiers);
    let modified = is_modified(key.modifiers);
    assert(decimal(m as nat) == seq![(48 + m) as u8]);
    assert(decimal(2) == seq![0x32u8]);
    assert(decimal(3) == seq![0x33u8]);
    assert(decimal(5) == seq![0x35u8]);
    assert(decimal(6) == seq![0x36u8]);
    assert(key_bytes_spec(key) == csi_key_spec(key).unwrap());
    if modified {
        assert(tilde_seq(2, true, m) =~= seq![0x1bu8, 0x5bu8, 0x32u8, 0x3bu8, (48 + m) as u8, 0x7eu8]);
        assert(tilde_seq(3, true, m) =~= seq![0x1bu8, 0x5bu8, 0x33u8, 0x3bu8, (48 + m) as u8, 0x7eu8]);
        assert(tilde_seq(5, true, m) =~= seq![0x1bu8, 0x5bu8, 0x35u8, 0x3bu8, (48 + m) as u8, 0x7eu8]);
        assert(tilde_seq(6, true, m) =~= seq![0x1bu8, 0x5bu8, 0x36u8, 0x3bu8, (48 + m) as u8, 0x7eu8]);
    } else {
        assert(tilde_seq(2, false, m) =~= seq![0x1bu8, 0x5bu8, 0x32u8, 0x7eu8]);
        assert(tilde_seq(3, false, m) =~= seq![0x1bu8, 0x5bu8, 0x33u8, 0x7eu8]);
        assert(tilde_seq(5, false, m) =~= seq![0x1bu8, 0x5bu8, 0x35u8, 0x7eu8]);
        assert(tilde_seq(6, false, m) =~= seq![0x1bu8, 0x5bu8, 0x36u8, 0x7eu8]);
    }
}

} // verus!
