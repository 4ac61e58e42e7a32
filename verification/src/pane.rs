//! The decisions a pane makes about its terminal: the window title it
//! shows, the replies it owes to terminal queries, when to resize, where to
//! scroll and where to put the cursor.

use vstd::prelude::*;
use vstd::string::{StrSliceExecFns, StringExecFns};
use vstd::utf8::{decode_utf8, encode_utf8, encode_utf8_decode_utf8, valid_utf8};
use crate::layout::{Margin, Rect, inner_rect};
use crate::text::{decimal, push_decimal};

verus! {

/// `std::str::from_utf8`: the bytes read as a string slice when they are
/// valid UTF-8, and no string otherwise. The contract states that, as the
/// standard library documents it: the slice's bytes are the input bytes.
#[verifier::external_body]
fn str_from_utf8(bytes: &[u8]) -> (s: Option<&str>)
    ensures
        s is Some <==> valid_utf8(bytes@),
        s matches Some(t) ==> encode_utf8(t@) == bytes@,
{
    match std::str::from_utf8(bytes) {
        Ok(s) => Some(s),
        Err(_) => None,
    }
}

/// The latest window title that a pane's program set, and whether it changed
/// since it was last taken.
pub struct SharedTitle {
    title: Option<String>,
    changed: bool,
}

/// The title as characters, if one was set, and the changed flag.
pub struct TitleView {
    pub title: Option<Seq<char>>,
    pub changed: bool,
}

impl View for SharedTitle {
    type V = TitleView;

    closed spec fn view(&self) -> TitleView {
        TitleView {
            title: match self.title {
                Some(t) => Some(t@),
                None => None,
            },
            changed: self.changed,
        }
    }
}

/// A string option seen as characters.
pub open spec fn chars_of(o: Option<String>) -> Option<Seq<char>> {
    match o {
        Some(t) => Some(t@),
        None => None,
    }
}

/// The state after a title is set.
pub open spec fn after_set(v: TitleView, title: Seq<char>) -> TitleView {
    TitleView { title: Some(title), changed: true }
}

/// The state after the title is taken.
pub open spec fn after_take(v: TitleView) -> TitleView {
    TitleView { title: v.title, changed: false }
}

/// What a take returns: the title when it changed since the last take.
pub open spec fn taken_title(v: TitleView) -> Option<Seq<char>> {
    if v.changed {
        v.title
    } else {
        None
    }
}

impl SharedTitle {
    /// No title yet, nothing changed.
    pub fn new() -> (s: SharedTitle)
        ensures
            s@ == (TitleView { title: None, changed: false }),
    {
        SharedTitle { title: None, changed: false }
    }

    /// Records `title` as the latest title and marks it changed.
    pub fn set(&mut self, title: String)
        ensures
            final(self)@ == after_set(old(self)@, title@),
    {
        self.title = Some(title);
        self.changed = true;
    }

    /// Records `title` when it is valid UTF-8; otherwise leaves everything
    /// as it was.
    pub fn set_from_bytes(&mut self, title: &[u8])
        ensures
            final(self)@ == if valid_utf8(title@) {
                after_set(old(self)@, decode_utf8(title@))
            } else {
                old(self)@
            },
    {
        if let Some(s) = str_from_utf8(title) {
            proof {
                encode_utf8_decode_utf8(s@);
            }
            self.set(s.to_owned());
        }
    }

    /// The latest title, once per change: when the title changed since the
    /// last take, clears the flag and returns the title; otherwise `None`.
    pub fn take_if_changed(&mut self) -> (t: Option<String>)
        ensures
            final(self)@ == after_take(old(self)@),
            chars_of(t) == taken_title(old(self)@),
    {
        if self.changed {
            self.changed = false;
            match &self.title {
                Some(s) => Some(s.clone()),
                None => None,
            }
        } else {
            None
        }
    }
}

/// Titles set before a take are reported once, as the latest of them: the
/// take returns the last title set and a second take returns nothing.
pub proof fn lemma_latest_title_once(v: TitleView, first: Seq<char>, second: Seq<char>)
    ensures
        taken_title(after_set(after_set(v, first), second)) == Some(second),
        taken_title(after_take(after_set(after_set(v, first), second))) is None,
        taken_title(after_set(v, first)) == Some(first),
{
}

/// Whether a query needs the cursor position in its reply.
pub open spec fn wants_cursor(i1: Option<u8>, c: char, first: Option<u16>) -> bool {
    c == 'n' && first == Some(6u16) && (i1 is None || i1 == Some(0x3fu8))
}

/// `ESC [ row+1 ; col+1 R`: a cursor position report, 1-based.
pub open spec fn cursor_report(row: u16, col: u16) -> Seq<u8> {
    seq![0x1bu8, 0x5bu8] + decimal((row + 1) as nat) + seq![0x3bu8] + decimal((col + 1) as nat) + seq![0x52u8]
}

/// The reply a terminal owes to a control sequence it does not otherwise
/// handle: primary device attributes (`CSI c`) answer a VT220, secondary
/// (`CSI > c`) a generic terminal, a status report (`CSI 5 n`) "OK", and a
/// cursor position request (`CSI 6 n` or `CSI ? 6 n`) the 1-based cursor
/// position; anything else is not answered.
pub open spec fn csi_reply_spec(i1: Option<u8>, c: char, first: Option<u16>, row: u16, col: u16) -> Option<Seq<u8>> {
    if i1 is None && c == 'c' {
        Some(seq![0x1bu8, 0x5b, 0x3f, 0x36, 0x32, 0x3b, 0x32, 0x32, 0x63])
    } else if i1 == Some(0x3eu8) && c == 'c' {
        Some(seq![0x1bu8, 0x5b, 0x3e, 0x30, 0x3b, 0x31, 0x3b, 0x30, 0x63])
    } else if i1 is None && c == 'n' {
        if first == Some(5u16) {
            Some(seq![0x1bu8, 0x5b, 0x30, 0x6e])
        } else if first == Some(6u16) {
            Some(cursor_report(row, col))
        } else {
            None
        }
    } else if i1 == Some(0x3fu8) && c == 'n' {
        if first == Some(6u16) {
            Some(cursor_report(row, col))
        } else {
            None
        }
    } else {
        None
    }
}

fn bytes_of(b: &[u8]) -> (v: Vec<u8>)
    ensures
        v@ == b@,
{
    let mut v: Vec<u8> = Vec::new();
    let mut i: usize = 0;
    while i < b.len()
        invariant
            i <= b@.len(),
            v@ == b@.subrange(0, i as int),
        decreases b@.len() - i,
    {
        v.push(b[i]);
        i = i + 1;
        assert(v@ =~= b@.subrange(0, i as int));
    }
    assert(b@.subrange(0, b@.len() as int) =~= b@);
    v
}

fn cursor_report_bytes(row: u16, col: u16) -> (v: Vec<u8>)
    requires
        row < u16::MAX,
        col < u16::MAX,
    ensures
        v@ == cursor_report(row, col),
{
    let mut v: Vec<u8> = Vec::new();
    v.push(0x1b);
    v.push(0x5b);
    push_decimal(&mut v, (row + 1) as u32);
    v.push(0x3b);
    push_decimal(&mut v, (col + 1) as u32);
    v.push(0x52);
    assert(v@ =~= cursor_report(row, col));
    v
}

/// The reply owed to the control sequence with first intermediate byte `i1`,
/// final character `c` and first parameter `first`, when the cursor is at
/// `(row, col)` (0-based).
pub fn csi_reply(i1: Option<u8>, c: char, first: Option<u16>, row: u16, col: u16) -> (reply: Option<Vec<u8>>)
    requires
        wants_cursor(i1, c, first) ==> row < u16::MAX && col < u16::MAX,
    ensures
        match reply {
            Some(r) => csi_reply_spec(i1, c, first, row, col) == Some(r@),
            None => csi_reply_spec(i1, c, first, row, col) is None,
        },
{
    let none_i1: bool = i1.is_none();
    if none_i1 && c == 'c' {
        let v = bytes_of(&[0x1b, 0x5b, 0x3f, 0x36, 0x32, 0x3b, 0x32, 0x32, 0x63]);
        assert(v@ =~= seq![0x1bu8, 0x5b, 0x3f, 0x36, 0x32, 0x3b, 0x32, 0x32, 0x63]);
        Some(v)
    } else if i1 == Some(0x3eu8) && c == 'c' {
        let v = bytes_of(&[0x1b, 0x5b, 0x3e, 0x30, 0x3b, 0x31, 0x3b, 0x30, 0x63]);
        assert(v@ =~= seq![0x1bu8, 0x5b, 0x3e, 0x30, 0x3b, 0x31, 0x3b, 0x30, 0x63]);
        Some(v)
    } else if none_i1 && c == 'n' {
        if first == Some(5u16) {
            let v = bytes_of(&[0x1b, 0x5b, 0x30, 0x6e]);
            assert(v@ =~= seq![0x1bu8, 0x5b, 0x30, 0x6e]);
            Some(v)
        } else if first == Some(6u16) {
            Some(cursor_report_bytes(row, col))
        } else {
            None
        }
    } else if i1 == Some(0x3fu8) && c == 'n' {
        if first == Some(6u16) {
            Some(cursor_report_bytes(row, col))
        } else {
            None
        }
    } else {
        None
    }
}

/// The marker put in front of the title of a pane whose program exited.
pub open spec fn exited_marker() -> Seq<char> {
    seq!['[', 'e', 'x', 'i', 't', 'e', 'd', ']']
}

/// `t` starts with the exited marker.
pub open spec fn has_exited_marker(t: Seq<char>) -> bool {
    t.len() >= 8 && t.subrange(0, 8) == exited_marker()
}

fn starts_with_exited(t: &str) -> (b: bool)
    ensures
        b == has_exited_marker(t@),
{
    let len: usize = t.unicode_len();
    if len < 8 {
        return false;
    }
    let marker: [char; 8] = ['[', 'e', 'x', 'i', 't', 'e', 'd', ']'];
    assert(marker@ =~= exited_marker());
    let mut i: usize = 0;
    while i < 8
        invariant
            i <= 8,
            len == t@.len(),
            len >= 8,
            marker@ == exited_marker(),
            forall|j: int| 0 <= j < i ==> t@[j] == exited_marker()[j],
        decreases 8 - i,
    {
        if t.get_char(i) != marker[i] {
            assert(t@.subrange(0, 8)[i as int] != exited_marker()[i as int]);
            return false;
        }
        i = i + 1;
    }
    assert(t@.subrange(0, 8) =~= exited_marker());
    true
}

/// What a pane's title becomes when the program's latest title is `taken`
/// (if it set one) and `exited` tells whether the program has exited: with
/// no new title it stays; otherwise it becomes the new title, except that
/// an exited pane whose title lacks the marker gets `[exited] ` in front of
/// its current title instead.
pub open spec fn synced_title_spec(current: Seq<char>, taken: Option<Seq<char>>, exited: bool) -> Seq<char> {
    match taken {
        None => current,
        Some(t) => if exited && !has_exited_marker(current) {
            exited_marker() + seq![' '] + current
        } else {
            t
        },
    }
}

/// Brings a pane's title up to date with the title its program set; returns
/// whether there was a new title.
pub fn sync_title(title: &mut String, taken: Option<String>, exited: bool) -> (changed: bool)
    ensures
        changed == taken is Some,
        final(title)@ == synced_title_spec(old(title)@, match taken {
            Some(t) => Some(t@),
            None => None,
        }, exited),
{
    if let Some(t) = taken {
        if exited && !starts_with_exited(title.as_str()) {
            let mut marked = String::from_str("[exited] ");
            proof {
                reveal_strlit("[exited] ");
            }
            marked.append(title.as_str());
            assert(marked@ =~= exited_marker() + seq![' '] + old(title)@);
            *title = marked;
        } else {
            *title = t;
        }
        return true;
    }
    false
}

/// The size a pane's terminal takes when asked for `rows` × `cols` while it
/// is `current`: each at least 1, and no resize when that is the current size.
pub open spec fn resize_target_spec(current: (u16, u16), rows: u16, cols: u16) -> Option<(u16, u16)> {
    let r: u16 = if rows >= 1 { rows } else { 1 };
    let c: u16 = if cols >= 1 { cols } else { 1 };
    if r == current.0 && c == current.1 {
        None
    } else {
        Some((r, c))
    }
}

/// The new size of a pane's terminal, or `None` when it keeps its size.
pub fn resize_target(current: (u16, u16), rows: u16, cols: u16) -> (target: Option<(u16, u16)>)
    ensures
        target == resize_target_spec(current, rows, cols),
{
    let r: u16 = if rows >= 1 { rows } else { 1 };
    let c: u16 = if cols >= 1 { cols } else { 1 };
    if r == current.0 && c == current.1 {
        None
    } else {
        Some((r, c))
    }
}

/// The scrollback offset `lines` further up than `current`, saturating at
/// `usize::MAX`.
pub open spec fn scroll_up_spec(current: usize, lines: usize) -> usize {
    if current + lines <= usize::MAX {
        (current + lines) as usize
    } else {
        usize::MAX
    }
}

/// The scrollback offset `lines` further down than `current`, stopping at 0
/// (the live screen).
pub open spec fn scroll_down_spec(current: usize, lines: usize) -> usize {
    if current >= lines {
        (current - lines) as usize
    } else {
        0
    }
}

/// The scrollback offset after scrolling up `lines` from `current`.
pub fn scroll_up_offset(current: usize, lines: usize) -> (offset: usize)
    ensures
        offset == scroll_up_spec(current, lines),
{
    current.saturating_add(lines)
}

/// The scrollback offset after scrolling down `lines` from `current`.
pub fn scroll_down_offset(current: usize, lines: usize) -> (offset: usize)
    ensures
        offset == scroll_down_spec(current, lines),
{
    current.saturating_sub(lines)
}

/// Scrolling up and then down by the same number of lines comes back to the
/// same offset when the way up did not saturate; scrolling down never goes
/// below the live screen and never moves up.
pub proof fn lemma_scroll_round_trip(current: usize, lines: usize)
    ensures
        current + lines <= usize::MAX ==> scroll_down_spec(scroll_up_spec(current, lines), lines) == current,
        current >= lines ==> scroll_up_spec(scroll_down_spec(current, lines), lines) == current,
        scroll_down_spec(current, lines) <= current,
        scroll_up_spec(current, lines) >= current,
{
}

/// What of a pane's terminal is shown in its rectangle.
pub struct Viewport {
    /// Screen rows drawn.
    pub rows: usize,
    /// Where the cursor goes, if it is shown.
    pub cursor: Option<(u16, u16)>,
}

/// The border of a pane takes one cell on each side.
pub open spec fn border() -> Margin {
    Margin { horizontal: 1, vertical: 1 }
}

/// The cursor cell of the active pane drawn in `area`, when the cursor at
/// `(row, col)` of a screen scrolled back `scrollback` lines is inside the
/// pane: its row shifted by the scrollback, its column kept left of the
/// right border.
pub open spec fn cursor_cell_spec(area: Rect, row: u16, col: u16, scrollback: usize) -> Option<(u16, u16)> {
    let inner = inner_rect(area, border());
    let view_row = row + scrollback;
    if view_row < inner.height {
        let right = if inner.x + inner.width <= u16::MAX { inner.x + inner.width } else { u16::MAX as int };
        let last = if right >= 1 { right - 1 } else { 0 };
        let x = if inner.x + col <= last { inner.x + col } else { last };
        Some((x as u16, (inner.y + view_row) as u16))
    } else {
        None
    }
}

/// Drawing a pane's screen of `screen_rows` rows in `area`: as many rows as
/// fit inside the border, and for the active pane the cursor cell.
pub fn pane_viewport(area: Rect, screen_rows: u16, row: u16, col: u16, scrollback: usize, is_active: bool) -> (v: Viewport)
    requires
        is_active ==> row + scrollback <= usize::MAX,
        is_active && row + scrollback < inner_rect(area, border()).height ==> {
            &&& inner_rect(area, border()).x + col <= u16::MAX
            &&& inner_rect(area, border()).y + row + scrollback <= u16::MAX
        },
    ensures
        v.rows == if (screen_rows as int) <= inner_rect(area, border()).height {
            screen_rows as int
        } else {
            inner_rect(area, border()).height as int
        },
        v.cursor == if is_active { cursor_cell_spec(area, row, col, scrollback) } else { None },
{
    let inner: Rect = area.inner(Margin { horizontal: 1, vertical: 1 });
    let rows: usize = if (screen_rows as usize) <= (inner.height as usize) {
        screen_rows as usize
    } else {
        inner.height as usize
    };
    let mut cursor: Option<(u16, u16)> = None;
    if is_active {
        let view_row: usize = row as usize + scrollback;
        if view_row < inner.height as usize {
            let last: u16 = inner.right().saturating_sub(1);
            let wanted: u16 = inner.x + col;
            let x: u16 = if wanted <= last { wanted } else { last };
            cursor = Some((x, inner.y + view_row as u16));
        }
    }
    Viewport { rows, cursor }
}

/// A pane's terminal is resized exactly when the requested size, each side
/// taken at least 1, differs from its current size in rows or in columns,
/// and then to that size; once resized, the same request asks for nothing.
pub proof fn lemma_resize_when_size_differs(current: (u16, u16), rows: u16, cols: u16)
    ensures
        ({
            let want_rows: int = if rows == 0 { 1 } else { rows as int };
            let want_cols: int = if cols == 0 { 1 } else { cols as int };
            &&& (resize_target_spec(current, rows, cols) is None) <==> (want_rows == current.0
                && want_cols == current.1)
            &&& resize_target_spec(current, rows, cols) matches Some((r, c)) ==> r == want_rows
                && c == want_cols
            &&& resize_target_spec(current, rows, cols) matches Some(next) ==> resize_target_spec(
                next,
                rows,
                cols,
            ) is None
        }),
{
}

} // verus!
