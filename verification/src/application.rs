//! The multiplexer's state machine: tabs, the active tab, and what each
//! command does to them. Work that needs the outside world (spawning a
//! shell, writing to a terminal, scrolling its screen) is returned as an
//! [`Action`] for the caller to carry out.

use vstd::prelude::*;
use crate::command::Command;
use crate::keys::{key_bytes_spec, key_to_bytes};
use crate::pane::{scroll_down_offset, scroll_down_spec, scroll_up_offset, scroll_up_spec};
use crate::tabs::{Tab, next_grid};

verus! {

/// Outside work that a command asks for, on the active tab or pane.
pub enum Action {
    /// Nothing more to do.
    Nothing,
    /// Spawn a pane in a new tab and hand it to [`App::open_tab`].
    OpenTab,
    /// Spawn a pane and hand it to [`App::add_pane`].
    OpenPane,
    /// Scroll the active pane to the oldest line of its scrollback.
    ScrollToTop,
    /// Scroll the active pane back to its live screen.
    ScrollToBottom,
    /// Scroll the active pane up (into the scrollback) by the number of lines
    /// it shows.
    ScrollPageUp,
    /// Scroll the active pane down by the number of lines it shows.
    ScrollPageDown,
    /// Write these bytes to the active pane's terminal.
    Write(Vec<u8>),
}

/// The index after `i` among `len`, wrapping to 0 after the last.
pub open spec fn next_index(i: int, len: int) -> int {
    if i == len - 1 {
        0
    } else {
        i + 1
    }
}

/// The index before `i` among `len`, wrapping to the last before 0.
pub open spec fn prev_index(i: int, len: int) -> int {
    if i == 0 {
        len - 1
    } else {
        i - 1
    }
}

/// The active index after the active tab `i` of `len` is removed: the tab
/// before it, or the last one left when it was the first, and 0 when none is
/// left.
pub open spec fn removed_tab_index(i: int, len: int) -> int {
    if i == 0 {
        if len >= 2 {
            len - 2
        } else {
            0
        }
    } else {
        i - 1
    }
}

/// When the active tab `i` of `tabs` is removed and another tab is left, the
/// new active index points into what is left, at the tab that came just
/// before the removed one, or at the last tab when the first was removed.
pub proof fn lemma_removed_tab_neighbour<T>(tabs: Seq<T>, i: int)
    requires
        0 <= i < tabs.len(),
        tabs.len() >= 2,
    ensures
        ({
            let rest = tabs.remove(i);
            let j = removed_tab_index(i, tabs.len() as int);
            &&& 0 <= j < rest.len()
            &&& i > 0 ==> rest[j] == tabs[i - 1]
            &&& i == 0 ==> rest[j] == tabs[tabs.len() - 1]
        }),
{
}

/// Stepping forward then back, or back then forward, returns to the same
/// index, and both steps stay among the `len` indices.
pub proof fn lemma_index_cycle(i: int, len: int)
    requires
        0 <= i < len,
    ensures
        0 <= next_index(i, len) < len,
        0 <= prev_index(i, len) < len,
        prev_index(next_index(i, len), len) == i,
        next_index(prev_index(i, len), len) == i,
{
}

/// The scrollback offset that a scroll action moves the active pane to,
/// from the offset `current`, when the pane shows `visible` lines: one page
/// up or down, the top (the largest offset, which the terminal limits to the
/// scrollback it holds) or the live screen. Other actions scroll nothing.
pub open spec fn scroll_target_spec(action: Action, current: usize, visible: usize) -> Option<usize> {
    match action {
        Action::ScrollToTop => Some(usize::MAX),
        Action::ScrollToBottom => Some(0),
        Action::ScrollPageUp => Some(scroll_up_spec(current, visible)),
        Action::ScrollPageDown => Some(scroll_down_spec(current, visible)),
        _ => None,
    }
}

/// The scrollback offset that `action` moves a pane to, from `current`,
/// when the pane shows `visible` lines; `None` when it is no scroll.
pub fn scroll_target(action: &Action, current: usize, visible: usize) -> (target: Option<usize>)
    ensures
        target == scroll_target_spec(*action, current, visible),
{
    match action {
        Action::ScrollToTop => Some(usize::MAX),
        Action::ScrollToBottom => Some(0),
        Action::ScrollPageUp => Some(scroll_up_offset(current, visible)),
        Action::ScrollPageDown => Some(scroll_down_offset(current, visible)),
        _ => None,
    }
}

/// A page up followed by a page down returns to the same offset when the
/// page up did not saturate, and a page down followed by a page up does too
/// when the page down did not stop at the live screen.
pub proof fn lemma_page_round_trip(current: usize, visible: usize)
    ensures
        current + visible <= usize::MAX ==> scroll_target_spec(
            Action::ScrollPageDown,
            scroll_target_spec(Action::ScrollPageUp, current, visible).unwrap(),
            visible,
        ) == Some(current),
        current >= visible ==> scroll_target_spec(
            Action::ScrollPageUp,
            scroll_target_spec(Action::ScrollPageDown, current, visible).unwrap(),
            visible,
        ) == Some(current),
{
}

/// The multiplexer: its tabs, whether it keeps running, and the active tab.
pub struct App<P> {
    pub tabs: Vec<Tab<P>>,
    pub running: bool,
    pub active_tab: usize,
}

/// The rows and columns of the first pane of a new tab in a terminal of
/// `term_cols` × `term_rows`: two rows and four columns less, after taking
/// each at least 1, and never below 0.
pub open spec fn initial_pane_size_spec(term_cols: u16, term_rows: u16) -> (u16, u16) {
    let rows: int = if term_rows >= 1 { term_rows as int } else { 1 };
    let cols: int = if term_cols >= 1 { term_cols as int } else { 1 };
    ((if rows >= 2 { rows - 2 } else { 0 }) as u16, (if cols >= 4 { cols - 4 } else { 0 }) as u16)
}

/// The size of the first pane of a new tab, as rows and columns.
pub fn initial_pane_size(term_cols: u16, term_rows: u16) -> (size: (u16, u16))
    ensures
        size == initial_pane_size_spec(term_cols, term_rows),
{
    let rows: u16 = if term_rows >= 1 { term_rows } else { 1 };
    let cols: u16 = if term_cols >= 1 { term_cols } else { 1 };
    (rows.saturating_sub(2), cols.saturating_sub(4))
}

/// The size of a pane added to a tab that holds `pane_count` panes, when the
/// active pane is `rows` × `cols`: the rows shared among the panes after the
/// new one joins, and at least two rows and two columns.
pub open spec fn new_pane_size_spec(rows: u16, cols: u16, pane_count: usize) -> (u16, u16) {
    let share = rows / ((pane_count as u16) + 1) as u16;
    ((if share >= 2 { share } else { 2 }) as u16, (if cols >= 2 { cols } else { 2 }) as u16)
}

/// The rows and columns of a pane added to a tab of `pane_count` panes.
pub fn new_pane_size(rows: u16, cols: u16, pane_count: usize) -> (size: (u16, u16))
    requires
        (pane_count as u16) < u16::MAX,
    ensures
        size == new_pane_size_spec(rows, cols, pane_count),
{
    let share: u16 = rows / (pane_count as u16 + 1);
    (if share >= 2 { share } else { 2 }, if cols >= 2 { cols } else { 2 })
}

impl<P> App<P> {
    /// At least one tab, the active index points at one, and every tab holds
    /// at least one pane with a valid active index.
    pub open spec fn wf(&self) -> bool {
        &&& self.tabs.len() >= 1
        &&& self.active_tab < self.tabs.len()
        &&& forall|i: int| 0 <= i < self.tabs.len() ==> (#[trigger] self.tabs@[i]).wf()
    }

    /// The active tab.
    pub open spec fn current(&self) -> Tab<P> {
        self.tabs@[self.active_tab as int]
    }

    /// A running multiplexer with `first` as its only tab.
    pub fn new(first: Tab<P>) -> (app: App<P>)
        requires
            first.wf(),
        ensures
            app.wf(),
            app.tabs@ == seq![first],
            app.active_tab == 0,
            app.running,
    {
        let mut tabs: Vec<Tab<P>> = Vec::new();
        tabs.push(first);
        assert(tabs@ =~= seq![first]);
        App { tabs, running: true, active_tab: 0 }
    }

    /// The active tab.
    pub fn get_tab(&self) -> (tab: &Tab<P>)
        requires
            self.wf(),
        ensures
            *tab == self.current(),
    {
        &self.tabs[self.active_tab]
    }

    /// The active pane of the active tab.
    pub fn active_pane(&self) -> (pane: &P)
        requires
            self.wf(),
        ensures
            *pane == self.current().panes@[self.current().active as int],
    {
        let tab = &self.tabs[self.active_tab];
        assert(tab.wf());
        &tab.panes[tab.active]
    }

    /// The active pane of the active tab, to be changed in place; nothing
    /// else changes.
    pub fn active_pane_mut(&mut self) -> (pane: &mut P)
        requires
            old(self).wf(),
        ensures
            *pane == old(self).current().panes@[old(self).current().active as int],
            final(self).wf(),
            final(self).others_kept(&*old(self)),
            final(self).current().active == old(self).current().active,
            final(self).current().grid == old(self).current().grid,
            final(self).current().panes@ == old(self).current().panes@.update(
                old(self).current().active as int,
                *final(pane),
            ),
    {
        let at: usize = self.active_tab;
        let tab = &mut self.tabs[at];
        let active: usize = tab.active;
        &mut tab.panes[active]
    }

    /// Appends `tab` and makes it the active tab.
    pub fn open_tab(&mut self, tab: Tab<P>)
        requires
            old(self).wf(),
            tab.wf(),
        ensures
            final(self).wf(),
            final(self).tabs@ == old(self).tabs@.push(tab),
            final(self).active_tab == old(self).tabs.len(),
            final(self).running == old(self).running,
    {
        self.tabs.push(tab);
        self.active_tab = self.tabs.len() - 1;
        assert forall|i: int| 0 <= i < self.tabs.len() implies (#[trigger] self.tabs@[i]).wf() by {
            if i < old(self).tabs.len() {
                assert(self.tabs@[i] == old(self).tabs@[i]);
            }
        }
    }

    /// Appends `pane` to the active tab and makes it the active pane.
    pub fn add_pane(&mut self, pane: P)
        requires
            old(self).wf(),
        ensures
            final(self).wf(),
            final(self).active_tab == old(self).active_tab,
            final(self).running == old(self).running,
            final(self).tabs.len() == old(self).tabs.len(),
            forall|i: int|
                0 <= i < old(self).tabs.len() && i != old(self).active_tab ==> #[trigger] final(self).tabs@[i]
                    == old(self).tabs@[i],
            final(self).current().panes@ == old(self).current().panes@.push(pane),
            final(self).current().active == old(self).current().panes.len(),
            final(self).current().grid == old(self).current().grid,
    {
        let at: usize = self.active_tab;
        let tab = &mut self.tabs[at];
        tab.panes.push(pane);
        tab.active = tab.panes.len() - 1;
    }

    /// Every tab but the active one is as it was in `before`, and the active
    /// tab, the tab count and `running` are unchanged.
    pub open spec fn others_kept(&self, before: &App<P>) -> bool {
        &&& self.tabs.len() == before.tabs.len()
        &&& self.active_tab == before.active_tab
        &&& self.running == before.running
        &&& forall|i: int|
            0 <= i < before.tabs.len() && i != before.active_tab ==> #[trigger] self.tabs@[i]
                == before.tabs@[i]
    }

    /// The whole state is as it was in `before`.
    pub open spec fn unchanged(&self, before: &App<P>) -> bool {
        &&& self.tabs@ == before.tabs@
        &&& self.active_tab == before.active_tab
        &&& self.running == before.running
    }

    /// Carries out `command`: tab and pane selection, layout cycling and pane
    /// deletion happen here; spawning, scrolling and writing to a pane are
    /// returned as the action for the caller. Deleting the last pane of a tab
    /// removes the tab; once no tab is left the multiplexer stops running.
    pub fn execute(&mut self, command: Command) -> (action: Action)
        requires
            old(self).wf(),
        ensures
            command != Command::DeletePane ==> final(self).wf(),
            final(self).tabs.len() >= 1 ==> final(self).wf(),
            final(self).tabs.len() == 0 ==> !final(self).running,
            match command {
                Command::Quit => {
                    &&& !final(self).running
                    &&& final(self).tabs@ == old(self).tabs@
                    &&& final(self).active_tab == old(self).active_tab
                    &&& action is Nothing
                },
                Command::NewTab => final(self).unchanged(&*old(self)) && action is OpenTab,
                Command::NextTab => {
                    &&& final(self).tabs@ == old(self).tabs@
                    &&& final(self).running == old(self).running
                    &&& final(self).active_tab == next_index(old(self).active_tab as int, old(self).tabs.len() as int)
                    &&& action is Nothing
                },
                Command::PrevTab => {
                    &&& final(self).tabs@ == old(self).tabs@
                    &&& final(self).running == old(self).running
                    &&& final(self).active_tab == prev_index(old(self).active_tab as int, old(self).tabs.len() as int)
                    &&& action is Nothing
                },
                Command::CycleGrid => {
                    &&& final(self).others_kept(&*old(self))
                    &&& final(self).current().panes@ == old(self).current().panes@
                    &&& final(self).current().active == old(self).current().active
                    &&& final(self).current().grid == next_grid(old(self).current().grid)
                    &&& action is Nothing
                },
                Command::DeletePane => {
                    &&& action is Nothing
                    &&& if old(self).current().panes.len() >= 2 {
                        &&& final(self).others_kept(&*old(self))
                        &&& final(self).current().panes@ == old(self).current().panes@.remove(
                            old(self).current().active as int,
                        )
                        &&& final(self).current().active == if old(self).current().active
                            == old(self).current().panes.len() - 1 {
                            old(self).current().active - 1
                        } else {
                            old(self).current().active as int
                        }
                        &&& final(self).current().grid == old(self).current().grid
                    } else {
                        &&& final(self).tabs@ == old(self).tabs@.remove(old(self).active_tab as int)
                        &&& final(self).active_tab == removed_tab_index(
                            old(self).active_tab as int,
                            old(self).tabs.len() as int,
                        )
                        &&& final(self).running == (old(self).running && old(self).tabs.len() >= 2)
                    }
                },
                Command::NextPane => {
                    &&& final(self).others_kept(&*old(self))
                    &&& final(self).current().panes@ == old(self).current().panes@
                    &&& final(self).current().active == next_index(
                        old(self).current().active as int,
                        old(self).current().panes.len() as int,
                    )
                    &&& final(self).current().grid == old(self).current().grid
                    &&& action is Nothing
                },
                Command::NewPane => final(self).unchanged(&*old(self)) && action is OpenPane,
                Command::ScrollToTop => final(self).unchanged(&*old(self)) && action is ScrollToTop,
                Command::ScrollToBottom => final(self).unchanged(&*old(self)) && action is ScrollToBottom,
                Command::ScrollPageUp => final(self).unchanged(&*old(self)) && action is ScrollPageUp,
                Command::ScrollPageDown => final(self).unchanged(&*old(self)) && action is ScrollPageDown,
                Command::SendKey(key) => {
                    &&& final(self).unchanged(&*old(self))
                    &&& action matches Action::Write(bytes) && bytes@ == key_bytes_spec(key)
                },
            },
    {
        match command {
            Command::Quit => {
                self.running = false;
                Action::Nothing
            },
            Command::NewTab => Action::OpenTab,
            Command::NextTab => {
                let tab_count: usize = self.tabs.len() - 1;
                if self.active_tab == tab_count {
                    self.active_tab = 0;
                } else {
                    self.active_tab += 1;
                }
                Action::Nothing
            },
            Command::PrevTab => {
                let tab_count: usize = self.tabs.len() - 1;
                if self.active_tab == 0 {
                    self.active_tab = tab_count;
                } else {
                    self.active_tab -= 1;
                }
                Action::Nothing
            },
            Command::CycleGrid => {
                let at: usize = self.active_tab;
                let tab = &mut self.tabs[at];
                tab.grid = tab.grid.next();
                Action::Nothing
            },
            Command::DeletePane => {
                let at: usize = self.active_tab;
                let ghost before = self.tabs@;
                let tab = &mut self.tabs[at];
                tab.del_pane();
                let now_empty: bool = tab.panes.is_empty();
                if now_empty {
                    self.tabs.remove(at);
                    assert(self.tabs@ =~= before.remove(at as int));
                    if self.active_tab == 0 {
                        self.active_tab = self.tabs.len().saturating_sub(1);
                    } else {
                        self.active_tab -= 1;
                    }
                }
                if self.tabs.is_empty() {
                    self.running = false;
                }
                proof {
                    if !now_empty {
                        assert forall|i: int| 0 <= i < self.tabs.len() implies (#[trigger] self.tabs@[i]).wf() by {
                            if i != at {
                                assert(self.tabs@[i] == before[i]);
                            }
                        }
                    } else if self.tabs.len() >= 1 {
                        assert forall|i: int| 0 <= i < self.tabs.len() implies (#[trigger] self.tabs@[i]).wf() by {
                            if i < at {
                                assert(self.tabs@[i] == before[i]);
                            } else {
                                assert(self.tabs@[i] == before[i + 1]);
                            }
                        }
                    }
                }
                Action::Nothing
            },
            Command::NextPane => {
                let at: usize = self.active_tab;
                let tab = &mut self.tabs[at];
                if tab.active == tab.panes.len() - 1 {
                    tab.active = 0;
                } else {
                    tab.active += 1;
                }
                Action::Nothing
            },
            Command::NewPane => Action::OpenPane,
            Command::ScrollToTop => Action::ScrollToTop,
            Command::ScrollToBottom => Action::ScrollToBottom,
            Command::ScrollPageUp => Action::ScrollPageUp,
            Command::ScrollPageDown => Action::ScrollPageDown,
            Command::SendKey(key) => Action::Write(key_to_bytes(&key)),
        }
    }
}

} // verus!
