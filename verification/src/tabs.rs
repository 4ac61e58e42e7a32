//! Tabs: the panes of a tab, which of them is active, and how they are laid
//! out on screen.

use vstd::prelude::*;
use crate::layout::{
    Rect, fits, fits_x, fits_y, golden_rects, golden_seq, grid_rects, grid_spec, horizontal_rects, split_spec,
    vertical_rects,
};

verus! {

/// How the panes of a tab share its area.
#[derive(Clone, Copy, Debug, PartialEq, Eq, Structural)]
pub enum Grid {
    Horizontal,
    Vertical,
    Square,
    Golden,
}

/// The layout that follows `g`, cycling Horizontal, Vertical, Square, Golden.
pub open spec fn next_grid(g: Grid) -> Grid {
    match g {
        Grid::Horizontal => Grid::Vertical,
        Grid::Vertical => Grid::Square,
        Grid::Square => Grid::Golden,
        Grid::Golden => Grid::Horizontal,
    }
}

impl Grid {
    /// The next layout in declaration order, wrapping around after the last.
    pub fn next(&self) -> (g: Grid)
        ensures
            g == next_grid(*self),
    {
        match self {
            Grid::Horizontal => Grid::Vertical,
            Grid::Vertical => Grid::Square,
            Grid::Square => Grid::Golden,
            Grid::Golden => Grid::Horizontal,
        }
    }
}

/// Cycling the layout moves to a different layout, and four steps come back
/// to the start: every layout is reached.
pub proof fn lemma_grid_cycle(g: Grid)
    ensures
        next_grid(g) != g,
        next_grid(next_grid(next_grid(next_grid(g)))) == g,
{
}

/// The rectangles of `n` panes laid out by `grid` in `area`.
pub open spec fn layout_spec(grid: Grid, area: Rect, n: int) -> Seq<Rect> {
    match grid {
        Grid::Vertical => split_spec(area, n, true),
        Grid::Square => grid_spec(area, n),
        Grid::Golden => golden_seq(area, if n >= 1 { n } else { 1 }),
        Grid::Horizontal => split_spec(area, n, false),
    }
}

/// Laying out `n` panes by `grid` in `area` keeps every coordinate within
/// `u16` (the golden layout always does; the others when the edges they
/// advance along fit).
pub open spec fn layout_defined(grid: Grid, area: Rect, n: int) -> bool {
    n > 0 ==> match grid {
        Grid::Vertical => fits_x(area),
        Grid::Horizontal => fits_y(area),
        Grid::Square => fits(area),
        Grid::Golden => true,
    }
}

/// The rectangles of `n` panes laid out by `grid` in `area`.
pub fn layout_rects(grid: Grid, area: Rect, n: u16) -> (rects: Vec<Rect>)
    requires
        layout_defined(grid, area, n as int),
    ensures
        rects@ == layout_spec(grid, area, n as int),
{
    match grid {
        Grid::Vertical => vertical_rects(area, n),
        Grid::Square => grid_rects(area, n),
        Grid::Golden => golden_rects(area, n),
        Grid::Horizontal => horizontal_rects(area, n),
    }
}

/// The size of the virtual terminal drawn in `rect`: its rows and columns
/// less the border cell on each side, and at least one of each.
pub open spec fn pane_size_spec(rect: Rect) -> (u16, u16) {
    let rows = if rect.height >= 2 { rect.height - 2 } else { 0 };
    let cols = if rect.width >= 2 { rect.width - 2 } else { 0 };
    ((if rows >= 1 { rows } else { 1 }) as u16, (if cols >= 1 { cols } else { 1 }) as u16)
}

/// The rows and columns of the virtual terminal drawn in `rect`.
pub fn pane_size(rect: Rect) -> (size: (u16, u16))
    ensures
        size == pane_size_spec(rect),
{
    let rows: u16 = rect.height.saturating_sub(2);
    let cols: u16 = rect.width.saturating_sub(2);
    (if rows >= 1 { rows } else { 1 }, if cols >= 1 { cols } else { 1 })
}

/// A tab: its panes, the index of the active one, and its layout.
pub struct Tab<P> {
    pub panes: Vec<P>,
    pub active: usize,
    pub grid: Grid,
}

impl<P> Tab<P> {
    /// The tab holds at least one pane and its active index points at one.
    pub open spec fn wf(&self) -> bool {
        self.panes.len() >= 1 && self.active < self.panes.len()
    }

    /// A tab holding `pane` alone, active, in the horizontal layout.
    pub fn new(pane: P) -> (tab: Tab<P>)
        ensures
            tab.panes@ == seq![pane],
            tab.active == 0,
            tab.grid == Grid::Horizontal,
            tab.wf(),
    {
        let mut panes: Vec<P> = Vec::new();
        panes.push(pane);
        assert(panes@ =~= seq![pane]);
        Tab { panes, active: 0, grid: Grid::Horizontal }
    }

    /// Removes the active pane; the pane after it becomes active, or the one
    /// before it when it was the last. Removing the only pane leaves the tab
    /// empty, with index 0.
    pub fn del_pane(&mut self)
        requires
            old(self).wf(),
        ensures
            final(self).panes@ == old(self).panes@.remove(old(self).active as int),
            final(self).active == if old(self).active == old(self).panes.len() - 1 && old(self).active > 0 {
                old(self).active - 1
            } else {
                old(self).active as int
            },
            final(self).grid == old(self).grid,
            final(self).panes.len() >= 1 ==> final(self).wf(),
    {
        let new_active: usize = if self.active == self.panes.len() - 1 {
            self.active.saturating_sub(1)
        } else {
            self.active
        };
        self.panes.remove(self.active);
        self.active = new_active;
    }
}

} // verus!
