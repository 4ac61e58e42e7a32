//! Pane layout: how the area of a tab is divided among its panes.

use vstd::prelude::*;

verus! {

/// A rectangle of terminal cells: its top-left corner and its size.
#[derive(Clone, Copy, Debug, PartialEq, Eq, Structural)]
pub struct Rect {
    pub x: u16,
    pub y: u16,
    pub width: u16,
    pub height: u16,
}

/// Margins on the horizontal and vertical sides of a rectangle.
#[derive(Clone, Copy, Debug, PartialEq, Eq, Structural)]
pub struct Margin {
    pub horizontal: u16,
    pub vertical: u16,
}

/// The rectangle that `Rect::new` builds: width and height are cut so that
/// the right and bottom edges stay within `u16`.
pub open spec fn clamped_rect(x: u16, y: u16, width: u16, height: u16) -> Rect {
    Rect {
        x,
        y,
        width: if x + width <= u16::MAX { width } else { (u16::MAX - x) as u16 },
        height: if y + height <= u16::MAX { height } else { (u16::MAX - y) as u16 },
    }
}

/// The rectangle inside `r` with `margin` taken off each side, or the empty
/// rectangle at the origin when the margins do not fit.
pub open spec fn inner_rect(r: Rect, margin: Margin) -> Rect {
    let dh = if 2 * margin.horizontal <= u16::MAX { 2 * margin.horizontal } else { u16::MAX as int };
    let dv = if 2 * margin.vertical <= u16::MAX { 2 * margin.vertical } else { u16::MAX as int };
    if r.width < dh || r.height < dv {
        Rect { x: 0, y: 0, width: 0, height: 0 }
    } else {
        Rect {
            x: if r.x + margin.horizontal <= u16::MAX { (r.x + margin.horizontal) as u16 } else { u16::MAX },
            y: if r.y + margin.vertical <= u16::MAX { (r.y + margin.vertical) as u16 } else { u16::MAX },
            width: (r.width - dh) as u16,
            height: (r.height - dv) as u16,
        }
    }
}

/// `ratatui::layout::Rect::new`: builds a rectangle, shrinking the width and
/// height so that its right and bottom edges do not pass `u16::MAX`, as
/// `clamped_rect` states.
#[verifier::external_body]
fn ratatui_rect_new(x: u16, y: u16, width: u16, height: u16) -> (r: Rect)
    ensures
        r == clamped_rect(x, y, width, height),
{
    let r = ratatui::layout::Rect::new(x, y, width, height);
    Rect { x: r.x, y: r.y, width: r.width, height: r.height }
}

/// `ratatui::layout::Rect::inner`: the rectangle with the margin taken off
/// each side (saturating), or the zero rectangle when the doubled margins
/// exceed the size, as `inner_rect` states.
#[verifier::external_body]
fn ratatui_rect_inner(r: Rect, margin: Margin) -> (inner: Rect)
    ensures
        inner == inner_rect(r, margin),
{
    let outer = ratatui::layout::Rect { x: r.x, y: r.y, width: r.width, height: r.height };
    let m = ratatui::layout::Margin { horizontal: margin.horizontal, vertical: margin.vertical };
    let i = outer.inner(m);
    Rect { x: i.x, y: i.y, width: i.width, height: i.height }
}

impl Rect {
    /// A rectangle at `(x, y)` of the given size, clamped to stay within `u16`.
    pub fn new(x: u16, y: u16, width: u16, height: u16) -> (r: Rect)
        ensures
            r == clamped_rect(x, y, width, height),
    {
        ratatui_rect_new(x, y, width, height)
    }

    /// The first column right of the rectangle (saturating at `u16::MAX`).
    pub fn right(self) -> (r: u16)
        ensures
            r == if self.x + self.width <= u16::MAX { (self.x + self.width) as u16 } else { u16::MAX },
    {
        self.x.saturating_add(self.width)
    }

    /// The first row below the rectangle (saturating at `u16::MAX`).
    pub fn bottom(self) -> (b: u16)
        ensures
            b == if self.y + self.height <= u16::MAX { (self.y + self.height) as u16 } else { u16::MAX },
    {
        self.y.saturating_add(self.height)
    }

    /// The rectangle inside this one with `margin` taken off each side.
    pub fn inner(self, margin: Margin) -> (r: Rect)
        ensures
            r == inner_rect(self, margin),
    {
        ratatui_rect_inner(self, margin)
    }
}

/// The right edge of `r` lies within `u16`.
pub open spec fn fits_x(r: Rect) -> bool {
    r.x + r.width <= u16::MAX
}

/// The bottom edge of `r` lies within `u16`.
pub open spec fn fits_y(r: Rect) -> bool {
    r.y + r.height <= u16::MAX
}

/// The right and bottom edges of `r` lie within `u16`.
pub open spec fn fits(r: Rect) -> bool {
    fits_x(r) && fits_y(r)
}

/// Cell `(px, py)` lies in `r`.
pub open spec fn holds_cell(r: Rect, px: int, py: int) -> bool {
    r.x <= px < r.x + r.width && r.y <= py < r.y + r.height
}

/// `r` lies inside `area`.
pub open spec fn within(r: Rect, area: Rect) -> bool {
    &&& area.x <= r.x
    &&& r.x + r.width <= area.x + area.width
    &&& area.y <= r.y
    &&& r.y + r.height <= area.y + area.height
}

/// `a` and `b` share no cell.
pub open spec fn apart(a: Rect, b: Rect) -> bool {
    ||| a.width == 0
    ||| a.height == 0
    ||| b.width == 0
    ||| b.height == 0
    ||| a.x + a.width <= b.x
    ||| b.x + b.width <= a.x
    ||| a.y + a.height <= b.y
    ||| b.y + b.height <= a.y
}

/// `rects` divide `area` exactly: each lies inside it, no two share a cell,
/// and every cell of `area` lies in one of them.
pub open spec fn tiles(rects: Seq<Rect>, area: Rect) -> bool {
    &&& forall|i: int| 0 <= i < rects.len() ==> within(#[trigger] rects[i], area)
    &&& forall|i: int, j: int|
        0 <= i < rects.len() && 0 <= j < rects.len() && i != j ==> apart(#[trigger] rects[i], #[trigger] rects[j])
    &&& forall|px: int, py: int|
        holds_cell(area, px, py) ==> exists|i: int| 0 <= i < rects.len() && #[trigger] holds_cell(rects[i], px, py)
}

/// No rectangle of `rects` is empty.
pub open spec fn all_nonempty(rects: Seq<Rect>) -> bool {
    forall|i: int| 0 <= i < rects.len() ==> (#[trigger] rects[i]).width > 0 && rects[i].height > 0
}

/// Where part `i` of `len` cells split into `n` parts starts: the parts have
/// `len / n` cells, and the first `len % n` of them one more.
pub open spec fn part_start(len: int, n: int, i: int) -> int {
    i * (len / n) + if i < len % n { i } else { len % n }
}

/// The number of cells of part `i` of `len` cells split into `n` parts.
pub open spec fn part_size(len: int, n: int, i: int) -> int {
    len / n + if i < len % n { 1int } else { 0 }
}

/// Part `i` of `area` split into `n` side by side (`vertical`) or stacked
/// parts; across the split the part keeps the area's extent, clamped to stay
/// within `u16`.
pub open spec fn split_part(area: Rect, n: int, vertical: bool, i: int) -> Rect {
    if vertical {
        clamped_rect(
            (area.x + part_start(area.width as int, n, i)) as u16,
            area.y,
            part_size(area.width as int, n, i) as u16,
            area.height,
        )
    } else {
        clamped_rect(
            area.x,
            (area.y + part_start(area.height as int, n, i)) as u16,
            area.width,
            part_size(area.height as int, n, i) as u16,
        )
    }
}

/// `area` split into `n` parts of near-equal size (sizes differ by at most
/// one, the larger first), side by side when `vertical`, stacked otherwise.
pub open spec fn split_spec(area: Rect, n: int, vertical: bool) -> Seq<Rect> {
    Seq::new(n as nat, |i: int| split_part(area, n, vertical, i))
}

proof fn lemma_part_step(len: int, n: int, i: int)
    requires
        0 <= len,
        0 < n,
        0 <= i,
    ensures
        part_start(len, n, i + 1) == part_start(len, n, i) + part_size(len, n, i),
        part_size(len, n, i) >= 0,
        part_start(len, n, i) >= 0,
{
    assert((i + 1) * (len / n) == i * (len / n) + len / n) by (nonlinear_arith);
    assert(i * (len / n) >= 0) by (nonlinear_arith)
        requires
            0 <= i,
            0 <= len / n,
    ;
}

proof fn lemma_part_monotone(len: int, n: int, i: int, j: int)
    requires
        0 <= len,
        0 < n,
        0 <= i <= j,
    ensures
        part_start(len, n, i) <= part_start(len, n, j),
    decreases j - i,
{
    if i < j {
        lemma_part_monotone(len, n, i, j - 1);
        lemma_part_step(len, n, j - 1);
    }
}

proof fn lemma_part_end(len: int, n: int)
    requires
        0 <= len,
        0 < n,
    ensures
        part_start(len, n, n) == len,
{
    assert(n * (len / n) + len % n == len) by (nonlinear_arith)
        requires
            0 < n,
    ;
}

proof fn lemma_part_nonempty(len: int, n: int, i: int)
    requires
        0 < n <= len,
    ensures
        part_size(len, n, i) >= 1,
{
    assert(len / n >= 1) by (nonlinear_arith)
        requires
            0 < n <= len,
    ;
}

/// Finds the part that holds offset `p`, searching downward from part `k`.
proof fn lemma_find_part(len: int, n: int, p: int, k: int) -> (i: int)
    requires
        0 <= len,
        0 < n,
        0 <= p < part_start(len, n, k + 1),
        0 <= k < n,
    ensures
        0 <= i <= k,
        part_start(len, n, i) <= p < part_start(len, n, i) + part_size(len, n, i),
    decreases k,
{
    lemma_part_step(len, n, k);
    if part_start(len, n, k) <= p || k == 0 {
        assert(part_start(len, n, 0) == 0);
        k
    } else {
        lemma_find_part(len, n, p, k - 1)
    }
}

/// The parts of a split lie inside the area, share no cell and cover it; when
/// there are no more parts than cells along the split, none is empty.
pub proof fn lemma_split_tiles(area: Rect, n: int, vertical: bool)
    requires
        0 < n,
        fits(area),
    ensures
        tiles(split_spec(area, n, vertical), area),
        n <= (if vertical { area.width as int } else { area.height as int }) && area.width > 0
            && area.height > 0 ==> all_nonempty(split_spec(area, n, vertical)),
{
    let rs = split_spec(area, n, vertical);
    let len: int = if vertical { area.width as int } else { area.height as int };
    lemma_part_end(len, n);
    assert forall|i: int| 0 <= i < n implies {
        &&& part_start(len, n, i) + part_size(len, n, i) <= len
        &&& part_start(len, n, i) >= 0
        &&& part_size(len, n, i) >= 0
    } by {
        lemma_part_step(len, n, i);
        lemma_part_monotone(len, n, i + 1, n);
    }
    assert forall|i: int| 0 <= i < rs.len() implies within(#[trigger] rs[i], area) by {
        lemma_part_step(len, n, i);
        lemma_part_monotone(len, n, i + 1, n);
    }
    assert forall|i: int, j: int|
        0 <= i < rs.len() && 0 <= j < rs.len() && i != j implies apart(#[trigger] rs[i], #[trigger] rs[j]) by {
        if i < j {
            lemma_part_step(len, n, i);
            lemma_part_monotone(len, n, i + 1, j);
            lemma_part_step(len, n, j);
        } else {
            lemma_part_step(len, n, j);
            lemma_part_monotone(len, n, j + 1, i);
            lemma_part_step(len, n, i);
        }
    }
    assert forall|px: int, py: int| holds_cell(area, px, py) implies exists|i: int|
        0 <= i < rs.len() && #[trigger] holds_cell(rs[i], px, py) by {
        let p = if vertical { px - area.x } else { py - area.y };
        lemma_part_step(len, n, n - 1);
        let i = lemma_find_part(len, n, p, n - 1);
        lemma_part_step(len, n, i);
        lemma_part_monotone(len, n, i + 1, n);
        assert(holds_cell(rs[i], px, py));
    }
    if n <= len && area.width > 0 && area.height > 0 {
        assert forall|i: int| 0 <= i < rs.len() implies (#[trigger] rs[i]).width > 0 && rs[i].height > 0 by {
            lemma_part_nonempty(len, n, i);
            lemma_part_step(len, n, i);
            lemma_part_monotone(len, n, i + 1, n);
        }
    }
}

/// Splits `area` into `n` near-equal parts, side by side when `vertical`,
/// stacked otherwise.
fn split_axis(area: Rect, n: u16, vertical: bool) -> (rects: Vec<Rect>)
    requires
        n > 0 ==> if vertical { fits_x(area) } else { fits_y(area) },
    ensures
        rects@ == split_spec(area, n as int, vertical),
{
    if n == 0 {
        let empty: Vec<Rect> = Vec::new();
        assert(empty@ =~= split_spec(area, n as int, vertical));
        return empty;
    }
    let mut rects: Vec<Rect> = Vec::with_capacity(n as usize);
    let mut x: u16 = area.x;
    let mut y: u16 = area.y;
    let mut height: u16 = area.height;
    let mut width: u16 = area.width;
    let axis: u16 = if vertical { area.width } else { area.height };
    let chunk: u16 = axis / n;
    let remainder: u16 = axis % n;
    let ghost len: int = axis as int;
    proof {
        lemma_part_end(len, n as int);
    }
    let mut i: u16 = 0;
    while i < n
        invariant
            if vertical { fits_x(area) } else { fits_y(area) },
            0 < n,
            i <= n,
            len == (if vertical { area.width as int } else { area.height as int }),
            axis as int == len,
            chunk as int == len / (n as int),
            remainder as int == len % (n as int),
            part_start(len, n as int, n as int) == len,
            vertical ==> x as int == area.x + part_start(len, n as int, i as int) && y == area.y
                && height == area.height,
            !vertical ==> y as int == area.y + part_start(len, n as int, i as int) && x == area.x
                && width == area.width,
            rects@ == split_spec(area, n as int, vertical).take(i as int),
        decreases n - i,
    {
        proof {
            lemma_part_step(len, n as int, i as int);
            lemma_part_monotone(len, n as int, i as int + 1, n as int);
        }
        let extra: u16 = if i < remainder { 1 } else { 0 };
        if vertical {
            width = chunk + extra;
        } else {
            height = chunk + extra;
        }
        let r = Rect::new(x, y, width, height);
        assert(r == split_part(area, n as int, vertical, i as int));
        rects.push(r);
        if vertical {
            x += width;
        } else {
            y += height;
        }
        i = i + 1;
        assert(rects@ =~= split_spec(area, n as int, vertical).take(i as int));
    }
    assert(rects@ =~= split_spec(area, n as int, vertical));
    rects
}

/// `area` split into `n` side-by-side columns of near-equal width.
pub fn vertical_rects(area: Rect, n: u16) -> (rects: Vec<Rect>)
    requires
        n > 0 ==> fits_x(area),
    ensures
        rects@ == split_spec(area, n as int, true),
        n > 0 && fits(area) ==> tiles(rects@, area),
        0 < n <= area.width && area.height > 0 && fits(area) ==> all_nonempty(rects@),
{
    proof {
        if n > 0 && fits(area) {
            lemma_split_tiles(area, n as int, true);
        }
    }
    split_axis(area, n, true)
}

/// `area` split into `n` stacked rows of near-equal height.
pub fn horizontal_rects(area: Rect, n: u16) -> (rects: Vec<Rect>)
    requires
        n > 0 ==> fits_y(area),
    ensures
        rects@ == split_spec(area, n as int, false),
        n > 0 && fits(area) ==> tiles(rects@, area),
        0 < n <= area.height && area.width > 0 && fits(area) ==> all_nonempty(rects@),
{
    proof {
        if n > 0 && fits(area) {
            lemma_split_tiles(area, n as int, false);
        }
    }
    split_axis(area, n, false)
}

/// `ceil(n / d)`.
pub open spec fn ceil_div(n: int, d: int) -> int {
    n / d + if n % d == 0 { 0int } else { 1 }
}

/// The smallest `c >= start` whose square reaches `n`.
pub open spec fn ceil_sqrt_from(n: int, start: int) -> int
    decreases n - start,
{
    if start * start >= n || start >= n {
        start
    } else {
        ceil_sqrt_from(n, start + 1)
    }
}

/// `ceil(sqrt(n))`, at least 1.
pub open spec fn ceil_sqrt(n: int) -> int {
    ceil_sqrt_from(n, 1)
}

/// Rows of the square grid for `n` panes: `ceil(n / ceil(sqrt(n)))`, but at
/// least two once there are two panes.
pub open spec fn grid_rows(n: int) -> int {
    let r = ceil_div(n, ceil_sqrt(n));
    if n > 1 && r < 2 {
        2
    } else {
        r
    }
}

/// Columns of the square grid for `n` panes: `ceil(n / rows)`.
pub open spec fn grid_columns(n: int) -> int {
    ceil_div(n, grid_rows(n))
}

/// Panes in row `row` of the square grid: full rows, then the rest.
pub open spec fn grid_row_cells(n: int, row: int) -> int {
    let c = grid_columns(n);
    if c <= n - row * c {
        c
    } else {
        n - row * c
    }
}

/// The rectangles of the first `k` rows of the square grid for `n` panes.
pub open spec fn grid_prefix(area: Rect, n: int, k: int) -> Seq<Rect>
    decreases k,
{
    if k <= 0 {
        Seq::empty()
    } else {
        grid_prefix(area, n, k - 1) + split_spec(
            split_part(area, grid_rows(n), false, k - 1),
            grid_row_cells(n, k - 1),
            true,
        )
    }
}

/// The square grid for `n` panes: `grid_rows(n)` stacked rows of near-equal
/// height, each split into `grid_row_cells` columns of near-equal width.
pub open spec fn grid_spec(area: Rect, n: int) -> Seq<Rect> {
    if n <= 0 {
        Seq::empty()
    } else {
        grid_prefix(area, n, grid_rows(n))
    }
}

proof fn lemma_ceil_div(n: int, d: int)
    requires
        0 <= n,
        0 < d,
    ensures
        ceil_div(n, d) * d >= n,
        (ceil_div(n, d) - 1) * d < n || n == 0,
        ceil_div(n, d) * d < n + d,
        n > 0 ==> ceil_div(n, d) >= 1,
{
    let q = n / d;
    let r = n % d;
    assert(q * d + r == n && 0 <= r < d && q >= 0) by (nonlinear_arith)
        requires
            0 <= n,
            0 < d,
            q == n / d,
            r == n % d,
    ;
    if r == 0 {
        assert(ceil_div(n, d) * d == q * d);
        assert((q - 1) * d == q * d - d) by (nonlinear_arith);
        if n > 0 {
            assert(q >= 1) by (nonlinear_arith)
                requires
                    q * d == n,
                    n > 0,
                    d > 0,
            ;
        }
    } else {
        assert((q + 1) * d == q * d + d) by (nonlinear_arith);
    }
}

proof fn lemma_ceil_sqrt_from(n: int, start: int)
    requires
        1 <= start,
        (start - 1) * (start - 1) < n,
    ensures
        ceil_sqrt_from(n, start) >= 1,
        (ceil_sqrt_from(n, start) - 1) * (ceil_sqrt_from(n, start) - 1) < n,
        ceil_sqrt_from(n, start) * ceil_sqrt_from(n, start) >= n,
    decreases n - start,
{
    if start * start >= n {
    } else if start >= n {
        assert(start * start >= start * 1) by (nonlinear_arith)
            requires
                start >= 1,
        ;
    } else {
        lemma_ceil_sqrt_from(n, start + 1);
    }
}

/// The square grid shape: `rows * columns` reaches `n`, and every row but
/// the last is full while the last keeps at least one pane.
proof fn lemma_grid_shape(n: int)
    requires
        n >= 1,
    ensures
        grid_rows(n) >= 1,
        grid_columns(n) >= 1,
        (grid_rows(n) - 1) * grid_columns(n) < n,
        n <= grid_rows(n) * grid_columns(n),
{
    lemma_ceil_sqrt_from(n, 1);
    let c0 = ceil_sqrt(n);
    lemma_ceil_div(n, c0);
    let r0 = ceil_div(n, c0);
    assert(r0 <= c0) by (nonlinear_arith)
        requires
            (r0 - 1) * c0 < n,
            n <= c0 * c0,
            c0 >= 1,
    ;
    let rows = grid_rows(n);
    assert((rows - 1) * (rows - 1) < n) by {
        if n > 1 && r0 < 2 {
            assert(rows == 2);
            assert((rows - 1) * (rows - 1) == 1);
        } else {
            assert(rows == r0);
            assert(r0 >= 1);
            assert((c0 - 1) * (c0 - 1) < n);
            assert((rows - 1) * (rows - 1) <= (c0 - 1) * (c0 - 1)) by (nonlinear_arith)
                requires
                    1 <= rows <= c0,
            ;
        }
    }
    lemma_ceil_div(n, rows);
    let cols = grid_columns(n);
    assert(cols * rows <= n + rows - 1);
    assert((rows - 1) * cols < n) by (nonlinear_arith)
        requires
            cols * rows <= n + rows - 1,
            (rows - 1) * (rows - 1) < n,
            rows >= 1,
            cols >= 1,
    ;
    assert(n <= rows * cols) by (nonlinear_arith)
        requires
            cols * rows >= n,
    ;
}

proof fn lemma_grid_row_cells(n: int, row: int)
    requires
        n >= 1,
        0 <= row < grid_rows(n),
    ensures
        1 <= grid_row_cells(n, row) <= grid_columns(n),
        row < grid_rows(n) - 1 ==> grid_row_cells(n, row) == grid_columns(n),
        row * grid_columns(n) < n,
{
    lemma_grid_shape(n);
    let c = grid_columns(n);
    let r = grid_rows(n);
    assert(row * c <= (r - 1) * c) by (nonlinear_arith)
        requires
            row <= r - 1,
            c >= 1,
    ;
    if row < r - 1 {
        assert((row + 1) * c <= (r - 1) * c) by (nonlinear_arith)
            requires
                row + 1 <= r - 1,
                c >= 1,
        ;
        assert((row + 1) * c == row * c + c) by (nonlinear_arith);
    }
}

proof fn lemma_grid_prefix_len(area: Rect, n: int, k: int)
    requires
        n >= 1,
        0 <= k <= grid_rows(n),
    ensures
        k < grid_rows(n) ==> grid_prefix(area, n, k).len() == k * grid_columns(n),
        k == grid_rows(n) ==> grid_prefix(area, n, k).len() == n,
    decreases k,
{
    lemma_grid_shape(n);
    if k > 0 {
        lemma_grid_prefix_len(area, n, k - 1);
        lemma_grid_row_cells(n, k - 1);
        let c = grid_columns(n);
        assert(k * c == (k - 1) * c + c) by (nonlinear_arith);
        assert(grid_prefix(area, n, k).len() == grid_prefix(area, n, k - 1).len() + grid_row_cells(n, k - 1));
    } else {
        assert(0 * grid_columns(n) == 0);
    }
}

/// A rectangle inside one of two rectangles that share no cell shares no cell
/// with a rectangle inside the other.
proof fn lemma_within_apart(a: Rect, b: Rect, outer_a: Rect, outer_b: Rect)
    requires
        within(a, outer_a),
        within(b, outer_b),
        apart(outer_a, outer_b),
    ensures
        apart(a, b),
{
}

/// The first `k` rows of the grid: each rectangle lies inside its row's slab,
/// no two share a cell, and together they cover the first `k` slabs.
proof fn lemma_grid_prefix_tiles(area: Rect, n: int, k: int)
    requires
        n >= 1,
        fits(area),
        0 <= k <= grid_rows(n),
    ensures
        ({
            let g = grid_prefix(area, n, k);
            let rows = grid_rows(n);
            &&& forall|i: int|
                0 <= i < g.len() ==> exists|j: int|
                    0 <= j < k && within(#[trigger] g[i], split_part(area, rows, false, j))
            &&& forall|i: int, j: int|
                0 <= i < g.len() && 0 <= j < g.len() && i != j ==> apart(#[trigger] g[i], #[trigger] g[j])
            &&& forall|j: int, px: int, py: int|
                0 <= j < k && #[trigger] holds_cell(split_part(area, rows, false, j), px, py) ==> exists|i: int|
                    0 <= i < g.len() && #[trigger] holds_cell(g[i], px, py)
            &&& rows <= area.height && grid_columns(n) <= area.width && area.width > 0 ==> all_nonempty(g)
        }),
    decreases k,
{
    let rows = grid_rows(n);
    lemma_grid_shape(n);
    lemma_split_tiles(area, rows, false);
    let slabs = split_spec(area, rows, false);
    if k > 0 {
        lemma_grid_prefix_tiles(area, n, k - 1);
        let prev = grid_prefix(area, n, k - 1);
        let slab = split_part(area, rows, false, k - 1);
        assert(slab == slabs[k - 1]);
        assert(within(slab, area));
        lemma_grid_row_cells(n, k - 1);
        let cells = grid_row_cells(n, k - 1);
        lemma_split_tiles(slab, cells, true);
        let piece = split_spec(slab, cells, true);
        let g = grid_prefix(area, n, k);
        assert(g == prev + piece);
        assert forall|i: int| 0 <= i < g.len() implies exists|j: int|
            0 <= j < k && within(#[trigger] g[i], split_part(area, rows, false, j)) by {
            if i < prev.len() {
                assert(g[i] == prev[i]);
            } else {
                assert(g[i] == piece[i - prev.len()]);
                assert(within(g[i], split_part(area, rows, false, k - 1)));
            }
        }
        assert forall|i: int, j: int|
            0 <= i < g.len() && 0 <= j < g.len() && i != j implies apart(#[trigger] g[i], #[trigger] g[j]) by {
            if i < prev.len() && j < prev.len() {
                assert(g[i] == prev[i] && g[j] == prev[j]);
            } else if i >= prev.len() && j >= prev.len() {
                assert(g[i] == piece[i - prev.len()] && g[j] == piece[j - prev.len()]);
            } else if i < prev.len() {
                assert(g[i] == prev[i]);
                let ji = choose|ji: int| 0 <= ji < k - 1 && within(prev[i], split_part(area, rows, false, ji));
                assert(slabs[ji] == split_part(area, rows, false, ji));
                assert(apart(slabs[ji], slabs[k - 1]));
                assert(g[j] == piece[j - prev.len()]);
                lemma_within_apart(g[i], g[j], slabs[ji], slabs[k - 1]);
            } else {
                assert(g[j] == prev[j]);
                let jj = choose|jj: int| 0 <= jj < k - 1 && within(prev[j], split_part(area, rows, false, jj));
                assert(slabs[jj] == split_part(area, rows, false, jj));
                assert(apart(slabs[k - 1], slabs[jj]));
                assert(g[i] == piece[i - prev.len()]);
                lemma_within_apart(g[i], g[j], slabs[k - 1], slabs[jj]);
            }
        }
        if rows <= area.height && grid_columns(n) <= area.width && area.width > 0 {
            assert(slab.height > 0 && slab.width == area.width);
            assert forall|i: int| 0 <= i < g.len() implies (#[trigger] g[i]).width > 0 && g[i].height > 0 by {
                if i < prev.len() {
                    assert(g[i] == prev[i]);
                } else {
                    assert(g[i] == piece[i - prev.len()]);
                }
            }
        }
        assert forall|j: int, px: int, py: int|
            0 <= j < k && #[trigger] holds_cell(split_part(area, rows, false, j), px, py) implies exists|i: int|
                0 <= i < g.len() && #[trigger] holds_cell(g[i], px, py) by {
            if j < k - 1 {
                let i = choose|i: int| 0 <= i < prev.len() && #[trigger] holds_cell(prev[i], px, py);
                assert(g[i] == prev[i]);
            } else {
                assert(holds_cell(slab, px, py));
                let i = choose|i: int| 0 <= i < piece.len() && #[trigger] holds_cell(piece[i], px, py);
                assert(g[prev.len() + i] == piece[i]);
            }
        }
    } else {
        assert(grid_prefix(area, n, k) =~= Seq::<Rect>::empty());
    }
}

/// The square grid for `n >= 1` panes has `n` rectangles and divides the
/// area exactly; none is empty when the area has at least as many rows and
/// columns as the grid.
pub proof fn lemma_grid_tiles(area: Rect, n: int)
    requires
        n >= 1,
        fits(area),
    ensures
        grid_spec(area, n).len() == n,
        tiles(grid_spec(area, n), area),
        grid_rows(n) <= area.height && grid_columns(n) <= area.width && area.width > 0 ==> all_nonempty(
            grid_spec(area, n),
        ),
{
    let rows = grid_rows(n);
    lemma_grid_shape(n);
    lemma_grid_prefix_len(area, n, rows);
    lemma_grid_prefix_tiles(area, n, rows);
    lemma_split_tiles(area, rows, false);
    let slabs = split_spec(area, rows, false);
    let g = grid_spec(area, n);
    assert forall|i: int| 0 <= i < g.len() implies within(#[trigger] g[i], area) by {
        let j = choose|j: int| 0 <= j < rows && within(g[i], split_part(area, rows, false, j));
        assert(slabs[j] == split_part(area, rows, false, j));
    }
    assert forall|px: int, py: int| holds_cell(area, px, py) implies exists|i: int|
        0 <= i < g.len() && #[trigger] holds_cell(g[i], px, py) by {
        let j = choose|j: int| 0 <= j < slabs.len() && #[trigger] holds_cell(slabs[j], px, py);
        assert(holds_cell(split_part(area, rows, false, j), px, py));
    }
}

fn div_ceil_u16(n: u16, d: u16) -> (q: u16)
    requires
        d > 0,
    ensures
        q as int == ceil_div(n as int, d as int),
{
    proof {
        lemma_ceil_div(n as int, d as int);
        assert(ceil_div(n as int, d as int) <= n as int) by (nonlinear_arith)
            requires
                ceil_div(n as int, d as int) * d < n + d,
                d >= 1,
        ;
    }
    n / d + if n % d == 0 { 0 } else { 1 }
}

fn ceil_sqrt_u16(n: u16) -> (c: u16)
    requires
        n >= 1,
    ensures
        c as int == ceil_sqrt(n as int),
{
    let mut c: u32 = 1;
    assert(c * c <= 0xffff_ffff);
    while c * c < n as u32 && c < n as u32
        invariant
            1 <= c <= n,
            c * c <= 0xffff_ffff,
            ceil_sqrt_from(n as int, c as int) == ceil_sqrt(n as int),
        decreases n - c,
    {
        c = c + 1;
        assert(c * c <= 0xffff_ffff) by (nonlinear_arith)
            requires
                c <= 0xffff,
        ;
    }
    assert(c * c <= 0xffff_ffff) by (nonlinear_arith)
        requires
            c <= 0xffff,
    ;
    c as u16
}

/// The square grid: about `sqrt(n)` columns, rows of near-equal height, each
/// row split into columns of near-equal width; only the last row may hold
/// fewer panes.
pub fn grid_rects(area: Rect, n: u16) -> (rects: Vec<Rect>)
    requires
        n > 0 ==> fits(area),
    ensures
        rects@ == grid_spec(area, n as int),
        rects@.len() == n,
        n > 0 ==> tiles(rects@, area),
        n > 0 && grid_rows(n as int) <= area.height && grid_columns(n as int) <= area.width && area.width > 0
            ==> all_nonempty(rects@),
{
    if n == 0 {
        let empty: Vec<Rect> = Vec::new();
        assert(empty@ =~= grid_spec(area, n as int));
        return empty;
    }
    proof {
        lemma_grid_shape(n as int);
        lemma_grid_tiles(area, n as int);
        lemma_grid_prefix_len(area, n as int, grid_rows(n as int));
    }
    let mut columns: u16 = ceil_sqrt_u16(n);
    proof {
        lemma_ceil_sqrt_from(n as int, 1);
    }
    let mut rows: u16 = div_ceil_u16(n, columns);
    if n > 1 && rows < 2 {
        rows = 2;
    }
    assert(rows as int == grid_rows(n as int));
    columns = div_ceil_u16(n, rows);
    assert(columns as int == grid_columns(n as int));
    let slabs = horizontal_rects(area, rows);
    let mut rects: Vec<Rect> = Vec::with_capacity(n as usize);
    let mut row: u16 = 0;
    while row < rows
        invariant
            fits(area),
            n >= 1,
            rows as int == grid_rows(n as int),
            columns as int == grid_columns(n as int),
            row <= rows,
            slabs@ == split_spec(area, rows as int, false),
            rects@ == grid_prefix(area, n as int, row as int),
        decreases rows - row,
    {
        proof {
            lemma_grid_row_cells(n as int, row as int);
        }
        let used: u16 = row * columns;
        let rest: u16 = n - used;
        let cells: u16 = if columns <= rest { columns } else { rest };
        assert(cells as int == grid_row_cells(n as int, row as int));
        let slab: Rect = slabs[row as usize];
        proof {
            lemma_split_tiles(area, rows as int, false);
            assert(within(slabs@[row as int], area));
        }
        let mut part = vertical_rects(slab, cells);
        rects.append(&mut part);
        row = row + 1;
        assert(rects@ =~= grid_prefix(area, n as int, row as int));
    }
    rects
}

/// How much of a side of `len` cells the golden split keeps: `len × 0.618`
/// rounded to the nearest cell (halves up), at least 1 but leaving at least
/// one cell to the remainder, and 0 when `len` is 0.
pub open spec fn golden_keep(len: int) -> int {
    let k = (len * 618 + 500) / 1000;
    let k1 = if k < 1 { 1 } else { k };
    let cap = if len >= 1 { len - 1 } else { 0 };
    if k1 < cap {
        k1
    } else {
        cap
    }
}

/// The two parts of the golden split of `rec`: the kept part first, the
/// remainder after it, cut across the height when `horizontal`, across the
/// width otherwise.
pub open spec fn golden_split(rec: Rect, horizontal: bool) -> (Rect, Rect) {
    if horizontal {
        let kept = golden_keep(rec.height as int);
        (
            Rect { x: rec.x, y: rec.y, width: rec.width, height: kept as u16 },
            Rect { x: rec.x, y: (rec.y + kept) as u16, width: rec.width, height: (rec.height - kept) as u16 },
        )
    } else {
        let kept = golden_keep(rec.width as int);
        (
            Rect { x: rec.x, y: rec.y, width: kept as u16, height: rec.height },
            Rect { x: (rec.x + kept) as u16, y: rec.y, width: (rec.width - kept) as u16, height: rec.height },
        )
    }
}

/// The golden layout with `m >= 1` regions: the clamped area, then each
/// step splits the newest region, alternating width and height cuts.
pub open spec fn golden_seq(area: Rect, m: int) -> Seq<Rect>
    decreases m,
{
    if m <= 1 {
        seq![clamped_rect(area.x, area.y, area.width, area.height)]
    } else {
        let prev = golden_seq(area, m - 1);
        let parts = golden_split(prev[m - 2], (m - 2) % 2 == 1);
        prev.update(m - 2, parts.0).push(parts.1)
    }
}

proof fn lemma_golden_keep(len: int)
    requires
        0 <= len <= u16::MAX,
    ensures
        0 <= golden_keep(len) <= len,
        len >= 2 ==> 1 <= golden_keep(len) < len,
{
    assert((len * 618 + 500) / 1000 >= 0) by (nonlinear_arith)
        requires
            len >= 0,
    ;
}

proof fn lemma_golden_split(rec: Rect, horizontal: bool)
    requires
        fits(rec),
    ensures
        within(golden_split(rec, horizontal).0, rec),
        within(golden_split(rec, horizontal).1, rec),
        fits(golden_split(rec, horizontal).0),
        fits(golden_split(rec, horizontal).1),
        apart(golden_split(rec, horizontal).0, golden_split(rec, horizontal).1),
        forall|px: int, py: int|
            holds_cell(rec, px, py) ==> #[trigger] holds_cell(golden_split(rec, horizontal).0, px, py)
                || holds_cell(golden_split(rec, horizontal).1, px, py),
{
    lemma_golden_keep(rec.height as int);
    lemma_golden_keep(rec.width as int);
}

/// The golden layout divides the clamped area exactly, whatever the number
/// of regions.
pub proof fn lemma_golden_tiles(area: Rect, m: int)
    requires
        m >= 1,
    ensures
        golden_seq(area, m).len() == m,
        tiles(golden_seq(area, m), clamped_rect(area.x, area.y, area.width, area.height)),
        forall|i: int| 0 <= i < m ==> fits(#[trigger] golden_seq(area, m)[i]),
    decreases m,
{
    let whole = clamped_rect(area.x, area.y, area.width, area.height);
    if m > 1 {
        lemma_golden_tiles(area, m - 1);
        let prev = golden_seq(area, m - 1);
        let rec = prev[m - 2];
        let h = (m - 2) % 2 == 1;
        let parts = golden_split(rec, h);
        lemma_golden_split(rec, h);
        let g = golden_seq(area, m);
        assert(g == prev.update(m - 2, parts.0).push(parts.1));
        assert forall|i: int| 0 <= i < g.len() implies within(#[trigger] g[i], whole) by {
            if i < m - 2 {
                assert(g[i] == prev[i]);
            }
        }
        assert forall|i: int| 0 <= i < m implies fits(#[trigger] g[i]) by {
            if i < m - 2 {
                assert(g[i] == prev[i]);
            }
        }
        assert forall|i: int, j: int|
            0 <= i < g.len() && 0 <= j < g.len() && i != j implies apart(#[trigger] g[i], #[trigger] g[j]) by {
            if i < m - 2 && j < m - 2 {
                assert(g[i] == prev[i] && g[j] == prev[j]);
            } else if i < m - 2 {
                assert(g[i] == prev[i]);
                assert(apart(prev[i], rec));
                lemma_within_apart(g[i], g[j], prev[i], rec);
            } else if j < m - 2 {
                assert(g[j] == prev[j]);
                assert(apart(rec, prev[j]));
                lemma_within_apart(g[i], g[j], rec, prev[j]);
            }
        }
        assert forall|px: int, py: int| holds_cell(whole, px, py) implies exists|i: int|
            0 <= i < g.len() && #[trigger] holds_cell(g[i], px, py) by {
            let i = choose|i: int| 0 <= i < prev.len() && #[trigger] holds_cell(prev[i], px, py);
            if i < m - 2 {
                assert(g[i] == prev[i]);
            } else {
                assert(holds_cell(parts.0, px, py) || holds_cell(parts.1, px, py));
                if holds_cell(parts.0, px, py) {
                    assert(g[m - 2] == parts.0);
                } else {
                    assert(g[m - 1] == parts.1);
                }
            }
        }
    } else {
        let g = golden_seq(area, m);
        assert forall|px: int, py: int| holds_cell(whole, px, py) implies exists|i: int|
            0 <= i < g.len() && #[trigger] holds_cell(g[i], px, py) by {
            assert(holds_cell(g[0], px, py));
        }
    }
}

/// The golden layout: starting from the whole area, each further pane takes
/// the remainder of the newest region after it keeps about 0.618 of it,
/// cutting across the width first and then alternating. With no panes the
/// whole area is returned as one region.
pub fn golden_rects(area: Rect, n: u16) -> (rects: Vec<Rect>)
    ensures
        rects@ == golden_seq(area, if n >= 1 { n as int } else { 1 }),
        tiles(rects@, clamped_rect(area.x, area.y, area.width, area.height)),
{
    let mut regions: Vec<Rect> = Vec::with_capacity(n as usize);
    regions.push(Rect::new(area.x, area.y, area.width, area.height));
    assert(regions@ =~= golden_seq(area, 1));
    let mut axis_h: bool = false;
    let mut k: u16 = 1;
    while k < n
        invariant
            1 <= k,
            k <= n || n <= 1 && k == 1,
            regions@ == golden_seq(area, k as int),
            axis_h == ((k - 1) % 2 == 1),
        decreases n - k,
    {
        proof {
            lemma_golden_tiles(area, k as int);
            lemma_golden_keep(regions@[k - 1].height as int);
            lemma_golden_keep(regions@[k - 1].width as int);
        }
        let rec: Rect = regions[(k - 1) as usize];
        assert(fits(rec));
        if axis_h {
            let rounded: u32 = ((rec.height as u32) * 618 + 500) / 1000;
            let at_least_one: u32 = if rounded < 1 { 1 } else { rounded };
            let cap: u32 = rec.height.saturating_sub(1) as u32;
            let kept_h: u16 = (if at_least_one < cap { at_least_one } else { cap }) as u16;
            regions.set((k - 1) as usize, Rect::new(rec.x, rec.y, rec.width, kept_h));
            regions.push(Rect::new(rec.x, rec.y + kept_h, rec.width, rec.height - kept_h));
        } else {
            let rounded: u32 = ((rec.width as u32) * 618 + 500) / 1000;
            let at_least_one: u32 = if rounded < 1 { 1 } else { rounded };
            let cap: u32 = rec.width.saturating_sub(1) as u32;
            let kept_w: u16 = (if at_least_one < cap { at_least_one } else { cap }) as u16;
            regions.set((k - 1) as usize, Rect::new(rec.x, rec.y, kept_w, rec.height));
            regions.push(Rect::new(rec.x + kept_w, rec.y, rec.width - kept_w, rec.height));
        }
        axis_h = !axis_h;
        k = k + 1;
        assert(regions@ =~= golden_seq(area, k as int));
    }
    proof {
        lemma_golden_tiles(area, k as int);
    }
    regions
}

} // verus!
