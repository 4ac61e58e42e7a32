//! Turning the cells of a pane's virtual terminal into styled text.

use vstd::prelude::*;
use vstd::string::StringExecFns;

verus! {

/// A colour as the virtual terminal stores it.
#[derive(Clone, Copy, Debug, PartialEq, Eq, Structural)]
pub enum CellColor {
    Default,
    Idx(u8),
    Rgb(u8, u8, u8),
}

/// A colour as it is drawn.
#[derive(Clone, Copy, Debug, PartialEq, Eq, Structural)]
pub enum Color {
    Reset,
    Indexed(u8),
    Rgb(u8, u8, u8),
}

/// The attributes of one terminal cell.
#[derive(Clone, Copy, Debug, PartialEq, Eq, Structural)]
pub struct CellAttrs {
    pub fgcolor: CellColor,
    pub bgcolor: CellColor,
    pub bold: bool,
    pub italic: bool,
    pub underline: bool,
    pub dim: bool,
    pub inverse: bool,
}

/// A drawing style: colours, when set, and the added modifiers.
#[derive(Clone, Copy, Debug, PartialEq, Eq, Structural)]
pub struct Style {
    pub fg: Option<Color>,
    pub bg: Option<Color>,
    pub bold: bool,
    pub italic: bool,
    pub underlined: bool,
    pub dim: bool,
}

/// The style that sets nothing.
pub open spec fn plain_style() -> Style {
    Style { fg: None, bg: None, bold: false, italic: false, underlined: false, dim: false }
}

impl Default for Style {
    fn default() -> (s: Style)
        ensures
            s == plain_style(),
    {
        Style { fg: None, bg: None, bold: false, italic: false, underlined: false, dim: false }
    }
}

/// The drawn colour of a terminal colour: the terminal default becomes the
/// reset colour, indexed and RGB colours stay as they are.
pub open spec fn color_of(c: CellColor) -> Color {
    match c {
        CellColor::Default => Color::Reset,
        CellColor::Idx(n) => Color::Indexed(n),
        CellColor::Rgb(r, g, b) => Color::Rgb(r, g, b),
    }
}

/// The style of a cell: its colours (swapped when inverse) and its bold,
/// italic, underline and dim attributes.
pub open spec fn build_style_spec(cell: CellAttrs) -> Style {
    let fg = color_of(cell.fgcolor);
    let bg = color_of(cell.bgcolor);
    Style {
        fg: Some(if cell.inverse { bg } else { fg }),
        bg: Some(if cell.inverse { fg } else { bg }),
        bold: cell.bold,
        italic: cell.italic,
        underlined: cell.underline,
        dim: cell.dim,
    }
}

/// Inverse video swaps the foreground and background colours and keeps the
/// modifiers.
pub proof fn lemma_inverse_swaps_colors(cell: CellAttrs)
    ensures
        ({
            let normal = build_style_spec(CellAttrs { inverse: false, ..cell });
            let inverted = build_style_spec(CellAttrs { inverse: true, ..cell });
            &&& inverted.fg == normal.bg
            &&& inverted.bg == normal.fg
            &&& inverted.bold == normal.bold && inverted.italic == normal.italic
            &&& inverted.underlined == normal.underlined && inverted.dim == normal.dim
        }),
{
}

fn convert_color(c: CellColor) -> (r: Color)
    ensures
        r == color_of(c),
{
    match c {
        CellColor::Default => Color::Reset,
        CellColor::Idx(n) => Color::Indexed(n),
        CellColor::Rgb(r, g, b) => Color::Rgb(r, g, b),
    }
}

/// The style a cell is drawn with.
pub fn build_style(cell: &CellAttrs) -> (style: Style)
    ensures
        style == build_style_spec(*cell),
{
    let mut style = Style::default();
    style.fg = Some(convert_color(cell.fgcolor));
    style.bg = Some(convert_color(cell.bgcolor));
    if cell.bold {
        style.bold = true;
    }
    if cell.italic {
        style.italic = true;
    }
    if cell.underline {
        style.underlined = true;
    }
    if cell.dim {
        style.dim = true;
    }
    if cell.inverse {
        let fg = match style.fg {
            Some(c) => c,
            None => Color::Reset,
        };
        style.fg = Some(match style.bg {
            Some(c) => c,
            None => Color::Reset,
        });
        style.bg = Some(fg);
    }
    style
}

/// One cell of the virtual terminal, as the renderer reads it.
pub struct CellView {
    pub attrs: CellAttrs,
    pub contents: String,
    pub has_contents: bool,
    pub is_wide: bool,
    pub is_wide_continuation: bool,
}

/// A run of text drawn in one style.
pub struct Span {
    pub content: String,
    pub style: Style,
}

/// A span seen as characters and style.
pub struct SpanView {
    pub content: Seq<char>,
    pub style: Style,
}

impl View for Span {
    type V = SpanView;

    open spec fn view(&self) -> SpanView {
        SpanView { content: self.content@, style: self.style }
    }
}

/// The span drawn for an occupied cell: its contents, or a space when it
/// holds none, in the cell's style.
pub open spec fn cell_span(c: CellView) -> SpanView {
    SpanView {
        content: if c.has_contents { c.contents@ } else { seq![' '] },
        style: build_style_spec(c.attrs),
    }
}

/// A space in the plain style.
pub open spec fn blank_span() -> SpanView {
    SpanView { content: seq![' '], style: plain_style() }
}

/// The cell at column `col` of `row`, if the row has one.
pub open spec fn cell_at(row: Seq<Option<CellView>>, col: int) -> Option<CellView> {
    if 0 <= col < row.len() {
        row[col]
    } else {
        None
    }
}

/// The spans of a row of `cols` columns, from column `col` on: an occupied
/// cell gives its span (a wide one also covers the next column), a missing
/// cell or the continuation of a wide one gives a blank.
pub open spec fn row_spans(row: Seq<Option<CellView>>, cols: int, col: int) -> Seq<SpanView>
    decreases cols + 1 - col,
{
    if col >= cols || col < 0 {
        Seq::empty()
    } else {
        match cell_at(row, col) {
            Some(c) => if !c.is_wide_continuation {
                seq![cell_span(c)] + row_spans(row, cols, col + if c.is_wide { 2int } else { 1 })
            } else {
                seq![blank_span()] + row_spans(row, cols, col + 1)
            },
            None => seq![blank_span()] + row_spans(row, cols, col + 1),
        }
    }
}

/// A wide cell in the last column of a row as wide as `u16` allows, which
/// would push the column count past `u16::MAX`.
pub open spec fn wide_at_edge(row: Seq<Option<CellView>>, cols: u16) -> bool {
    cols == u16::MAX && match cell_at(row, u16::MAX - 1) {
        Some(c) => !c.is_wide_continuation && c.is_wide,
        None => false,
    }
}

/// The views of a sequence of spans.
pub open spec fn span_views(spans: Seq<Span>) -> Seq<SpanView> {
    spans.map_values(|s: Span| s@)
}

/// The spans of one row of `cols` columns.
pub fn row_to_spans(row: &Vec<Option<CellView>>, cols: u16) -> (spans: Vec<Span>)
    requires
        !wide_at_edge(row@, cols),
    ensures
        span_views(spans@) == row_spans(row@, cols as int, 0),
{
    let mut spans: Vec<Span> = Vec::new();
    let mut col: u16 = 0;
    while col < cols
        invariant
            !wide_at_edge(row@, cols),
            span_views(spans@) + row_spans(row@, cols as int, col as int) == row_spans(row@, cols as int, 0),
            col <= cols || col == cols + 1,
        decreases cols + 1 - col,
    {
        let ghost before = spans@;
        let ghost start: int = col as int;
        let present: bool = (col as usize) < row.len() && row[col as usize].is_some();
        if present {
            let cell: &CellView = row[col as usize].as_ref().unwrap();
            if !cell.is_wide_continuation {
                let style = build_style(&cell.attrs);
                let content = if cell.has_contents {
                    cell.contents.clone()
                } else {
                    let s = String::from_str(" ");
                    proof {
                        reveal_strlit(" ");
                    }
                    s
                };
                assert(content@ == cell_span(*cell).content);
                assert(cell_at(row@, start) == Some(*cell));
                spans.push(Span { content, style });
                if cell.is_wide {
                    col += 1;
                }
            } else {
                let s = String::from_str(" ");
                proof {
                    reveal_strlit(" ");
                }
                assert(s@ == seq![' ']);
                assert(cell_at(row@, start) == Some(*cell));
                spans.push(Span { content: s, style: Style::default() });
            }
        } else {
            let s = String::from_str(" ");
            proof {
                reveal_strlit(" ");
            }
            assert(s@ == seq![' ']);
            assert(cell_at(row@, start) is None);
            spans.push(Span { content: s, style: Style::default() });
        }
        col += 1;
        assert(spans@.last()@ == (match cell_at(row@, start) {
            Some(c) => if !c.is_wide_continuation { cell_span(c) } else { blank_span() },
            None => blank_span(),
        }));
        assert(row_spans(row@, cols as int, start) == seq![spans@.last()@] + row_spans(row@, cols as int, col as int));
        assert(span_views(spans@) =~= span_views(before).push(spans@.last()@));
        assert(span_views(spans@) + row_spans(row@, cols as int, col as int) =~= span_views(before) + (seq![spans@.last()@] + row_spans(row@, cols as int, col as int)));
    }
    assert(row_spans(row@, cols as int, col as int) =~= Seq::<SpanView>::empty());
    assert(span_views(spans@) =~= span_views(spans@) + Seq::<SpanView>::empty());
    spans
}

/// From any column of a row, the first span is that column's: a present
/// cell that is not the continuation of a wide one is drawn in that cell's
/// style, whether or not it holds anything (a space stands for an empty
/// cell), and a missing cell or a continuation is a space in the plain
/// style.
pub proof fn lemma_span_of_column(row: Seq<Option<CellView>>, cols: int, col: int)
    requires
        0 <= col < cols,
    ensures
        row_spans(row, cols, col).len() >= 1,
        ({
            let first = row_spans(row, cols, col)[0];
            match cell_at(row, col) {
                Some(c) => if !c.is_wide_continuation {
                    &&& first.style == build_style_spec(c.attrs)
                    &&& first.content == if c.has_contents { c.contents@ } else { seq![' '] }
                } else {
                    first.style == plain_style() && first.content == seq![' ']
                },
                None => first.style == plain_style() && first.content == seq![' '],
            }
        }),
{
}

} // verus!
