use multiplexer::render::{build_style, row_to_spans, CellAttrs, CellColor, CellView, Color, Style};

fn attrs() -> CellAttrs {
    CellAttrs {
        fgcolor: CellColor::Idx(3),
        bgcolor: CellColor::Default,
        bold: true,
        italic: false,
        underline: true,
        dim: false,
        inverse: false,
    }
}

fn cell(contents: &str, wide: bool, continuation: bool) -> Option<CellView> {
    Some(CellView {
        attrs: attrs(),
        contents: contents.to_string(),
        has_contents: !contents.is_empty(),
        is_wide: wide,
        is_wide_continuation: continuation,
    })
}

#[test]
fn styles_map_colors_and_modifiers() {
    let s = build_style(&attrs());
    assert_eq!(s.fg, Some(Color::Indexed(3)));
    assert_eq!(s.bg, Some(Color::Reset));
    assert!(s.bold && s.underlined && !s.italic && !s.dim);
    let inv = build_style(&CellAttrs { inverse: true, bgcolor: CellColor::Rgb(1, 2, 3), ..attrs() });
    assert_eq!(inv.fg, Some(Color::Rgb(1, 2, 3)));
    assert_eq!(inv.bg, Some(Color::Indexed(3)));
}

#[test]
fn rows_become_spans() {
    let row = vec![cell("a", false, false), cell("", false, false), cell("界", true, false), cell("", false, true), None];
    let spans = row_to_spans(&row, 6);
    let texts: Vec<&str> = spans.iter().map(|s| s.content.as_str()).collect();
    assert_eq!(texts, vec!["a", " ", "界", " ", " "]);
    assert_eq!(spans[4].style, Style::default());
    assert_eq!(spans[0].style, build_style(&attrs()));
}

#[test]
fn wide_cell_then_continuation_marker() {
    let row = vec![cell("x", false, true), cell("y", false, false)];
    let spans = row_to_spans(&row, 2);
    let texts: Vec<&str> = spans.iter().map(|s| s.content.as_str()).collect();
    assert_eq!(texts, vec![" ", "y"]);
    assert_eq!(spans[0].style, Style::default());
}
