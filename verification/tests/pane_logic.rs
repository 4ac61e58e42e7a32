use multiplexer::layout::{Margin, Rect};
use multiplexer::pane::{pane_viewport, resize_target, scroll_down_offset, scroll_up_offset, sync_title};
use multiplexer::tabs::{layout_rects, pane_size, Grid};

#[test]
fn title_follows_the_program_until_it_exits() {
    let mut title = "~".to_string();
    assert!(!sync_title(&mut title, None, false));
    assert_eq!(title, "~");
    assert!(sync_title(&mut title, Some("vim".to_string()), false));
    assert_eq!(title, "vim");
    assert!(sync_title(&mut title, Some("bye".to_string()), true));
    assert_eq!(title, "[exited] vim");
    assert!(sync_title(&mut title, Some("again".to_string()), true));
    assert_eq!(title, "again");
}

#[test]
fn resize_only_when_the_size_changes() {
    assert_eq!(resize_target((24, 80), 24, 80), None);
    assert_eq!(resize_target((24, 80), 0, 80), Some((1, 80)));
    assert_eq!(resize_target((1, 1), 0, 0), None);
    assert_eq!(resize_target((24, 80), 30, 100), Some((30, 100)));
}

#[test]
fn scroll_offsets_saturate() {
    assert_eq!(scroll_up_offset(3, 4), 7);
    assert_eq!(scroll_up_offset(usize::MAX - 1, 4), usize::MAX);
    assert_eq!(scroll_down_offset(7, 4), 3);
    assert_eq!(scroll_down_offset(3, 4), 0);
    assert_eq!(scroll_down_offset(scroll_up_offset(10, 24), 24), 10);
}

#[test]
fn viewport_rows_and_cursor() {
    let area = Rect::new(10, 5, 40, 12);
    let v = pane_viewport(area, 24, 3, 7, 0, true);
    assert_eq!(v.rows, 10);
    assert_eq!(v.cursor, Some((18, 9)));
    let v = pane_viewport(area, 6, 3, 100, 2, true);
    assert_eq!(v.rows, 6);
    assert_eq!(v.cursor, Some((48, 11)));
    let v = pane_viewport(area, 6, 9, 0, 1, true);
    assert_eq!(v.cursor, None);
    let v = pane_viewport(area, 24, 3, 7, 0, false);
    assert_eq!(v.cursor, None);
}

#[test]
fn rect_helpers_follow_ratatui() {
    assert_eq!(Rect::new(65530, 0, 10, 1), Rect { x: 65530, y: 0, width: 5, height: 1 });
    let inner = Rect::new(2, 3, 10, 6).inner(Margin { horizontal: 1, vertical: 1 });
    assert_eq!(inner, Rect { x: 3, y: 4, width: 8, height: 4 });
    let none = Rect::new(2, 3, 1, 6).inner(Margin { horizontal: 1, vertical: 1 });
    assert_eq!(none, Rect { x: 0, y: 0, width: 0, height: 0 });
    assert_eq!(Rect::new(65530, 0, 5, 1).right(), 65535);
}

#[test]
fn pane_terminal_size_leaves_the_border() {
    assert_eq!(pane_size(Rect::new(0, 0, 80, 24)), (22, 78));
    assert_eq!(pane_size(Rect::new(0, 0, 2, 1)), (1, 1));
    let area = Rect::new(0, 0, 80, 24);
    assert_eq!(layout_rects(Grid::Vertical, area, 2)[1], Rect::new(40, 0, 40, 24));
    assert_eq!(layout_rects(Grid::Golden, area, 0), vec![area]);
    assert_eq!(layout_rects(Grid::Square, area, 1), vec![area]);
}
