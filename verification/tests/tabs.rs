use multiplexer::layout::{golden_rects, grid_rects, horizontal_rects, vertical_rects, Rect};
use multiplexer::tabs::{Grid, Tab};

fn area() -> Rect {
    Rect::new(2, 3, 80, 24)
}

fn rects(grid: Grid, n: u16) -> Vec<Rect> {
    match grid {
        Grid::Horizontal => horizontal_rects(area(), n),
        Grid::Vertical => vertical_rects(area(), n),
        Grid::Square => grid_rects(area(), n),
        Grid::Golden => golden_rects(area(), n),
    }
}

fn assert_tiled(tile: &[Rect]) {
    let whole = area();
    for (i, r) in tile.iter().enumerate() {
        assert!(r.width > 0 && r.height > 0, "rect {i} empty: {r:?}");
        assert!(
            r.x >= whole.x && r.y >= whole.y && r.right() <= whole.right() && r.bottom() <= whole.bottom(),
            "rect {i} escapes area: {r:?}"
        );
    }
    let covered: u32 = tile.iter().map(|r| r.width as u32 * r.height as u32).sum();
    assert_eq!(
        covered,
        u32::from(whole.width) * u32::from(whole.height),
        "rects do not tile the area exactly"
    );
    for (i, a) in tile.iter().enumerate() {
        for (j, b) in tile.iter().enumerate() {
            if i != j {
                assert!(
                    a.x >= b.right() || b.x >= a.right() || a.y >= b.bottom() || b.y >= a.bottom(),
                    "rects {i} and {j} overlap: {a:?} vs {b:?}"
                );
            }
        }
    }
}

#[test]
fn split_zero_panes_is_empty() {
    assert!(rects(Grid::Horizontal, 0).is_empty());
    assert!(rects(Grid::Vertical, 0).is_empty());
    assert!(rects(Grid::Square, 0).is_empty());
}

#[test]
fn horizontal_splits_exact() {
    assert_eq!(
        rects(Grid::Horizontal, 3),
        vec![Rect::new(2, 3, 80, 8), Rect::new(2, 11, 80, 8), Rect::new(2, 19, 80, 8)]
    );
    assert_eq!(
        rects(Grid::Horizontal, 4),
        vec![
            Rect::new(2, 3, 80, 6),
            Rect::new(2, 9, 80, 6),
            Rect::new(2, 15, 80, 6),
            Rect::new(2, 21, 80, 6),
        ]
    );
}

#[test]
fn vertical_splits_exact() {
    assert_eq!(
        rects(Grid::Vertical, 5),
        vec![
            Rect::new(2, 3, 16, 24),
            Rect::new(18, 3, 16, 24),
            Rect::new(34, 3, 16, 24),
            Rect::new(50, 3, 16, 24),
            Rect::new(66, 3, 16, 24),
        ]
    );
    assert_eq!(
        rects(Grid::Vertical, 7),
        vec![
            Rect::new(2, 3, 12, 24),
            Rect::new(14, 3, 12, 24),
            Rect::new(26, 3, 12, 24),
            Rect::new(38, 3, 11, 24),
            Rect::new(49, 3, 11, 24),
            Rect::new(60, 3, 11, 24),
            Rect::new(71, 3, 11, 24),
        ]
    );
}

#[test]
fn square_grid_exact() {
    assert_eq!(
        rects(Grid::Square, 5),
        vec![
            Rect::new(2, 3, 27, 12),
            Rect::new(29, 3, 27, 12),
            Rect::new(56, 3, 26, 12),
            Rect::new(2, 15, 40, 12),
            Rect::new(42, 15, 40, 12),
        ]
    );
    assert_eq!(
        rects(Grid::Square, 7),
        vec![
            Rect::new(2, 3, 27, 8),
            Rect::new(29, 3, 27, 8),
            Rect::new(56, 3, 26, 8),
            Rect::new(2, 11, 27, 8),
            Rect::new(29, 11, 27, 8),
            Rect::new(56, 11, 26, 8),
            Rect::new(2, 19, 80, 8),
        ]
    );
}

#[test]
fn golden_splits_exact() {
    assert_eq!(
        rects(Grid::Golden, 4),
        vec![
            Rect::new(2, 3, 49, 24),
            Rect::new(51, 3, 31, 15),
            Rect::new(51, 18, 19, 9),
            Rect::new(70, 18, 12, 9),
        ]
    );
}

#[test]
fn all_grids_fill_area_for_n_1_to_8() {
    let whole = area();
    for n in 1..=8u16 {
        for grid in [Grid::Horizontal, Grid::Vertical, Grid::Square] {
            let tile = rects(grid, n);
            assert_eq!(tile.len(), n as usize, "{grid:?} n={n}");
            assert_tiled(&tile);
        }
        for r in rects(Grid::Golden, n) {
            assert!(r.width > 0 && r.height > 0);
            assert!(r.x >= whole.x && r.y >= whole.y);
            assert!(r.right() <= whole.right() && r.bottom() <= whole.bottom());
        }
    }
}

#[test]
fn deleting_the_only_pane_empties_the_tab() {
    let mut tab = Tab::new('x');
    tab.del_pane();
    assert!(tab.panes.is_empty());
    assert_eq!(tab.active, 0);
    assert_eq!(tab.grid, Grid::Horizontal);
}

#[test]
fn deleting_the_last_pane_activates_the_one_before() {
    let mut tab = Tab::new(1u8);
    tab.panes.push(2);
    tab.panes.push(3);
    tab.active = 2;
    tab.del_pane();
    assert_eq!(tab.panes, vec![1, 2]);
    assert_eq!(tab.active, 1);
    tab.active = 0;
    tab.del_pane();
    assert_eq!(tab.panes, vec![2]);
    assert_eq!(tab.active, 0);
}
