//! Proportional geometry on concrete rectangles: the splitter's rounding
//! rule, the per-cell grid layout, and the screen split.

use maglab::app::screen_chunks;
use maglab::geometry::{equal_weights, split_rect};
use maglab::{App, ColumnsState, Direction, Plugin, PluginsState, Rect};

fn strip_of(n: usize) -> PluginsState {
    let mut panes = Vec::new();
    for _ in 0..n {
        panes.push(Plugin::HexView);
    }
    PluginsState::new(panes)
}

#[test]
fn equal_weights_are_floored_percentages() {
    let ws = equal_weights(3);
    assert_eq!(ws, vec![33, 33, 33]);
    let ws = equal_weights(1);
    assert_eq!(ws, vec![100]);
    let ws = equal_weights(7);
    assert_eq!(ws, vec![14, 14, 14, 14, 14, 14, 14]);
}

#[test]
fn horizontal_split_floors_each_band_width() {
    let area = Rect { x: 0, y: 0, width: 90, height: 40 };
    let ws = equal_weights(3);
    let chunks = split_rect(area, &ws, Direction::Horizontal);
    assert_eq!(chunks.len(), 3);
    // floor(100 / 3) = 33 percent of 90 columns, floored: 29 cells each.
    for (i, c) in chunks.iter().enumerate() {
        assert_eq!(c.width, 29);
        assert_eq!(c.x, 29 * i as u16);
        assert_eq!(c.y, 0);
        assert_eq!(c.height, 40);
    }
}

#[test]
fn vertical_split_floors_each_band_height() {
    let area = Rect { x: 5, y: 7, width: 30, height: 91 };
    let ws = equal_weights(2);
    let chunks = split_rect(area, &ws, Direction::Vertical);
    assert_eq!(chunks.len(), 2);
    // floor(100 / 2) = 50 percent of 91 rows, floored: 45 cells each.
    assert_eq!(chunks[0], Rect { x: 5, y: 7, width: 30, height: 45 });
    assert_eq!(chunks[1], Rect { x: 5, y: 52, width: 30, height: 45 });
}

#[test]
fn split_with_uneven_weights_keeps_order_and_offsets() {
    let area = Rect { x: 0, y: 0, width: 200, height: 10 };
    let ws = vec![10u16, 40u16, 50u16];
    let chunks = split_rect(area, &ws, Direction::Horizontal);
    assert_eq!(chunks[0], Rect { x: 0, y: 0, width: 20, height: 10 });
    assert_eq!(chunks[1], Rect { x: 20, y: 0, width: 80, height: 10 });
    assert_eq!(chunks[2], Rect { x: 100, y: 0, width: 100, height: 10 });
}

#[test]
fn split_of_tiny_area_gives_zero_width_bands() {
    let area = Rect { x: 0, y: 0, width: 2, height: 2 };
    let ws = equal_weights(3);
    let chunks = split_rect(area, &ws, Direction::Horizontal);
    assert_eq!(chunks.len(), 3);
    for c in &chunks {
        assert_eq!(c.width, 0);
        assert_eq!(c.x, 0);
    }
}

#[test]
fn split_of_largest_area_stays_in_range() {
    let area = Rect { x: 0, y: 0, width: u16::MAX, height: u16::MAX };
    let ws = equal_weights(1);
    let chunks = split_rect(area, &ws, Direction::Horizontal);
    assert_eq!(chunks[0], area);
}

#[test]
fn layout_cells_partitions_columns_and_rows() {
    let grid = ColumnsState::new(vec![strip_of(2), strip_of(1)]);
    let a = App::new("w", grid);
    let area = Rect { x: 0, y: 0, width: 100, height: 90 };
    let cells = a.layout_cells(area);
    assert_eq!(cells.len(), 3);
    // Column bands: floor(100 / 2) = 50 percent of 100 -> 50 wide each.
    // Column 0 rows: 50 percent of 90 -> 45 tall; column 1: one full row.
    assert_eq!(cells[0].rect, Rect { x: 0, y: 0, width: 50, height: 45 });
    assert_eq!(cells[1].rect, Rect { x: 0, y: 45, width: 50, height: 45 });
    assert_eq!(cells[2].rect, Rect { x: 50, y: 0, width: 50, height: 90 });
    assert_eq!((cells[0].col, cells[0].row), (0, 0));
    assert_eq!((cells[1].col, cells[1].row), (0, 1));
    assert_eq!((cells[2].col, cells[2].row), (1, 0));
}

#[test]
fn layout_cells_marks_exactly_the_focused_cell() {
    let mut s0 = strip_of(2);
    s0.next();
    let grid = ColumnsState::new(vec![s0, strip_of(1)]);
    let a = App::new("w", grid);
    let area = Rect { x: 0, y: 0, width: 100, height: 90 };
    let cells = a.layout_cells(area);
    let focused: Vec<(usize, usize)> = cells
        .iter()
        .filter(|c| c.focused)
        .map(|c| (c.col, c.row))
        .collect();
    assert_eq!(focused, vec![(0, 1)]);
}

#[test]
fn screen_split_reserves_three_rows_for_the_tab_bar() {
    let area = Rect { x: 0, y: 0, width: 80, height: 24 };
    let (bar, content) = screen_chunks(area);
    assert_eq!(bar, Rect { x: 0, y: 0, width: 80, height: 3 });
    assert_eq!(content, Rect { x: 0, y: 3, width: 80, height: 21 });

    let short = Rect { x: 0, y: 0, width: 80, height: 2 };
    let (bar, content) = screen_chunks(short);
    assert_eq!(bar.height, 2);
    assert_eq!(content.height, 0);
}
