//! Strip, grid, and tab-set operations on concrete layouts.

use maglab::{App, ColumnsState, FileManager, Plugin, PluginsState, TabsState};

fn strip_of(n: usize) -> PluginsState {
    let mut panes = Vec::new();
    for _ in 0..n {
        panes.push(Plugin::HexView);
    }
    PluginsState::new(panes)
}

fn grid_of(cols: &[usize]) -> ColumnsState {
    let mut strips = Vec::new();
    for &n in cols {
        strips.push(strip_of(n));
    }
    ColumnsState::new(strips)
}

#[test]
fn strip_focus_next_wraps_around() {
    let mut s = strip_of(3);
    assert_eq!(s.index, 0);
    s.next();
    assert_eq!(s.index, 1);
    s.next();
    assert_eq!(s.index, 2);
    s.next();
    assert_eq!(s.index, 0);
}

#[test]
fn strip_focus_previous_wraps_around() {
    let mut s = strip_of(3);
    s.previous();
    assert_eq!(s.index, 2);
    s.previous();
    assert_eq!(s.index, 1);
    s.previous();
    assert_eq!(s.index, 0);
}

#[test]
fn strip_single_pane_focus_is_fixed() {
    let mut s = strip_of(1);
    s.next();
    assert_eq!(s.index, 0);
    s.previous();
    assert_eq!(s.index, 0);
}

#[test]
fn strip_insert_at_top_keeps_focus_index() {
    let mut s = PluginsState::new(vec![Plugin::HexView, Plugin::Parser]);
    s.next();
    s.insert_pane_at(0, Plugin::Parser);
    assert_eq!(s.plugins.len(), 3);
    assert!(matches!(s.plugins[0], Plugin::Parser));
    assert!(matches!(s.plugins[1], Plugin::HexView));
    assert_eq!(s.index, 1);
}

#[test]
fn strip_remove_focused_middle_keeps_index() {
    let mut s = PluginsState::new(vec![Plugin::HexView, Plugin::Parser, Plugin::HexView]);
    s.next();
    s.remove_focused();
    assert_eq!(s.plugins.len(), 2);
    assert_eq!(s.index, 1);
    assert!(matches!(s.plugins[1], Plugin::HexView));
}

#[test]
fn strip_remove_focused_last_moves_to_previous() {
    let mut s = strip_of(3);
    s.next();
    s.next();
    s.remove_focused();
    assert_eq!(s.plugins.len(), 2);
    assert_eq!(s.index, 1);
}

#[test]
fn grid_add_right_from_last_column_appends_strip() {
    let mut g = grid_of(&[1]);
    g.add_plugin(Plugin::Parser);
    assert_eq!(g.columns.len(), 2);
    assert_eq!(g.columns[1].plugins.len(), 1);
    assert!(matches!(g.columns[1].plugins[0], Plugin::Parser));
    assert_eq!(g.index, 1);
    assert_eq!(g.columns[1].index, 0);
}

#[test]
fn grid_add_right_mid_grid_tops_next_column() {
    let mut g = grid_of(&[1, 2, 1]);
    assert_eq!(g.index, 0);
    g.add_plugin(Plugin::Parser);
    assert_eq!(g.columns.len(), 3);
    assert_eq!(g.columns[1].plugins.len(), 3);
    assert!(matches!(g.columns[1].plugins[0], Plugin::Parser));
    assert_eq!(g.index, 1);
    assert_eq!(g.columns[1].index, 0);
}

#[test]
fn grid_remove_collapses_single_pane_strip() {
    let mut g = grid_of(&[2, 1]);
    g.next();
    assert_eq!(g.index, 1);
    g.remove_plugin();
    assert_eq!(g.columns.len(), 1);
    assert_eq!(g.index, 0);
    assert_eq!(g.columns[0].plugins.len(), 2);
}

#[test]
fn grid_remove_mid_strip_keeps_strip_and_index() {
    let mut s = strip_of(3);
    s.next();
    let mut g = ColumnsState::new(vec![s]);
    assert_eq!(g.columns[0].index, 1);
    g.remove_plugin();
    assert_eq!(g.columns.len(), 1);
    assert_eq!(g.columns[0].plugins.len(), 2);
    assert_eq!(g.columns[0].index, 1);
}

#[test]
fn grid_remove_last_row_decrements_row_focus() {
    let mut s = strip_of(3);
    s.next();
    s.next();
    let mut g = ColumnsState::new(vec![s]);
    assert_eq!(g.columns[0].index, 2);
    g.remove_plugin();
    assert_eq!(g.columns[0].plugins.len(), 2);
    assert_eq!(g.columns[0].index, 1);
}

#[test]
fn grid_remove_collapsed_last_column_moves_focus_left() {
    let mut g = grid_of(&[1, 1, 1]);
    g.next();
    g.next();
    assert_eq!(g.index, 2);
    g.remove_plugin();
    assert_eq!(g.columns.len(), 2);
    assert_eq!(g.index, 1);
}

#[test]
fn grid_column_focus_wraps_both_ways() {
    let mut g = grid_of(&[1, 1, 1]);
    g.previous();
    assert_eq!(g.index, 2);
    g.next();
    assert_eq!(g.index, 0);
}

#[test]
fn workspace_passthroughs_move_both_axes() {
    let mut a = App::new("work", grid_of(&[2, 2]));
    a.next_column();
    assert_eq!(a.grid.index, 1);
    a.previous_column();
    assert_eq!(a.grid.index, 0);
    a.next_line();
    assert_eq!(a.grid.columns[0].index, 1);
    a.previous_line();
    assert_eq!(a.grid.columns[0].index, 0);
    assert_eq!(a.title, "work");
}

#[test]
fn tabs_switching_wraps_around() {
    let mut t = TabsState::new(vec![
        App::new("a", grid_of(&[1])),
        App::new("b", grid_of(&[1])),
    ]);
    assert_eq!(t.index, 0);
    t.next();
    assert_eq!(t.index, 1);
    t.next();
    assert_eq!(t.index, 0);
    t.previous();
    assert_eq!(t.index, 1);
}

#[test]
fn tabs_remove_last_tab_is_guarded() {
    let mut t = TabsState::new(vec![App::new("only", grid_of(&[1]))]);
    let last = t.remove_tab();
    assert!(last);
    assert_eq!(t.apps.len(), 1);
    assert_eq!(t.index, 0);
}

#[test]
fn tabs_remove_middle_tab_keeps_index() {
    let mut t = TabsState::new(vec![
        App::new("a", grid_of(&[1])),
        App::new("b", grid_of(&[1])),
        App::new("c", grid_of(&[1])),
    ]);
    t.next();
    let last = t.remove_tab();
    assert!(!last);
    assert_eq!(t.apps.len(), 2);
    assert_eq!(t.index, 1);
    assert_eq!(t.apps[1].title, "c");
}

#[test]
fn tabs_remove_last_index_moves_previous() {
    let mut t = TabsState::new(vec![
        App::new("a", grid_of(&[1])),
        App::new("b", grid_of(&[1])),
    ]);
    t.next();
    let last = t.remove_tab();
    assert!(!last);
    assert_eq!(t.apps.len(), 1);
    assert_eq!(t.index, 0);
    assert_eq!(t.apps[0].title, "a");
}

#[test]
fn file_manager_pane_keeps_its_path() {
    let fm = FileManager::new(".");
    assert_eq!(fm.path, ".");
    let mut s = PluginsState::new(vec![Plugin::FileManager(fm), Plugin::HexView]);
    s.next();
    s.remove_focused();
    assert!(matches!(&s.plugins[0], Plugin::FileManager(f) if f.path == "."));
}
