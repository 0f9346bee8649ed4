//! The binding table, per-event dispatch, and the scripted consume-redraw
//! loop.

use maglab::app::screen_chunks;
use maglab::{
    App, ColumnsState, Event, KeyCode, KeyConfig, KeyEvent, KeyMods, MagLabApp, Plugin,
    PluginsState, Rect, TabsState,
};

fn strip_of(n: usize) -> PluginsState {
    let mut panes = Vec::new();
    for _ in 0..n {
        panes.push(Plugin::HexView);
    }
    PluginsState::new(panes)
}

fn grid_of(cols: &[usize]) -> ColumnsState {
    let mut strips = Vec::new();
    for &n in cols {
        strips.push(strip_of(n));
    }
    ColumnsState::new(strips)
}

fn app_of<'a>(tabs: Vec<&'a str>, cols: &[usize]) -> MagLabApp<'a> {
    let mut apps = Vec::new();
    for t in tabs {
        apps.push(App::new(t, grid_of(cols)));
    }
    MagLabApp::new("MagLab", TabsState::new(apps))
}

fn no_mods() -> KeyMods {
    KeyMods { shift: false, control: false, alt: false }
}

fn ctrl() -> KeyMods {
    KeyMods { shift: false, control: true, alt: false }
}

fn shift() -> KeyMods {
    KeyMods { shift: true, control: false, alt: false }
}

#[test]
fn default_bindings_match_the_documented_table() {
    let cfg = KeyConfig::init();
    assert_eq!(cfg, KeyConfig::default());
    assert_eq!(cfg.focus_left, KeyEvent { code: KeyCode::Left, modifiers: no_mods() });
    assert_eq!(cfg.focus_right, KeyEvent { code: KeyCode::Right, modifiers: no_mods() });
    assert_eq!(cfg.focus_up, KeyEvent { code: KeyCode::Up, modifiers: no_mods() });
    assert_eq!(cfg.focus_down, KeyEvent { code: KeyCode::Down, modifiers: no_mods() });
    assert_eq!(cfg.new_plugin, KeyEvent { code: KeyCode::Char('n'), modifiers: ctrl() });
    assert_eq!(cfg.remove_plugin, KeyEvent { code: KeyCode::Char('r'), modifiers: ctrl() });
    assert_eq!(cfg.move_left, KeyEvent { code: KeyCode::Left, modifiers: ctrl() });
    assert_eq!(cfg.tab_right, KeyEvent { code: KeyCode::Right, modifiers: shift() });
    assert_eq!(cfg.tab_left, KeyEvent { code: KeyCode::Left, modifiers: shift() });
    assert_eq!(cfg.quit, KeyEvent { code: KeyCode::Char('q'), modifiers: ctrl() });
}

#[test]
fn tab_and_focus_commands_move_the_right_index() {
    let cfg = KeyConfig::init();
    let mut app = app_of(vec!["a", "b"], &[2, 2]);

    app.handle_event(&Event::Input(cfg.tab_right), &cfg);
    assert_eq!(app.tabs.index, 1);
    app.handle_event(&Event::Input(cfg.tab_left), &cfg);
    assert_eq!(app.tabs.index, 0);

    app.handle_event(&Event::Input(cfg.focus_right), &cfg);
    assert_eq!(app.tabs.apps[0].grid.index, 1);
    app.handle_event(&Event::Input(cfg.focus_left), &cfg);
    assert_eq!(app.tabs.apps[0].grid.index, 0);

    app.handle_event(&Event::Input(cfg.focus_down), &cfg);
    assert_eq!(app.tabs.apps[0].grid.columns[0].index, 1);
    app.handle_event(&Event::Input(cfg.focus_up), &cfg);
    assert_eq!(app.tabs.apps[0].grid.columns[0].index, 0);
}

#[test]
fn new_pane_command_adds_to_the_right_and_focuses_it() {
    let cfg = KeyConfig::init();
    let mut app = app_of(vec!["a"], &[1]);
    app.handle_event(&Event::Input(cfg.new_plugin), &cfg);
    let grid = &app.tabs.apps[0].grid;
    assert_eq!(grid.columns.len(), 2);
    assert_eq!(grid.index, 1);
    assert_eq!(grid.columns[1].index, 0);
    assert!(matches!(grid.columns[1].plugins[0], Plugin::HexView));
}

#[test]
fn remove_pane_command_removes_the_focused_pane() {
    let cfg = KeyConfig::init();
    let mut app = app_of(vec!["a"], &[1, 2]);
    app.handle_event(&Event::Input(cfg.remove_plugin), &cfg);
    let grid = &app.tabs.apps[0].grid;
    assert_eq!(grid.columns.len(), 1);
    assert_eq!(grid.columns[0].plugins.len(), 2);
    assert!(!app.should_quit);
}

#[test]
fn removing_the_last_pane_of_a_tab_removes_the_tab() {
    let cfg = KeyConfig::init();
    let mut app = app_of(vec!["a", "b"], &[1]);
    app.handle_event(&Event::Input(cfg.remove_plugin), &cfg);
    assert_eq!(app.tabs.apps.len(), 1);
    assert_eq!(app.tabs.apps[0].title, "b");
    assert!(!app.should_quit);
}

#[test]
fn removing_the_last_pane_of_the_last_tab_quits() {
    let cfg = KeyConfig::init();
    let mut app = app_of(vec!["only"], &[1]);
    app.handle_event(&Event::Input(cfg.remove_plugin), &cfg);
    assert!(app.should_quit);
    assert_eq!(app.tabs.apps.len(), 1);
    assert_eq!(app.tabs.apps[0].grid.columns[0].plugins.len(), 1);
}

#[test]
fn quit_command_raises_the_flag_and_nothing_else() {
    let cfg = KeyConfig::init();
    let mut app = app_of(vec!["a"], &[2]);
    app.handle_event(&Event::Input(cfg.quit), &cfg);
    assert!(app.should_quit);
    assert_eq!(app.tabs.apps[0].grid.columns[0].plugins.len(), 2);
}

#[test]
fn unbound_keys_and_ticks_change_nothing() {
    let cfg = KeyConfig::init();
    let mut app = app_of(vec!["a"], &[2]);
    let stray = KeyEvent { code: KeyCode::Char('x'), modifiers: no_mods() };
    app.handle_event(&Event::Input(stray), &cfg);
    app.handle_event(&Event::Tick, &cfg);
    assert!(!app.should_quit);
    assert_eq!(app.tabs.index, 0);
    assert_eq!(app.tabs.apps[0].grid.index, 0);
    assert_eq!(app.tabs.apps[0].grid.columns[0].plugins.len(), 2);
}

#[test]
fn on_key_quits_only_on_q() {
    let mut app = app_of(vec!["a"], &[1]);
    app.on_key('x');
    assert!(!app.should_quit);
    app.on_key('q');
    assert!(app.should_quit);
}

#[test]
fn scripted_run_redraws_once_per_message() {
    let cfg = KeyConfig::init();
    let mut app = app_of(vec!["a"], &[1]);
    let area = Rect { x: 0, y: 0, width: 80, height: 24 };
    let script = vec![
        Event::Input(cfg.new_plugin),
        Event::Tick,
        Event::Input(cfg.focus_left),
        Event::Tick,
    ];
    let frames = app.run_script(&script, &cfg, area);
    // Two inputs and two ticks: exactly four redraws.
    assert_eq!(frames.len(), 4);
    // The first redraw already reflects the added pane...
    assert_eq!(frames[0].len(), 2);
    // ...and a tick redraws the unchanged layout.
    assert_eq!(frames[1], frames[0]);
    assert_eq!(frames[3], frames[2]);
}

#[test]
fn scripted_run_stops_at_the_quit_message() {
    let cfg = KeyConfig::init();
    let mut app = app_of(vec!["a"], &[1]);
    let area = Rect { x: 0, y: 0, width: 80, height: 24 };
    let script = vec![
        Event::Tick,
        Event::Input(cfg.quit),
        Event::Input(cfg.new_plugin),
    ];
    let frames = app.run_script(&script, &cfg, area);
    // The quit message is redrawn, the rest of the script is not consumed.
    assert_eq!(frames.len(), 2);
    assert!(app.should_quit);
    assert_eq!(app.tabs.apps[0].grid.columns.len(), 1);
}

#[test]
fn frames_lay_out_the_active_workspace_in_the_content_band() {
    let cfg = KeyConfig::init();
    let mut app = app_of(vec!["a"], &[1]);
    let area = Rect { x: 0, y: 0, width: 80, height: 24 };
    let (_, content) = screen_chunks(area);
    let frames = app.run_script(&vec![Event::Tick], &cfg, area);
    assert_eq!(frames[0].len(), 1);
    assert_eq!(frames[0][0].rect, content);
    assert!(frames[0][0].focused);
}
