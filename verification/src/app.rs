//! The root application: a titled set of tabs, a quit flag, and the
//! dispatcher that turns consumed messages into layout mutations and redraw
//! frames.

use vstd::prelude::*;

use crate::geometry::{grid_cells, CellGeom, Rect};
use crate::keys::{KeyConfig, KeyEvent};
use crate::pane::Plugin;
use crate::tabs::{TabsState, TabsV};
use crate::workspace::AppV;

verus! {

/// One message consumed by the foreground loop: either a key press or the
/// periodic tick produced when no input arrived within the tick interval.
#[derive(Clone, Copy, PartialEq, Eq, Structural, Debug)]
pub enum Event {
    Input(KeyEvent),
    Tick,
}

/// Mathematical model of the whole application.
#[verifier::ext_equal]
pub struct MagV {
    pub title: Seq<char>,
    pub quit: bool,
    pub tabs: TabsV,
}

impl MagV {
    /// The application is well formed while its tab set is.
    pub open spec fn wf(self) -> bool {
        self.tabs.wf()
    }

    /// The workspace of the active tab.
    pub open spec fn active_app(self) -> AppV {
        self.tabs.apps[self.tabs.active]
    }

    /// The same application with the active workspace's grid replaced.
    pub open spec fn with_active_grid(self, g: crate::grid::GridV) -> MagV {
        MagV {
            tabs: TabsV {
                apps: self.tabs.apps.update(self.tabs.active, self.active_app().with_grid(g)),
                ..self.tabs
            },
            ..self
        }
    }

    /// Switching one tab to the left.
    pub open spec fn tab_left_t(self) -> MagV {
        MagV { tabs: self.tabs.prev_t(), ..self }
    }

    /// Switching one tab to the right.
    pub open spec fn tab_right_t(self) -> MagV {
        MagV { tabs: self.tabs.next_t(), ..self }
    }

    /// Column focus of the active grid moves left.
    pub open spec fn focus_left_t(self) -> MagV {
        self.with_active_grid(self.active_app().grid.focus_prev())
    }

    /// Column focus of the active grid moves right.
    pub open spec fn focus_right_t(self) -> MagV {
        self.with_active_grid(self.active_app().grid.focus_next())
    }

    /// Row focus of the active grid's focused strip moves up.
    pub open spec fn focus_up_t(self) -> MagV {
        self.with_active_grid(self.active_app().grid.line_prev())
    }

    /// Row focus of the active grid's focused strip moves down.
    pub open spec fn focus_down_t(self) -> MagV {
        self.with_active_grid(self.active_app().grid.line_next())
    }

    /// A pane is added to the right of the active grid's focused column.
    pub open spec fn add_plugin_t(self, p: Plugin) -> MagV {
        self.with_active_grid(self.active_app().grid.add_pane_t(p))
    }

    /// The focused pane of the active grid is removed.  When that grid is
    /// down to a single strip holding a single pane the whole workspace is
    /// escalated to the tab set instead: the active tab is removed, and with
    /// only one tab left nothing is removed and the quit flag is raised.
    pub open spec fn remove_plugin_t(self) -> MagV {
        let g = self.active_app().grid;
        if g.strips.len() == 1 && g.strips[g.focus].panes.len() == 1 {
            let r = self.tabs.remove_active_t();
            MagV { quit: r.1, tabs: r.0, ..self }
        } else {
            self.with_active_grid(g.remove_pane_t())
        }
    }

    /// The fallback key handler: a bare `q` raises the quit flag.
    pub open spec fn on_key_t(self, c: char) -> MagV {
        if c == 'q' {
            MagV { quit: true, ..self }
        } else {
            self
        }
    }

    /// One step of the dispatcher: a tick changes nothing, and a key press
    /// is looked up in the binding table in fixed precedence order (quit
    /// first); an unbound key changes nothing.
    pub open spec fn dispatch_t(self, ev: Event, cfg: KeyConfig) -> MagV {
        match ev {
            Event::Tick => self,
            Event::Input(k) => if k == cfg.quit {
                MagV { quit: true, ..self }
            } else if k == cfg.tab_left {
                self.tab_left_t()
            } else if k == cfg.tab_right {
                self.tab_right_t()
            } else if k == cfg.focus_left {
                self.focus_left_t()
            } else if k == cfg.focus_right {
                self.focus_right_t()
            } else if k == cfg.focus_up {
                self.focus_up_t()
            } else if k == cfg.focus_down {
                self.focus_down_t()
            } else if k == cfg.new_plugin {
                self.add_plugin_t(Plugin::HexView)
            } else if k == cfg.remove_plugin {
                self.remove_plugin_t()
            } else {
                self
            },
        }
    }
}

/// How many rows of `area` the tab bar takes: three when they fit, the
/// whole height otherwise.
pub open spec fn tab_bar_height(area: Rect) -> int {
    if area.height >= 3 {
        3int
    } else {
        area.height as int
    }
}

/// The screen split: the tab bar band on top, the content band below it.
pub open spec fn screen_chunks_spec(area: Rect) -> (Rect, Rect) {
    let bh = tab_bar_height(area);
    (
        Rect { x: area.x, y: area.y, width: area.width, height: bh as u16 },
        Rect {
            x: area.x,
            y: (area.y + bh) as u16,
            width: area.width,
            height: (area.height - bh) as u16,
        },
    )
}

/// Splits the screen into the tab bar band (up to three rows) and the
/// content band holding the active workspace's grid.
pub fn screen_chunks(area: Rect) -> (r: (Rect, Rect))
    requires
        area.wf(),
    ensures
        r == screen_chunks_spec(area),
        r.0.wf(),
        r.1.wf(),
{
    let bh: u16 = if area.height >= 3 {
        3
    } else {
        area.height
    };
    (
        Rect { x: area.x, y: area.y, width: area.width, height: bh },
        Rect { x: area.x, y: area.y + bh, width: area.width, height: area.height - bh },
    )
}

/// The redraw frame of one state: the cell geometry of the active
/// workspace's grid, laid out in the content band of `area`.
pub open spec fn frame_spec(m: MagV, area: Rect) -> Seq<CellGeom> {
    grid_cells(m.active_app().grid, screen_chunks_spec(area).1)
}

/// The state after a whole sequence of messages has been dispatched.
pub open spec fn run_state(m: MagV, evs: Seq<Event>, cfg: KeyConfig) -> MagV
    decreases evs.len(),
{
    if evs.len() == 0 {
        m
    } else {
        run_state(m.dispatch_t(evs[0], cfg), evs.skip(1), cfg)
    }
}

/// Dispatching a sequence and then one more message is dispatching the
/// extended sequence.
pub proof fn lemma_run_state_push(m: MagV, evs: Seq<Event>, e: Event, cfg: KeyConfig)
    ensures
        run_state(m, evs.push(e), cfg) == run_state(m, evs, cfg).dispatch_t(e, cfg),
    decreases evs.len(),
{
    if evs.len() == 0 {
        let m1 = m.dispatch_t(e, cfg);
        assert(evs.push(e)[0] == e);
        assert(evs.push(e).skip(1) =~= Seq::<Event>::empty());
        assert(run_state(m, evs.push(e), cfg) == run_state(m1, evs.push(e).skip(1), cfg));
        assert(run_state(m1, evs.push(e).skip(1), cfg) == m1);
        assert(run_state(m, evs, cfg) == m);
    } else {
        let m1 = m.dispatch_t(evs[0], cfg);
        assert(evs.push(e)[0] == evs[0]);
        assert(run_state(m, evs.push(e), cfg) == run_state(m1, evs.push(e).skip(1), cfg));
        assert(evs.push(e).skip(1) =~= evs.skip(1).push(e));
        lemma_run_state_push(m1, evs.skip(1), e, cfg);
        assert(run_state(m, evs, cfg) == run_state(m1, evs.skip(1), cfg));
    }
}

/// The main application: a title, the quit flag, and all the tabs.
pub struct MagLabApp<'a> {
    /// Title of the application, shown on the tab bar border.
    pub title: &'a str,
    /// Raised when the application should quit.
    pub should_quit: bool,
    /// All tabs of the application; each tab holds a separate workspace.
    pub tabs: TabsState<'a>,
}

impl<'a> View for MagLabApp<'a> {
    type V = MagV;

    open spec fn view(&self) -> MagV {
        MagV { title: self.title@, quit: self.should_quit, tabs: self.tabs@ }
    }
}

impl<'a> MagLabApp<'a> {
    /// Creates the application over `tabs`, with the quit flag down.
    pub fn new(title: &'a str, tabs: TabsState<'a>) -> (r: MagLabApp<'a>)
        ensures
            r@ == (MagV { title: title@, quit: false, tabs: tabs@ }),
    {
        MagLabApp { title, should_quit: false, tabs }
    }

    /// Switches to the tab on the left, with wraparound.
    pub fn tab_left(&mut self)
        requires
            old(self)@.wf(),
        ensures
            final(self)@ == old(self)@.tab_left_t(),
            final(self)@.wf(),
    {
        self.tabs.previous()
    }

    /// Switches to the tab on the right, with wraparound.
    pub fn tab_right(&mut self)
        requires
            old(self)@.wf(),
        ensures
            final(self)@ == old(self)@.tab_right_t(),
            final(self)@.wf(),
    {
        self.tabs.next()
    }

    /// Moves the column focus of the active grid one to the left.
    pub fn focus_left(&mut self)
        requires
            old(self)@.wf(),
        ensures
            final(self)@ == old(self)@.focus_left_t(),
            final(self)@.wf(),
    {
        let i = self.tabs.index;
        let mut a = self.tabs.apps.remove(i);
        proof {
            assert(old(self)@.tabs.apps[i as int].wf());
            assert(old(self)@.tabs.apps[i as int] == a@);
        }
        a.previous_column();
        self.tabs.apps.insert(i, a);
        proof {
            self.lemma_active_update(*old(self), i as int, a@);
        }
    }

    /// Moves the column focus of the active grid one to the right.
    pub fn focus_right(&mut self)
        requires
            old(self)@.wf(),
        ensures
            final(self)@ == old(self)@.focus_right_t(),
            final(self)@.wf(),
    {
        let i = self.tabs.index;
        let mut a = self.tabs.apps.remove(i);
        proof {
            assert(old(self)@.tabs.apps[i as int].wf());
            assert(old(self)@.tabs.apps[i as int] == a@);
        }
        a.next_column();
        self.tabs.apps.insert(i, a);
        proof {
            self.lemma_active_update(*old(self), i as int, a@);
        }
    }

    /// Moves the row focus of the active grid's focused strip one up.
    pub fn focus_up(&mut self)
        requires
            old(self)@.wf(),
        ensures
            final(self)@ == old(self)@.focus_up_t(),
            final(self)@.wf(),
    {
        let i = self.tabs.index;
        let mut a = self.tabs.apps.remove(i);
        proof {
            assert(old(self)@.tabs.apps[i as int].wf());
            assert(old(self)@.tabs.apps[i as int] == a@);
        }
        a.previous_line();
        self.tabs.apps.insert(i, a);
        proof {
            self.lemma_active_update(*old(self), i as int, a@);
        }
    }

    /// Moves the row focus of the active grid's focused strip one down.
    pub fn focus_down(&mut self)
        requires
            old(self)@.wf(),
        ensures
            final(self)@ == old(self)@.focus_down_t(),
            final(self)@.wf(),
    {
        let i = self.tabs.index;
        let mut a = self.tabs.apps.remove(i);
        proof {
            assert(old(self)@.tabs.apps[i as int].wf());
            assert(old(self)@.tabs.apps[i as int] == a@);
        }
        a.next_line();
        self.tabs.apps.insert(i, a);
        proof {
            self.lemma_active_update(*old(self), i as int, a@);
        }
    }

    /// Adds `plugin` to the right of the focused pane of the active tab.
    pub fn add_plugin(&mut self, plugin: Plugin)
        requires
            old(self)@.wf(),
        ensures
            final(self)@ == old(self)@.add_plugin_t(plugin),
            final(self)@.wf(),
    {
        let i = self.tabs.index;
        let mut a = self.tabs.apps.remove(i);
        proof {
            assert(old(self)@.tabs.apps[i as int].wf());
            assert(old(self)@.tabs.apps[i as int] == a@);
        }
        a.grid.add_plugin(plugin);
        self.tabs.apps.insert(i, a);
        proof {
            self.lemma_active_update(*old(self), i as int, a@);
        }
    }

    /// Removes the focused pane of the active tab, escalating per
    /// `remove_plugin_t` when the workspace would become empty: the tab is
    /// removed, or — when it is the last tab — the quit flag is raised.
    pub fn remove_plugin(&mut self)
        requires
            old(self)@.wf(),
        ensures
            final(self)@ == old(self)@.remove_plugin_t(),
            final(self)@.wf(),
    {
        let i = self.tabs.index;
        proof {
            assert(old(self)@.tabs.apps[i as int].wf());
            assert(old(self)@.tabs.apps[i as int] == self.tabs.apps@[i as int]@);
        }
        let ncols = self.tabs.apps[i].grid.columns.len();
        let gi = self.tabs.apps[i].grid.index;
        let nlines = self.tabs.apps[i].grid.columns[gi].plugins.len();
        if ncols == 1 && nlines == 1 {
            let last = self.tabs.remove_tab();
            self.should_quit = last;
        } else {
            let mut a = self.tabs.apps.remove(i);
            a.grid.remove_plugin();
            self.tabs.apps.insert(i, a);
            proof {
                self.lemma_active_update(*old(self), i as int, a@);
            }
        }
    }

    /// Fallback handler for a bare key press: `q` raises the quit flag.
    pub fn on_key(&mut self, c: char)
        ensures
            final(self)@ == old(self)@.on_key_t(c),
    {
        match c {
            'q' => {
                self.should_quit = true;
            },
            _ => {},
        }
    }

    /// Removing then reinserting the active workspace updates the model's
    /// active slot and leaves everything else alone.
    proof fn lemma_active_update(&self, prev: MagLabApp<'a>, i: int, a: AppV)
        requires
            0 <= i < prev.tabs.apps@.len(),
            self.tabs.apps@.len() == prev.tabs.apps@.len(),
            self.tabs.apps@ == prev.tabs.apps@.remove(i).insert(i, self.tabs.apps@[i]),
            self.tabs.apps@[i]@ == a,
            self.tabs.index == prev.tabs.index,
            self.should_quit == prev.should_quit,
            self.title == prev.title,
        ensures
            self@ == (MagV {
                tabs: TabsV {
                    apps: prev@.tabs.apps.update(i, a),
                    ..prev@.tabs
                },
                ..prev@
            }),
    {
        let f = |x: crate::workspace::App<'a>| x@;
        assert(self.tabs.apps@.map_values(f) =~= prev.tabs.apps@.map_values(f).update(i, a));
        assert(self@ =~= (MagV {
            tabs: TabsV { apps: prev@.tabs.apps.update(i, a), ..prev@.tabs },
            ..prev@
        }));
    }

    /// One step of the dispatcher, exactly `dispatch_t`: a tick leaves the
    /// state alone, a bound key runs its command, an unbound key is ignored.
    pub fn handle_event(&mut self, ev: &Event, cfg: &KeyConfig)
        requires
            old(self)@.wf(),
        ensures
            final(self)@ == old(self)@.dispatch_t(*ev, *cfg),
            final(self)@.wf(),
    {
        match ev {
            Event::Tick => {},
            Event::Input(k) => {
                if *k == cfg.quit {
                    self.should_quit = true;
                } else if *k == cfg.tab_left {
                    self.tab_left();
                } else if *k == cfg.tab_right {
                    self.tab_right();
                } else if *k == cfg.focus_left {
                    self.focus_left();
                } else if *k == cfg.focus_right {
                    self.focus_right();
                } else if *k == cfg.focus_up {
                    self.focus_up();
                } else if *k == cfg.focus_down {
                    self.focus_down();
                } else if *k == cfg.new_plugin {
                    self.add_plugin(Plugin::HexView);
                } else if *k == cfg.remove_plugin {
                    self.remove_plugin();
                }
            },
        }
    }

    /// Computes the redraw frame for the current state: the cell geometry of
    /// the active workspace's grid, laid out in the content band of `area`.
    /// Painting the tab bar and the cells is the renderer's job.
    pub fn draw_geometry(&self, area: Rect) -> (cells: Vec<CellGeom>)
        requires
            self@.wf(),
            area.wf(),
        ensures
            cells@ == frame_spec(self@, area),
    {
        let chunks = screen_chunks(area);
        let i = self.tabs.index;
        proof {
            assert(self@.tabs.apps[i as int].wf());
            assert(self@.tabs.apps[i as int] == self.tabs.apps@[i as int]@);
        }
        self.tabs.apps[i].layout_cells(chunks.1)
    }

    /// Drives the dispatcher over a scripted sequence of messages, redrawing
    /// once per consumed message, exactly as the interactive loop does:
    /// consume, mutate, redraw, then stop if the quit flag is up.
    ///
    /// The contract pins the dispatch ordering: one frame per consumed
    /// message, each frame the redraw of the state just after its message;
    /// the script is consumed in full unless some message raises the quit
    /// flag, and a shortened run ends exactly at the first such message.
    pub fn run_script(&mut self, events: &Vec<Event>, cfg: &KeyConfig, area: Rect) -> (frames:
        Vec<Vec<CellGeom>>)
        requires
            old(self)@.wf(),
            area.wf(),
        ensures
            frames@.len() <= events@.len(),
            final(self)@ == run_state(old(self)@, events@.take(frames@.len() as int), *cfg),
            final(self)@.wf(),
            forall|i: int|
                0 <= i < frames@.len() ==> (#[trigger] frames@[i])@ == frame_spec(
                    run_state(old(self)@, events@.take(i + 1), *cfg),
                    area,
                ),
            forall|i: int|
                0 <= i < frames@.len() - 1 ==> !(#[trigger] run_state(
                    old(self)@,
                    events@.take(i + 1),
                    *cfg,
                )).quit,
            frames@.len() < events@.len() ==> run_state(
                old(self)@,
                events@.take(frames@.len() as int),
                *cfg,
            ).quit,
    {
        let mut frames: Vec<Vec<CellGeom>> = Vec::new();
        let n = events.len();
        let mut j: usize = 0;
        while j < n
            invariant_except_break
                j <= n,
                n == events@.len(),
                area.wf(),
                frames@.len() == j as int,
                self@ == run_state(old(self)@, events@.take(j as int), *cfg),
                self@.wf(),
                forall|i: int|
                    0 <= i < j ==> (#[trigger] frames@[i])@ == frame_spec(
                        run_state(old(self)@, events@.take(i + 1), *cfg),
                        area,
                    ),
                forall|i: int|
                    0 <= i < j ==> !(#[trigger] run_state(
                        old(self)@,
                        events@.take(i + 1),
                        *cfg,
                    )).quit,
            ensures
                j <= n,
                n == events@.len(),
                frames@.len() == j as int,
                self@ == run_state(old(self)@, events@.take(j as int), *cfg),
                self@.wf(),
                forall|i: int|
                    0 <= i < j ==> (#[trigger] frames@[i])@ == frame_spec(
                        run_state(old(self)@, events@.take(i + 1), *cfg),
                        area,
                    ),
                forall|i: int|
                    0 <= i < j - 1 ==> !(#[trigger] run_state(
                        old(self)@,
                        events@.take(i + 1),
                        *cfg,
                    )).quit,
                j < n ==> run_state(old(self)@, events@.take(j as int), *cfg).quit,
            decreases n - j,
        {
            proof {
                assert(events@.take(j + 1 as int) =~= events@.take(j as int).push(
                    events@[j as int],
                ));
                lemma_run_state_push(old(self)@, events@.take(j as int), events@[j as int], *cfg);
            }
            self.handle_event(&events[j], cfg);
            let frame = self.draw_geometry(area);
            frames.push(frame);
            j = j + 1;
            if self.should_quit {
                break ;
            }
        }
        frames
    }
}

} // verus!
