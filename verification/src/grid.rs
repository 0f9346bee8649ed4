//! The grid: an ordered, non-empty row of strips (columns) with a focused
//! column.  It owns the pane insertion and removal policy.

use vstd::prelude::*;

use crate::pane::Plugin;
use crate::strip::{PluginsState, StripV};

verus! {

/// Mathematical model of a grid: its strips and the focused column.
#[verifier::ext_equal]
pub struct GridV {
    pub strips: Seq<StripV>,
    pub focus: int,
}

impl GridV {
    /// A grid is well formed while it has at least one strip, its focus is in
    /// range, and every strip is itself well formed.
    pub open spec fn wf(self) -> bool {
        &&& self.strips.len() > 0
        &&& 0 <= self.focus < self.strips.len()
        &&& forall|i: int| 0 <= i < self.strips.len() ==> (#[trigger] self.strips[i]).wf()
    }

    /// Column focus advances by one, wrapping past the last column.
    pub open spec fn focus_next(self) -> GridV {
        GridV { focus: (self.focus + 1) % (self.strips.len() as int), ..self }
    }

    /// Column focus retreats by one, wrapping past the first column.
    pub open spec fn focus_prev(self) -> GridV {
        GridV {
            focus: if self.focus > 0 {
                self.focus - 1
            } else {
                self.strips.len() - 1
            },
            ..self
        }
    }

    /// Row focus advances within the focused strip.
    pub open spec fn line_next(self) -> GridV {
        GridV { strips: self.strips.update(self.focus, self.strips[self.focus].focus_next()), ..self }
    }

    /// Row focus retreats within the focused strip.
    pub open spec fn line_prev(self) -> GridV {
        GridV { strips: self.strips.update(self.focus, self.strips[self.focus].focus_prev()), ..self }
    }

    /// Insertion policy.  If the focused strip is the last column, a new
    /// strip holding only `p` is appended; otherwise `p` becomes the top pane
    /// of the strip immediately to the right.  Either way the column focus
    /// moves one to the right and that strip's row focus is forced to 0, so
    /// the new pane is the one that gains focus.
    pub open spec fn add_pane_t(self, p: Plugin) -> GridV {
        if self.focus == self.strips.len() - 1 {
            GridV {
                strips: self.strips.push(StripV { panes: seq![p], focus: 0 }),
                focus: self.focus + 1,
            }
        } else {
            let target = self.strips[self.focus + 1];
            GridV {
                strips: self.strips.update(
                    self.focus + 1,
                    StripV { panes: target.panes.insert(0, p), focus: 0 },
                ),
                focus: self.focus + 1,
            }
        }
    }

    /// Deletion policy, in strict precedence order.  If more than one column
    /// exists and the focused strip holds a single pane, the whole strip is
    /// removed (never leaving an empty strip behind): column focus moves left
    /// when the removed strip was the last column and stays put otherwise.
    /// In every other case only the focused pane of the focused strip is
    /// removed, with the strip's own focus repair.
    pub open spec fn remove_pane_t(self) -> GridV {
        let ncols = self.strips.len() as int;
        let focused = self.strips[self.focus];
        if ncols > 1 && focused.panes.len() == 1 {
            GridV {
                strips: self.strips.remove(self.focus),
                focus: if self.focus == ncols - 1 {
                    self.focus - 1
                } else {
                    self.focus
                },
            }
        } else {
            GridV { strips: self.strips.update(self.focus, focused.remove_focused_t()), ..self }
        }
    }
}

/// The full set of strips forming one workspace, with the focused column.
pub struct ColumnsState {
    pub columns: Vec<PluginsState>,
    pub index: usize,
}

impl View for ColumnsState {
    type V = GridV;

    open spec fn view(&self) -> GridV {
        GridV { strips: self.columns@.map_values(|c: PluginsState| c@), focus: self.index as int }
    }
}

impl ColumnsState {
    /// Creates a grid over `columns`, focused on the first column.
    pub fn new(columns: Vec<PluginsState>) -> (r: ColumnsState)
        ensures
            r@ == (GridV { strips: columns@.map_values(|c: PluginsState| c@), focus: 0 }),
    {
        ColumnsState { columns, index: 0 }
    }

    /// Advances the column focus with wraparound.
    pub fn next(&mut self)
        requires
            old(self)@.wf(),
        ensures
            final(self)@ == old(self)@.focus_next(),
            final(self)@.wf(),
    {
        let n = self.columns.len();
        self.index = (self.index + 1) % n;
    }

    /// Retreats the column focus with wraparound.
    pub fn previous(&mut self)
        requires
            old(self)@.wf(),
        ensures
            final(self)@ == old(self)@.focus_prev(),
            final(self)@.wf(),
    {
        if self.index > 0 {
            self.index = self.index - 1;
        } else {
            self.index = self.columns.len() - 1;
        }
    }

    /// Adds `plugin` to the right of the focused column, per `add_pane_t`.
    pub fn add_plugin(&mut self, plugin: Plugin)
        requires
            old(self)@.wf(),
        ensures
            final(self)@ == old(self)@.add_pane_t(plugin),
            final(self)@.wf(),
    {
        let n = self.columns.len();
        if self.index == n - 1 {
            let strip = PluginsState::new(vec![plugin]);
            self.columns.push(strip);
            self.index = self.index + 1;
            proof {
                let f = |c: PluginsState| c@;
                assert(self.columns@.map_values(f) =~= old(self).columns@.map_values(f).push(
                    self.columns@[n as int]@,
                ));
                assert(self.columns@[n as int]@.panes =~= seq![plugin]);
                assert(self@ =~= old(self)@.add_pane_t(plugin));
            }
        } else {
            let mut strip = self.columns.remove(self.index + 1);
            strip.insert_pane_at(0, plugin);
            strip.index = 0;
            self.columns.insert(self.index + 1, strip);
            self.index = self.index + 1;
            proof {
                let f = |c: PluginsState| c@;
                let i = old(self).index as int;
                assert(self.columns@.map_values(f) =~= old(self).columns@.map_values(f).update(
                    i + 1,
                    self.columns@[i + 1]@,
                ));
                assert(self@ =~= old(self)@.add_pane_t(plugin));
            }
        }
    }

    /// Removes the focused pane, per `remove_pane_t`.  The degenerate case of
    /// a single column holding a single pane must be escalated by the caller
    /// instead (the workspace would become empty).
    pub fn remove_plugin(&mut self)
        requires
            old(self)@.wf(),
            !(old(self)@.strips.len() == 1 && old(self)@.strips[old(self)@.focus].panes.len()
                == 1),
        ensures
            final(self)@ == old(self)@.remove_pane_t(),
            final(self)@.wf(),
    {
        let ncols = self.columns.len();
        let nlines = self.columns[self.index].plugins.len();
        if ncols > 1 && nlines == 1 {
            self.columns.remove(self.index);
            if self.index == ncols - 1 {
                self.index = self.index - 1;
            }
            proof {
                let f = |c: PluginsState| c@;
                assert(self.columns@.map_values(f) =~= old(self).columns@.map_values(f).remove(
                    old(self).index as int,
                ));
                assert(self@ =~= old(self)@.remove_pane_t());
            }
        } else {
            let mut strip = self.columns.remove(self.index);
            strip.remove_focused();
            self.columns.insert(self.index, strip);
            proof {
                let f = |c: PluginsState| c@;
                let i = old(self).index as int;
                assert(self.columns@.map_values(f) =~= old(self).columns@.map_values(f).update(
                    i,
                    self.columns@[i]@,
                ));
                assert(self@ =~= old(self)@.remove_pane_t());
            }
        }
    }
}

} // verus!
