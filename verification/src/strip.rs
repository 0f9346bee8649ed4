//! A strip: one visual column holding an ordered, non-empty stack of panes
//! together with the index of the focused pane.

use vstd::prelude::*;

use crate::pane::Plugin;

verus! {

/// Mathematical model of a strip: the panes it holds and the focused row.
#[verifier::ext_equal]
pub struct StripV {
    pub panes: Seq<Plugin>,
    pub focus: int,
}

impl StripV {
    /// A strip is well formed while it is non-empty and its focus is in range.
    pub open spec fn wf(self) -> bool {
        self.panes.len() > 0 && 0 <= self.focus < self.panes.len()
    }

    /// Focus advances by one, wrapping past the last pane to the first.
    pub open spec fn focus_next(self) -> StripV {
        StripV { focus: (self.focus + 1) % (self.panes.len() as int), ..self }
    }

    /// Focus retreats by one, wrapping past the first pane to the last.
    pub open spec fn focus_prev(self) -> StripV {
        StripV {
            focus: if self.focus > 0 {
                self.focus - 1
            } else {
                self.panes.len() - 1
            },
            ..self
        }
    }

    /// A pane is inserted at `at`; panes at or after `at` shift down by one.
    /// The focus index itself is left untouched.
    pub open spec fn insert_pane(self, at: int, p: Plugin) -> StripV {
        StripV { panes: self.panes.insert(at, p), ..self }
    }

    /// The focused pane is removed.  If it was the last valid index the focus
    /// moves to the new last index; otherwise it stays, now naming the pane
    /// that slid into the old slot.  Removing the only pane leaves an empty
    /// strip with focus 0; the owner must then excise the strip.
    pub open spec fn remove_focused_t(self) -> StripV {
        StripV {
            panes: self.panes.remove(self.focus),
            focus: if self.focus == self.panes.len() - 1 {
                if self.focus > 0 {
                    self.focus - 1
                } else {
                    0
                }
            } else {
                self.focus
            },
        }
    }
}

/// The strip after `n` successive `focus_next` steps.
pub open spec fn focus_next_n(s: StripV, n: nat) -> StripV
    decreases n,
{
    if n == 0 {
        s
    } else {
        focus_next_n(s, (n - 1) as nat).focus_next()
    }
}

/// The strip after `n` successive `focus_prev` steps.
pub open spec fn focus_prev_n(s: StripV, n: nat) -> StripV
    decreases n,
{
    if n == 0 {
        s
    } else {
        focus_prev_n(s, (n - 1) as nat).focus_prev()
    }
}

proof fn lemma_focus_next_n_unfold(s: StripV, n: nat)
    requires
        s.wf(),
    ensures
        focus_next_n(s, n).panes == s.panes,
        focus_next_n(s, n).focus == (s.focus + n) % (s.panes.len() as int),
    decreases n,
{
    let len = s.panes.len() as int;
    if n == 0 {
        vstd::arithmetic::div_mod::lemma_small_mod(s.focus as nat, s.panes.len());
    } else {
        lemma_focus_next_n_unfold(s, (n - 1) as nat);
        let a = s.focus + n - 1;
        // (a % len + 1) % len == (a + 1) % len
        vstd::arithmetic::div_mod::lemma_fundamental_div_mod(a, len);
        vstd::arithmetic::div_mod::lemma_mod_multiples_vanish(a / len, a % len + 1, len);
    }
}

proof fn lemma_focus_prev_n_unfold(s: StripV, n: nat)
    requires
        s.wf(),
    ensures
        focus_prev_n(s, n).panes == s.panes,
        focus_prev_n(s, n).focus == (s.focus - n) % (s.panes.len() as int),
    decreases n,
{
    let len = s.panes.len() as int;
    if n == 0 {
        vstd::arithmetic::div_mod::lemma_small_mod(s.focus as nat, s.panes.len());
    } else {
        lemma_focus_prev_n_unfold(s, (n - 1) as nat);
        let a = s.focus - n + 1;
        let g = a % len;
        vstd::arithmetic::div_mod::lemma_mod_bound(a, len);
        // g - 1 and a - 1 agree modulo len
        vstd::arithmetic::div_mod::lemma_fundamental_div_mod(a, len);
        vstd::arithmetic::div_mod::lemma_mod_multiples_vanish(a / len, g - 1, len);
        if g > 0 {
            vstd::arithmetic::div_mod::lemma_small_mod((g - 1) as nat, s.panes.len());
        } else {
            // (-1) % len == len - 1
            vstd::arithmetic::div_mod::lemma_mod_multiples_vanish(1, -1, len);
            vstd::arithmetic::div_mod::lemma_small_mod((len - 1) as nat, s.panes.len());
        }
    }
}

/// Wraparound law: as many `focus_next` steps as the strip has panes bring
/// the focus back to where it started and leave the panes untouched.
pub proof fn lemma_strip_focus_next_cycle(s: StripV)
    requires
        s.wf(),
    ensures
        focus_next_n(s, s.panes.len()) == s,
{
    let len = s.panes.len() as int;
    lemma_focus_next_n_unfold(s, s.panes.len());
    vstd::arithmetic::div_mod::lemma_mod_multiples_vanish(1, s.focus, len);
    vstd::arithmetic::div_mod::lemma_small_mod(s.focus as nat, s.panes.len());
    assert(focus_next_n(s, s.panes.len()) =~= s);
}

/// Wraparound law: as many `focus_prev` steps as the strip has panes bring
/// the focus back to where it started and leave the panes untouched.
pub proof fn lemma_strip_focus_prev_cycle(s: StripV)
    requires
        s.wf(),
    ensures
        focus_prev_n(s, s.panes.len()) == s,
{
    let len = s.panes.len() as int;
    lemma_focus_prev_n_unfold(s, s.panes.len());
    vstd::arithmetic::div_mod::lemma_mod_multiples_vanish(-1, s.focus, len);
    vstd::arithmetic::div_mod::lemma_small_mod(s.focus as nat, s.panes.len());
    assert(focus_prev_n(s, s.panes.len()) =~= s);
}

/// One column of the grid: an ordered stack of panes plus the focused row.
pub struct PluginsState {
    pub plugins: Vec<Plugin>,
    pub index: usize,
}

impl View for PluginsState {
    type V = StripV;

    open spec fn view(&self) -> StripV {
        StripV { panes: self.plugins@, focus: self.index as int }
    }
}

impl PluginsState {
    /// Creates a strip holding `plugins`, focused on the first pane.
    pub fn new(plugins: Vec<Plugin>) -> (r: PluginsState)
        ensures
            r@ == (StripV { panes: plugins@, focus: 0 }),
    {
        PluginsState { plugins, index: 0 }
    }

    /// Advances the focus with wraparound modulo the number of panes.
    pub fn next(&mut self)
        requires
            old(self)@.wf(),
        ensures
            final(self)@ == old(self)@.focus_next(),
            final(self)@.wf(),
    {
        let n = self.plugins.len();
        self.index = (self.index + 1) % n;
    }

    /// Retreats the focus with wraparound modulo the number of panes.
    pub fn previous(&mut self)
        requires
            old(self)@.wf(),
        ensures
            final(self)@ == old(self)@.focus_prev(),
            final(self)@.wf(),
    {
        if self.index > 0 {
            self.index = self.index - 1;
        } else {
            self.index = self.plugins.len() - 1;
        }
    }

    /// Inserts `plugin` at `position`, shifting panes at or after it.
    pub fn insert_pane_at(&mut self, position: usize, plugin: Plugin)
        requires
            position <= old(self).plugins.len(),
        ensures
            final(self)@ == old(self)@.insert_pane(position as int, plugin),
    {
        self.plugins.insert(position, plugin);
    }

    /// Removes the focused pane, repairing the focus as `remove_focused_t`
    /// describes.  The caller must check for emptiness afterwards.
    pub fn remove_focused(&mut self)
        requires
            old(self)@.wf(),
        ensures
            final(self)@ == old(self)@.remove_focused_t(),
    {
        let n = self.plugins.len();
        self.plugins.remove(self.index);
        if self.index == n - 1 {
            if self.index > 0 {
                self.index = self.index - 1;
            } else {
                self.index = 0;
            }
        }
    }
}

} // verus!
