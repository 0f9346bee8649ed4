//! The tab set: an ordered, non-empty collection of workspaces with an
//! active index, cyclic switching, and a guarded removal of the active tab.

use vstd::prelude::*;

use crate::workspace::{App, AppV};

verus! {

/// Mathematical model of the tab set: its workspaces and the active index.
#[verifier::ext_equal]
pub struct TabsV {
    pub apps: Seq<AppV>,
    pub active: int,
}

impl TabsV {
    /// The tab set is well formed while it is non-empty, the active index is
    /// in range, and every workspace is well formed.
    pub open spec fn wf(self) -> bool {
        &&& self.apps.len() > 0
        &&& 0 <= self.active < self.apps.len()
        &&& forall|i: int| 0 <= i < self.apps.len() ==> (#[trigger] self.apps[i]).wf()
    }

    /// The active tab advances by one, wrapping past the last tab.
    pub open spec fn next_t(self) -> TabsV {
        TabsV { active: (self.active + 1) % (self.apps.len() as int), ..self }
    }

    /// The active tab retreats by one, wrapping past the first tab.
    pub open spec fn prev_t(self) -> TabsV {
        TabsV {
            active: if self.active > 0 {
                self.active - 1
            } else {
                self.apps.len() - 1
            },
            ..self
        }
    }

    /// Removal of the active tab.  With only one workspace left nothing is
    /// removed and the `true` flag signals that the application should
    /// terminate instead.  Otherwise the active workspace is removed and the
    /// active index moves left when it named the last tab, staying put
    /// otherwise.
    pub open spec fn remove_active_t(self) -> (TabsV, bool) {
        if self.apps.len() == 1 {
            (self, true)
        } else {
            (
                TabsV {
                    apps: self.apps.remove(self.active),
                    active: if self.active == self.apps.len() - 1 {
                        self.active - 1
                    } else {
                        self.active
                    },
                },
                false,
            )
        }
    }
}

/// All the tabs of the application; each tab holds a separate workspace.
pub struct TabsState<'a> {
    pub apps: Vec<App<'a>>,
    pub index: usize,
}

impl<'a> View for TabsState<'a> {
    type V = TabsV;

    open spec fn view(&self) -> TabsV {
        TabsV { apps: self.apps@.map_values(|a: App<'a>| a@), active: self.index as int }
    }
}

impl<'a> TabsState<'a> {
    /// Creates a tab set over `apps`, with the first tab active.
    pub fn new(apps: Vec<App<'a>>) -> (r: TabsState<'a>)
        ensures
            r@ == (TabsV { apps: apps@.map_values(|a: App<'a>| a@), active: 0 }),
    {
        TabsState { apps, index: 0 }
    }

    /// Goes to the next tab, with wraparound.
    pub fn next(&mut self)
        requires
            old(self)@.wf(),
        ensures
            final(self)@ == old(self)@.next_t(),
            final(self)@.wf(),
    {
        let n = self.apps.len();
        self.index = (self.index + 1) % n;
    }

    /// Goes to the previous tab, with wraparound.
    pub fn previous(&mut self)
        requires
            old(self)@.wf(),
        ensures
            final(self)@ == old(self)@.prev_t(),
            final(self)@.wf(),
    {
        if self.index > 0 {
            self.index = self.index - 1;
        } else {
            self.index = self.apps.len() - 1;
        }
    }

    /// Removes the active tab per `remove_active_t`.  Returns `true` exactly
    /// when this was the last remaining tab, in which case nothing changes
    /// and the caller must terminate the application instead.
    pub fn remove_tab(&mut self) -> (last: bool)
        requires
            old(self)@.wf(),
        ensures
            (final(self)@, last) == old(self)@.remove_active_t(),
            final(self)@.wf(),
    {
        if self.apps.len() == 1 {
            return true;
        }
        let n = self.apps.len();
        self.apps.remove(self.index);
        if self.index == n - 1 {
            self.index = self.index - 1;
        }
        proof {
            let f = |a: App<'a>| a@;
            assert(self.apps@.map_values(f) =~= old(self).apps@.map_values(f).remove(
                old(self).index as int,
            ));
            assert(self@ =~= old(self)@.remove_active_t().0);
        }
        false
    }
}

} // verus!
