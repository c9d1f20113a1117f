//! The watcher's pause toggle.
//!
//! An older control surface than the command mailbox: a plain flag that
//! the loop consults before handling an event.  It is owned state, not a
//! shared atomic; the program routes UI toggles to it through the
//! control channel's thread.

use vstd::prelude::*;

verus! {

/// The pause flag of a watch session; starts cleared.
#[derive(Debug)]
pub struct WatcherHandler {
    paused: bool,
}

impl WatcherHandler {
    /// Whether the flag is set, as a specification value.
    pub closed spec fn is_paused_spec(&self) -> bool {
        self.paused
    }

    /// Set the flag: events are ignored until `resume`.
    pub fn pause(&mut self)
        ensures
            final(self).is_paused_spec(),
    {
        self.paused = true;
    }

    /// Clear the flag: events are handled again.
    pub fn resume(&mut self)
        ensures
            !final(self).is_paused_spec(),
    {
        self.paused = false;
    }

    /// Whether the watcher is currently paused.
    pub fn is_paused(&self) -> (r: bool)
        ensures
            r == self.is_paused_spec(),
    {
        self.paused
    }
}

impl Default for WatcherHandler {
    /// A fresh handler: not paused.
    fn default() -> (r: Self)
        ensures
            !r.is_paused_spec(),
    {
        WatcherHandler { paused: false }
    }
}

} // verus!
