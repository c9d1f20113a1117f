//! The settle-delay timer.
//!
//! A detected file is renamed only after a configurable delay, so that
//! the producing application can finish writing.  The timer is a
//! deferred-task abstraction over an abstract tick clock: arming it
//! fixes the instant before which no rename attempt may begin, and the
//! loop polls it instead of sleeping, so a single-threaded loop keeps
//! draining events.  The program's edge supplies the clock readings.

use vstd::prelude::*;

verus! {

/// A deferred rename: armed at some instant, ready once the settle
/// delay has elapsed.
#[derive(Clone, Copy, Debug)]
pub struct SettleTimer {
    ready_at: u64,
}

impl SettleTimer {
    /// The first instant at which the deferred work may begin.
    pub closed spec fn ready_at_spec(&self) -> u64 {
        self.ready_at
    }

    /// Whether the timer is ready at instant `now`.
    pub open spec fn ready_when(&self, now: u64) -> bool {
        now >= self.ready_at_spec()
    }

    /// Arm a timer at instant `now` for `delay_ticks` ticks.
    pub fn new(now: u64, delay_ticks: u64) -> (r: SettleTimer)
        requires
            now + delay_ticks <= u64::MAX,
        ensures
            r.ready_at_spec() == now + delay_ticks,
    {
        SettleTimer { ready_at: now + delay_ticks }
    }

    /// Poll the timer: ready exactly from `ready_at_spec()` on.
    pub fn is_ready(&self, now: u64) -> (r: bool)
        ensures
            r == self.ready_when(now),
    {
        now >= self.ready_at
    }
}

/// Law: for every settle delay, no rename attempt begins before the
/// delay has elapsed — a timer armed at `start` for `delay_ticks` is
/// ready only at instants at least `delay_ticks` past `start`.
pub proof fn lemma_no_attempt_before_delay(
    timer: SettleTimer,
    start: u64,
    delay_ticks: u64,
    now: u64,
)
    requires
        timer.ready_at_spec() == start + delay_ticks,
        timer.ready_when(now),
    ensures
        now >= start + delay_ticks,
{
}

} // verus!
