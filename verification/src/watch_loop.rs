//! The orchestrating state machine of the watch loop.
//!
//! Each iteration drains the control mailbox fully (updating the run
//! state in send order), exits if the state became `Stopped`, and gates
//! the next raw event: only a file-creation event whose first path still
//! is a file reaches the renamer, and only while the state is `Running`.
//! The loop itself — blocking on the OS, probing metadata, moving files —
//! runs at the program's edge and feeds plain values in.

use vstd::prelude::*;

use crate::control::{
    ControlChannel, ControlCommand, RunState, apply_all, apply_command, lemma_apply_all_push,
    lemma_stop_dominates,
};
use crate::event::{EventKind, PathStatus, RawEvent};
use crate::fspath::copy_bytes;

verus! {

/// Whether the loop's gate lets a raw event through to the metadata
/// probe: only creation events, only while running, and only with at
/// least one affected path.
pub open spec fn gate_passes(s: RunState, ev: RawEvent) -> bool {
    s is Running && ev.kind is Created && ev.paths.len() > 0
}

/// Whether a gated event, given what the metadata probe found, is
/// dispatched to the renamer (or the caller's callback).
pub open spec fn dispatches(s: RunState, ev: RawEvent, status: PathStatus) -> bool {
    gate_passes(s, ev) && status is File
}

/// The watch loop's owned state.  Commands arriving through the control
/// mailbox are the only thing that changes it.
pub struct WatchLoop {
    state: RunState,
}

impl WatchLoop {
    /// The current run state, as a specification value.
    pub closed spec fn state_spec(&self) -> RunState {
        self.state
    }

    /// A fresh loop: the initial state is `Running`.
    pub fn new() -> (r: WatchLoop)
        ensures
            r.state_spec() is Running,
    {
        WatchLoop { state: RunState::Running }
    }

    /// The current run state.
    pub fn run_state(&self) -> (r: RunState)
        ensures
            r == self.state_spec(),
    {
        self.state
    }

    /// Process one control command.
    pub fn apply(&mut self, c: ControlCommand)
        ensures
            final(self).state_spec() == apply_command(old(self).state_spec(), c),
    {
        match c {
            ControlCommand::Pause => {
                if !(self.state == RunState::Stopped) {
                    self.state = RunState::Paused;
                }
            },
            ControlCommand::Resume => {
                if !(self.state == RunState::Stopped) {
                    self.state = RunState::Running;
                }
            },
            ControlCommand::Stop => {
                self.state = RunState::Stopped;
            },
        }
    }

    /// Process a whole batch of commands in send order.  The state after
    /// the drain is the fold of the batch over the transition relation —
    /// the last effective command wins, and intermediate states are never
    /// observed outside the loop.
    pub fn drain_commands(&mut self, cmds: &Vec<ControlCommand>)
        ensures
            final(self).state_spec() == apply_all(old(self).state_spec(), cmds@),
    {
        let mut i: usize = 0;
        while i < cmds.len()
            invariant
                i <= cmds@.len(),
                self.state_spec() == apply_all(old(self).state_spec(), cmds@.subrange(0, i as int)),
            decreases cmds@.len() - i,
        {
            self.apply(cmds[i]);
            proof {
                lemma_apply_all_push(old(self).state_spec(), cmds@.subrange(0, i as int), cmds@[i as int]);
                assert(cmds@.subrange(0, i + 1 as int) =~= cmds@.subrange(0, i as int).push(
                    cmds@[i as int],
                ));
            }
            i = i + 1;
        }
        proof {
            assert(cmds@.subrange(0, cmds@.len() as int) =~= cmds@);
        }
    }

    /// One poll of the control mailbox: take every queued command and
    /// process them in send order, leaving the mailbox empty.
    pub fn poll(&mut self, chan: &mut ControlChannel)
        ensures
            final(self).state_spec() == apply_all(old(self).state_spec(), old(chan)@),
            final(chan)@.len() == 0,
    {
        let cmds = chan.drain();
        self.drain_commands(&cmds);
    }

    /// Whether the loop must exit: `Stopped` is terminal.
    pub fn should_exit(&self) -> (r: bool)
        ensures
            r == (self.state_spec() is Stopped),
    {
        self.state == RunState::Stopped
    }

    /// Gate one raw event: return the path to probe if the event is a
    /// creation, the loop is running, and the event carries a path;
    /// otherwise the event is discarded silently.
    pub fn accept_event(&self, ev: &RawEvent) -> (r: Option<Vec<u8>>)
        ensures
            r is Some <==> gate_passes(self.state_spec(), *ev),
            r matches Some(p) ==> p@ == ev.paths@[0]@,
    {
        if self.state == RunState::Running && ev.kind == EventKind::Created && ev.paths.len() > 0 {
            Some(copy_bytes(&ev.paths[0]))
        } else {
            None
        }
    }

    /// Decide dispatch after the metadata probe: only a path that still
    /// is a file goes to the renamer; a vanished path or a directory is
    /// discarded silently.
    pub fn should_dispatch(&self, ev: &RawEvent, status: PathStatus) -> (r: bool)
        ensures
            r == dispatches(self.state_spec(), *ev, status),
    {
        self.state == RunState::Running && ev.kind == EventKind::Created && ev.paths.len() > 0
            && status == PathStatus::File
    }
}

/// Law: once a `Stop` is processed, no further raw event triggers the
/// renamer or the callback — the drain that saw the `Stop` leaves the
/// loop `Stopped`, and a stopped loop dispatches nothing, whatever
/// events were already queued and whatever the probe finds.
pub proof fn lemma_stop_blocks_dispatch(
    s: RunState,
    cmds: Seq<ControlCommand>,
    ev: RawEvent,
    status: PathStatus,
)
    requires
        cmds.contains(ControlCommand::Stop),
    ensures
        apply_all(s, cmds) == RunState::Stopped,
        !dispatches(apply_all(s, cmds), ev, status),
        !gate_passes(apply_all(s, cmds), ev),
{
    lemma_stop_dominates(s, cmds);
}

} // verus!
