//! Commands sent by the UI, the run state they drive, and the mailbox that
//! carries them into the watch loop.

use vstd::prelude::*;

verus! {

/// One command from the UI surface to the watch loop.
///
/// Each send is an independent signal; the loop drains every queued command
/// in send order, so only the last one processed determines the state after
/// a poll.
#[derive(Clone, Copy, Debug, PartialEq, Eq, Structural)]
pub enum ControlCommand {
    Pause,
    Resume,
    Stop,
}

/// The run state owned exclusively by the watch loop.
///
/// The initial state is `Running`; `Stopped` is terminal.
#[derive(Clone, Copy, Debug, PartialEq, Eq, Structural)]
pub enum RunState {
    Running,
    Paused,
    Stopped,
}

/// The transition relation of the run-state machine: `Pause` and `Resume`
/// move between `Running` and `Paused` (idempotently), `Stop` moves any
/// state to `Stopped`, and nothing leaves `Stopped`.
pub open spec fn apply_command(s: RunState, c: ControlCommand) -> RunState {
    match c {
        ControlCommand::Pause => if s is Stopped {
            RunState::Stopped
        } else {
            RunState::Paused
        },
        ControlCommand::Resume => if s is Stopped {
            RunState::Stopped
        } else {
            RunState::Running
        },
        ControlCommand::Stop => RunState::Stopped,
    }
}

/// The state after processing a whole queue of commands in send order.
pub open spec fn apply_all(s: RunState, cmds: Seq<ControlCommand>) -> RunState
    decreases cmds.len(),
{
    if cmds.len() == 0 {
        s
    } else {
        apply_all(apply_command(s, cmds[0]), cmds.subrange(1, cmds.len() as int))
    }
}

/// Processing one more command at the end of the queue is the same as
/// processing the queue and then that command.
pub proof fn lemma_apply_all_push(s: RunState, cmds: Seq<ControlCommand>, c: ControlCommand)
    ensures
        apply_all(s, cmds.push(c)) == apply_command(apply_all(s, cmds), c),
    decreases cmds.len(),
{
    reveal_with_fuel(apply_all, 3);
    if cmds.len() == 0 {
        assert(cmds.push(c)[0] == c);
        assert(cmds.push(c).subrange(1, cmds.push(c).len() as int) =~= Seq::<
            ControlCommand,
        >::empty());
    } else {
        assert(cmds.push(c)[0] == cmds[0]);
        assert(cmds.push(c).subrange(1, cmds.push(c).len() as int) =~= cmds.subrange(
            1,
            cmds.len() as int,
        ).push(c));
        lemma_apply_all_push(apply_command(s, cmds[0]), cmds.subrange(1, cmds.len() as int), c);
    }
}

/// Draining in batches is the same as draining at once: however the
/// queued commands split over successive polls, the state seen after
/// processing them all is the fold of the whole sequence in send order.
pub proof fn lemma_apply_all_concat(s: RunState, a: Seq<ControlCommand>, b: Seq<ControlCommand>)
    ensures
        apply_all(s, a + b) == apply_all(apply_all(s, a), b),
    decreases a.len(),
{
    if a.len() == 0 {
        assert(a + b =~= b);
    } else {
        assert((a + b)[0] == a[0]);
        assert((a + b).subrange(1, (a + b).len() as int) =~= a.subrange(1, a.len() as int) + b);
        lemma_apply_all_concat(apply_command(s, a[0]), a.subrange(1, a.len() as int), b);
    }
}

/// `Stopped` is terminal: no sequence of commands leaves it.
pub proof fn lemma_stopped_terminal(cmds: Seq<ControlCommand>)
    ensures
        apply_all(RunState::Stopped, cmds) == RunState::Stopped,
    decreases cmds.len(),
{
    if cmds.len() > 0 {
        lemma_stopped_terminal(cmds.subrange(1, cmds.len() as int));
    }
}

/// Once a drain has processed a `Stop`, the state after the drain is
/// `Stopped`, whatever came before or after it in the queue.
pub proof fn lemma_stop_dominates(s: RunState, cmds: Seq<ControlCommand>)
    requires
        cmds.contains(ControlCommand::Stop),
    ensures
        apply_all(s, cmds) == RunState::Stopped,
    decreases cmds.len(),
{
    if cmds[0] is Stop {
        lemma_stopped_terminal(cmds.subrange(1, cmds.len() as int));
    } else {
        let i = choose|i: int| 0 <= i < cmds.len() && cmds[i] == ControlCommand::Stop;
        assert(cmds.subrange(1, cmds.len() as int)[i - 1] == ControlCommand::Stop);
        lemma_stop_dominates(apply_command(s, cmds[0]), cmds.subrange(1, cmds.len() as int));
    }
}

/// Repeating a command changes nothing beyond its first processing:
/// `Pause` and `Resume` are idempotent, and `Stop` is absorbing.
pub proof fn lemma_command_idempotent(s: RunState, c: ControlCommand)
    ensures
        apply_command(apply_command(s, c), c) == apply_command(s, c),
{
}

/// The fire-and-forget mailbox from the UI thread to the watch loop.
///
/// Sends queue in order and are never dropped; the loop drains the whole
/// queue on each poll without blocking.  The surrounding program serialises
/// access to it (one lock around the mailbox); the library states what each
/// operation does to the queue.
pub struct ControlChannel {
    queue: Vec<ControlCommand>,
}

impl View for ControlChannel {
    type V = Seq<ControlCommand>;

    closed spec fn view(&self) -> Seq<ControlCommand> {
        self.queue@
    }
}

impl ControlChannel {
    /// An empty mailbox.
    pub fn new() -> (r: ControlChannel)
        ensures
            r@ == Seq::<ControlCommand>::empty(),
    {
        ControlChannel { queue: Vec::new() }
    }

    /// Queue one command at the tail; never blocks and never drops.
    pub fn send(&mut self, c: ControlCommand)
        ensures
            final(self)@ == old(self)@.push(c),
    {
        self.queue.push(c);
    }

    /// Remove and return the oldest queued command, if any; never blocks.
    pub fn try_receive(&mut self) -> (r: Option<ControlCommand>)
        ensures
            old(self)@.len() == 0 ==> r is None && final(self)@ == old(self)@,
            old(self)@.len() > 0 ==> r == Some(old(self)@[0]) && final(self)@ == old(
                self,
            )@.subrange(1, old(self)@.len() as int),
    {
        if self.queue.len() == 0 {
            None
        } else {
            Some(self.queue.remove(0))
        }
    }

    /// Take every queued command at once, in send order, leaving the
    /// mailbox empty.
    pub fn drain(&mut self) -> (r: Vec<ControlCommand>)
        ensures
            r@ == old(self)@,
            final(self)@ == Seq::<ControlCommand>::empty(),
    {
        let mut taken: Vec<ControlCommand> = Vec::new();
        core::mem::swap(&mut taken, &mut self.queue);
        taken
    }

    /// The UI's pause button: one `Pause` send.
    pub fn pause(&mut self)
        ensures
            final(self)@ == old(self)@.push(ControlCommand::Pause),
    {
        self.send(ControlCommand::Pause);
    }

    /// The UI's resume button: one `Resume` send.
    pub fn resume(&mut self)
        ensures
            final(self)@ == old(self)@.push(ControlCommand::Resume),
    {
        self.send(ControlCommand::Resume);
    }

    /// The UI's exit action: one `Stop` send.
    pub fn stop(&mut self)
        ensures
            final(self)@ == old(self)@.push(ControlCommand::Stop),
    {
        self.send(ControlCommand::Stop);
    }

    /// How many commands are waiting.
    pub fn len(&self) -> (r: usize)
        ensures
            r == self@.len(),
    {
        self.queue.len()
    }
}

} // verus!
