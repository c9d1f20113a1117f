//! The data the watch loop consumes: raw notifications, probe results,
//! and the session-level errors.
//!
//! Notifications are produced by the operating system at the program's
//! edge and handed in as plain values: a kind and the affected paths as
//! bytes.

use vstd::prelude::*;

verus! {

/// The kind of a raw notification.
#[derive(Clone, Copy, Debug, PartialEq, Eq, Structural)]
pub enum EventKind {
    Created,
    Modified,
    Removed,
    Other,
}

/// One notification: a kind and the ordered, non-empty list of affected
/// paths.  Consumed exactly once by the watch loop; never persisted.
#[derive(Debug)]
pub struct RawEvent {
    pub kind: EventKind,
    pub paths: Vec<Vec<u8>>,
}

/// What a metadata probe of a path found, supplied by the I/O layer;
/// a path may well be gone again by the time it is probed.
#[derive(Clone, Copy, Debug, PartialEq, Eq, Structural)]
pub enum PathStatus {
    Missing,
    Directory,
    File,
}

/// Errors of the watch session itself, as opposed to one file's rename:
/// the watch could not be established, or a channel closed under the
/// loop.  Both are fatal to the session.
#[derive(Clone, Copy, Debug, PartialEq, Eq, Structural)]
pub enum WatchError {
    SetupFailed,
    Disconnected,
}

impl WatchError {
    /// A short description of the failure, for display by the caller.
    pub fn message(&self) -> (r: &'static str)
        ensures
            self is SetupFailed ==> r@ == "could not establish the watch"@,
            self is Disconnected ==> r@ == "event channel disconnected"@,
    {
        match self {
            WatchError::SetupFailed => "could not establish the watch",
            WatchError::Disconnected => "event channel disconnected",
        }
    }
}

/// What one attempt by the I/O layer to pull a notification produced:
/// an event, a single malformed notification (skipped, non-fatal), or a
/// channel disconnect (fatal).
#[derive(Debug)]
pub enum RecvOutcome {
    Event(RawEvent),
    Malformed,
    Disconnected,
}

/// Whether an outcome of the event channel ends the session: only a
/// disconnect does; a malformed notification is logged and skipped.
pub fn recv_is_fatal(o: &RecvOutcome) -> (r: bool)
    ensures
        r == (o is Disconnected),
{
    match o {
        RecvOutcome::Disconnected => true,
        _ => false,
    }
}

} // verus!
