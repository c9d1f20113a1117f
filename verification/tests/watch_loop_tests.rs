//! Tests of the control protocol and the watch loop's event gate.

use autodate::control::{ControlChannel, ControlCommand, RunState};
use autodate::event::{recv_is_fatal, EventKind, PathStatus, RawEvent, RecvOutcome, WatchError};
use autodate::watch_loop::WatchLoop;

fn created(path: &[u8]) -> RawEvent {
    RawEvent {
        kind: EventKind::Created,
        paths: vec![path.to_vec()],
    }
}

#[test]
fn loop_starts_running() {
    let lp = WatchLoop::new();
    assert_eq!(lp.run_state(), RunState::Running);
    assert!(!lp.should_exit());
}

#[test]
fn commands_drive_the_state_machine() {
    let mut lp = WatchLoop::new();
    lp.apply(ControlCommand::Pause);
    assert_eq!(lp.run_state(), RunState::Paused);
    lp.apply(ControlCommand::Pause);
    assert_eq!(lp.run_state(), RunState::Paused);
    lp.apply(ControlCommand::Resume);
    assert_eq!(lp.run_state(), RunState::Running);
    lp.apply(ControlCommand::Resume);
    assert_eq!(lp.run_state(), RunState::Running);
    lp.apply(ControlCommand::Stop);
    assert_eq!(lp.run_state(), RunState::Stopped);
    assert!(lp.should_exit());
}

#[test]
fn stopped_is_terminal() {
    let mut lp = WatchLoop::new();
    lp.apply(ControlCommand::Stop);
    lp.apply(ControlCommand::Resume);
    assert_eq!(lp.run_state(), RunState::Stopped);
    lp.apply(ControlCommand::Pause);
    assert_eq!(lp.run_state(), RunState::Stopped);
}

#[test]
fn drain_applies_commands_in_send_order() {
    let mut lp = WatchLoop::new();
    let mut ch = ControlChannel::new();
    ch.send(ControlCommand::Pause);
    ch.send(ControlCommand::Resume);
    ch.send(ControlCommand::Pause);
    lp.poll(&mut ch);
    assert_eq!(lp.run_state(), RunState::Paused);
    assert_eq!(ch.len(), 0);

    let mut lp2 = WatchLoop::new();
    let mut ch2 = ControlChannel::new();
    ch2.send(ControlCommand::Pause);
    ch2.send(ControlCommand::Stop);
    ch2.send(ControlCommand::Resume);
    lp2.poll(&mut ch2);
    assert_eq!(lp2.run_state(), RunState::Stopped);
}

#[test]
fn command_interface_maps_to_single_sends() {
    let mut ch = ControlChannel::new();
    ch.pause();
    ch.resume();
    ch.stop();
    assert_eq!(ch.len(), 3);
    assert_eq!(ch.try_receive(), Some(ControlCommand::Pause));
    assert_eq!(ch.try_receive(), Some(ControlCommand::Resume));
    assert_eq!(ch.try_receive(), Some(ControlCommand::Stop));
}

#[test]
fn channel_is_first_in_first_out() {
    let mut ch = ControlChannel::new();
    ch.send(ControlCommand::Pause);
    ch.send(ControlCommand::Stop);
    ch.send(ControlCommand::Resume);
    assert_eq!(ch.len(), 3);
    assert_eq!(ch.try_receive(), Some(ControlCommand::Pause));
    assert_eq!(ch.try_receive(), Some(ControlCommand::Stop));
    assert_eq!(ch.try_receive(), Some(ControlCommand::Resume));
    assert_eq!(ch.try_receive(), None);
    assert_eq!(ch.len(), 0);
}

#[test]
fn scenario_pause_discards_even_if_resume_follows() {
    // Pause is sent, a file is created, Resume is sent before the next
    // poll: the event seen while paused is discarded for good.
    let mut lp = WatchLoop::new();
    let mut ch = ControlChannel::new();
    ch.send(ControlCommand::Pause);
    lp.poll(&mut ch);
    let ev = created(b"root/a.pdf");
    assert!(lp.accept_event(&ev).is_none());
    ch.send(ControlCommand::Resume);
    lp.poll(&mut ch);
    assert_eq!(lp.run_state(), RunState::Running);
    // a later event goes through again
    assert!(lp.accept_event(&created(b"root/b.pdf")).is_some());
}

#[test]
fn scenario_directory_creation_is_ignored() {
    let lp = WatchLoop::new();
    let ev = created(b"root/subdir");
    assert!(lp.accept_event(&ev).is_some());
    assert!(!lp.should_dispatch(&ev, PathStatus::Directory));
    assert!(!lp.should_dispatch(&ev, PathStatus::Missing));
    assert!(lp.should_dispatch(&ev, PathStatus::File));
}

#[test]
fn stop_blocks_queued_events() {
    // Once Stop is processed, no raw event reaches the renamer, even if
    // events were already queued at the event source.
    let mut lp = WatchLoop::new();
    let mut ch = ControlChannel::new();
    ch.send(ControlCommand::Stop);
    lp.poll(&mut ch);
    assert!(lp.should_exit());
    let ev = created(b"root/late.pdf");
    assert!(lp.accept_event(&ev).is_none());
    assert!(!lp.should_dispatch(&ev, PathStatus::File));
}

#[test]
fn only_creation_events_pass_the_gate() {
    let lp = WatchLoop::new();
    for kind in [EventKind::Modified, EventKind::Removed, EventKind::Other] {
        let ev = RawEvent {
            kind,
            paths: vec![b"root/a.pdf".to_vec()],
        };
        assert!(lp.accept_event(&ev).is_none());
    }
    let empty = RawEvent {
        kind: EventKind::Created,
        paths: vec![],
    };
    assert!(lp.accept_event(&empty).is_none());
    let ok = created(b"root/a.pdf");
    assert_eq!(lp.accept_event(&ok), Some(b"root/a.pdf".to_vec()));
}

#[test]
fn only_a_disconnect_is_fatal() {
    assert!(recv_is_fatal(&RecvOutcome::Disconnected));
    assert!(!recv_is_fatal(&RecvOutcome::Malformed));
    assert!(!recv_is_fatal(&RecvOutcome::Event(created(b"root/a.pdf"))));
}

#[test]
fn watch_error_messages_are_stable() {
    assert_eq!(WatchError::SetupFailed.message(), "could not establish the watch");
    assert_eq!(WatchError::Disconnected.message(), "event channel disconnected");
}
