//! Core of a directory-watching file renamer.
//!
//! The library owns the logic of the watch/rename pipeline: the run-state
//! machine driven by UI commands, the non-blocking control mailbox, the
//! event filter of the watch loop, the settle-delay timer, and the planner
//! that picks a collision-free, date-stamped destination name.  The thin
//! layer around it performs the actual operating-system work (filesystem
//! notifications, sleeping, the final move) and feeds plain values in.

pub mod config;
pub mod control;
pub mod event;
pub mod fspath;
pub mod handler;
pub mod renamer;
pub mod settle;
pub mod tray_events;
pub mod watch_loop;
