//! The events and item kinds of the tray menu.
//!
//! The menu itself (icons, windows, the event loop of the UI toolkit)
//! lives at the program's edge; the library owns the plain mapping
//! between menu identifiers and events.

use vstd::prelude::*;

verus! {

/// What a click in the tray menu means.
#[derive(Clone, Copy, Debug, PartialEq, Eq, Structural)]
pub enum TrayEvent {
    Title,
    Running,
    Exit,
}

/// The kind of a tray menu item.
#[derive(Clone, Copy, Debug, PartialEq, Eq, Structural)]
pub enum TrayMenuItemType {
    Check,
    Icon,
    Normal,
}

/// Relies on `str`'s equality: two string slices are equal exactly when
/// their character sequences are.
#[verifier::external_body]
fn str_eq(a: &str, b: &str) -> (r: bool)
    ensures
        r == (a@ == b@),
{
    a == b
}

impl TrayEvent {
    /// The menu identifier of this event.
    pub fn as_str(&self) -> (r: &'static str)
        ensures
            self is Title ==> r@ == "Title"@,
            self is Running ==> r@ == "Running"@,
            self is Exit ==> r@ == "Exit"@,
    {
        match self {
            TrayEvent::Title => "Title",
            TrayEvent::Running => "Running",
            TrayEvent::Exit => "Exit",
        }
    }
}

impl vstd::std_specs::convert::FromSpecImpl<&str> for TrayEvent {
    open spec fn obeys_from_spec() -> bool {
        true
    }

    open spec fn from_spec(s: &str) -> TrayEvent {
        if s@ == "Running"@ {
            TrayEvent::Running
        } else if s@ == "Exit"@ {
            TrayEvent::Exit
        } else {
            TrayEvent::Title
        }
    }
}

impl From<&str> for TrayEvent {
    /// The event named by a menu identifier; unknown identifiers fall
    /// back to `Title`.
    fn from(s: &str) -> (r: TrayEvent) {
        if str_eq(s, "Running") {
            TrayEvent::Running
        } else if str_eq(s, "Exit") {
            TrayEvent::Exit
        } else {
            TrayEvent::Title
        }
    }
}

} // verus!
