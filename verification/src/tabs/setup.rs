//! The first-run screen: shown whenever the launcher has not resolved a server to talk to.
use vstd::prelude::*;
use crate::launcher::Status;

verus! {

/// The setup card's heading while nothing has failed.
pub const HEADLINE_SETUP: &'static str = "Set up Pumpkin";

/// The lead text when no server was found.
pub const NO_SERVER: &'static str = "No server was found next to pumpkin-gui. Choose the server executable, or connect to one that's already running.";

/// The screen's headline, its message, and whether that message is an error.
pub open spec fn parts_of(status: Status) -> (Seq<char>, Seq<char>, bool) {
    match status {
        Status::Resolving => (HEADLINE_SETUP@, "Looking for a server…"@, false),
        Status::NeedsSetup | Status::Connected => (HEADLINE_SETUP@, Seq::empty(), false),
        Status::Launching(m) | Status::Connecting(m) => (HEADLINE_SETUP@, m@, false),
        Status::Error(m) => (HEADLINE_SETUP@, m@, true),
    }
}

/// Splits the current status into what the screen renders.
pub fn parts(status: &Status) -> (p: (&'static str, String, bool))
    ensures
        (p.0@, p.1@, p.2) == parts_of(*status),
{
    match status {
        Status::Resolving => (HEADLINE_SETUP, "Looking for a server…".to_owned(), false),
        Status::NeedsSetup | Status::Connected => (HEADLINE_SETUP, String::new(), false),
        Status::Launching(m) | Status::Connecting(m) => (HEADLINE_SETUP, m.clone(), false),
        Status::Error(m) => (HEADLINE_SETUP, m.clone(), true),
    }
}

/// Whether the screen shows the status message under the controls: only while something is being
/// tried, and never an error, which leads the card instead.
pub fn shows_progress(status: &Status) -> (b: bool)
    ensures
        b == (!parts_of(*status).2 && parts_of(*status).1.len() > 0),
{
    let (_, message, failed) = parts(status);
    !failed && !message.as_str().is_empty()
}

/// Whether the window still needs the setup screen: anything short of a connection.
pub fn needs_setup(status: &Status) -> (b: bool)
    ensures
        b == !(*status is Connected),
{
    match status {
        Status::Connected => false,
        _ => true,
    }
}

} // verus!
