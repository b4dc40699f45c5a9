//! Resolves how to reach a server, and what to report while doing it.
//!
//! Spawning the server, connecting and sleeping between attempts are the caller's work; every
//! decision about them, and every status it shows, is made here.
use vstd::prelude::*;
use crate::config::Connection;

verus! {

/// How far along resolving/connecting we are, for the setup screen to render.
#[derive(Debug, Clone)]
pub enum Status {
    Resolving,
    NeedsSetup,
    Launching(String),
    Connecting(String),
    Connected,
    Error(String),
}

/// A copy of `s`, variant and text alike.
pub fn copy_status(s: &Status) -> (r: Status)
    ensures
        r == *s,
{
    match s {
        Status::Resolving => Status::Resolving,
        Status::NeedsSetup => Status::NeedsSetup,
        Status::Launching(m) => Status::Launching(m.clone()),
        Status::Connecting(m) => Status::Connecting(m.clone()),
        Status::Connected => Status::Connected,
        Status::Error(m) => Status::Error(m.clone()),
    }
}

/// What the launcher has resolved so far: the status on show, and whether the server it talks to
/// is one this window started.
pub struct Launcher {
    pub status: Status,
    pub managed: bool,
}

/// What to do once resolution has looked at its sources.
#[derive(Debug)]
pub enum Plan {
    /// Connect to a server that is already running; nothing is spawned.
    Attach(String),
    /// Start the server binary and connect to it. `save` asks for the choice to be persisted
    /// first, as it is when the binary was found next to the window rather than configured.
    Spawn { binary_path: String, save: bool },
    /// Nothing to go on: show the setup screen.
    NeedsSetup,
}

/// After one look at the child process during shutdown.
#[derive(Debug, PartialEq, Eq)]
pub enum ShutdownStep {
    /// It has exited; nothing more to do.
    Exited,
    /// Still running: sleep, then look again.
    Wait,
    /// Still running after the last look: sleep, then kill it.
    Kill,
}

/// How many times shutdown looks for the child to exit (100 ms apart) before killing it.
pub const SHUTDOWN_POLLS: u32 = 50;

/// How long connecting keeps retrying, in milliseconds.
pub const CONNECT_DEADLINE_MS: u64 = 10_000;

/// The pause between connection attempts, in milliseconds.
pub const RETRY_PAUSE_MS: u64 = 200;

pub open spec fn connecting_text(endpoint: Seq<char>) -> Seq<char> {
    "Connecting to "@ + endpoint + "…"@
}

pub open spec fn starting_text(binary_path: Seq<char>) -> Seq<char> {
    "Starting "@ + binary_path + "…"@
}

pub open spec fn start_failed_text(binary_path: Seq<char>, err: Seq<char>) -> Seq<char> {
    "Could not start "@ + binary_path + ": "@ + err
}

pub open spec fn connect_failed_text(endpoint: Seq<char>, err: Seq<char>) -> Seq<char> {
    "Could not connect to "@ + endpoint + ": "@ + err
}

/// The status on show.
pub fn status(launcher: &Launcher) -> (s: Status)
    ensures
        s == launcher.status,
{
    copy_status(&launcher.status)
}

/// True once a source (`gui.conf`, auto-detect, or the wizard) has resolved to spawning the
/// server.
pub fn is_managed(launcher: &Launcher) -> (b: bool)
    ensures
        b == launcher.managed,
{
    launcher.managed
}

/// The endpoint to attach to straight away: the one the server put in the environment when it
/// spawned this window, else the `--attach` flag.
pub fn attach_endpoint(env_endpoint: Option<String>, cli_attach: Option<String>) -> (r: Option<
    String,
>)
    ensures
        r == (if env_endpoint is Some {
            env_endpoint
        } else {
            cli_attach
        }),
{
    match env_endpoint {
        Some(e) => Some(e),
        None => cli_attach,
    }
}

/// The plan for a saved preference.
pub fn plan_from_saved(saved: Connection) -> (p: Plan)
    ensures
        p == (match saved {
            Connection::Managed { binary_path } => Plan::Spawn { binary_path, save: false },
            Connection::Attach { endpoint } => Plan::Attach(endpoint),
        }),
{
    match saved {
        Connection::Managed { binary_path } => Plan::Spawn { binary_path, save: false },
        Connection::Attach { endpoint } => Plan::Attach(endpoint),
    }
}

/// The plan when nothing is saved: a binary found next to the window is started (and remembered),
/// otherwise the user is asked.
pub fn plan_from_detected(detected: Option<String>) -> (p: Plan)
    ensures
        p == (match detected {
            Some(binary_path) => Plan::Spawn { binary_path, save: true },
            None => Plan::NeedsSetup,
        }),
{
    match detected {
        Some(binary_path) => Plan::Spawn { binary_path, save: true },
        None => Plan::NeedsSetup,
    }
}

/// What one look at the child during shutdown leads to; `polls_done` counts earlier looks.
pub fn shutdown_step(polls_done: u32, exited: bool) -> (s: ShutdownStep)
    requires
        polls_done < SHUTDOWN_POLLS,
    ensures
        s == (if exited {
            ShutdownStep::Exited
        } else if polls_done + 1 < SHUTDOWN_POLLS {
            ShutdownStep::Wait
        } else {
            ShutdownStep::Kill
        }),
{
    if exited {
        ShutdownStep::Exited
    } else if polls_done + 1 < SHUTDOWN_POLLS {
        ShutdownStep::Wait
    } else {
        ShutdownStep::Kill
    }
}

impl Launcher {
    pub fn new() -> (l: Launcher)
        ensures
            l.status == Status::Resolving,
            !l.managed,
    {
        Launcher { status: Status::Resolving, managed: false }
    }

    pub fn set_status(&mut self, status: Status)
        ensures
            final(self).status == status,
            final(self).managed == old(self).managed,
    {
        self.status = status;
    }

    /// Nothing was found to start or attach to.
    pub fn needs_setup(&mut self)
        ensures
            final(self).status == Status::NeedsSetup,
            final(self).managed == old(self).managed,
    {
        self.status = Status::NeedsSetup;
    }

    /// About to connect to `endpoint`, a server this window did not start.
    pub fn begin_attach(&mut self, endpoint: &str)
        ensures
            !final(self).managed,
            final(self).status matches Status::Connecting(m) && m@ == connecting_text(endpoint@),
    {
        self.managed = false;
        self.begin_connect(endpoint);
    }

    /// About to connect to `endpoint`; whether the server is managed is left as it is.
    pub fn begin_connect(&mut self, endpoint: &str)
        ensures
            final(self).managed == old(self).managed,
            final(self).status matches Status::Connecting(m) && m@ == connecting_text(endpoint@),
    {
        let mut m = String::new();
        m.append("Connecting to ");
        m.append(endpoint);
        m.append("…");
        self.status = Status::Connecting(m);
    }

    /// About to start the server binary at `binary_path`.
    pub fn begin_spawn(&mut self, binary_path: &str)
        ensures
            final(self).managed,
            final(self).status matches Status::Launching(m) && m@ == starting_text(binary_path@),
    {
        self.managed = true;
        let mut m = String::new();
        m.append("Starting ");
        m.append(binary_path);
        m.append("…");
        self.status = Status::Launching(m);
    }

    /// The binary at `binary_path` could not be started.
    pub fn spawn_failed(&mut self, binary_path: &str, err: &str)
        ensures
            final(self).managed == old(self).managed,
            final(self).status matches Status::Error(m) && m@ == start_failed_text(
                binary_path@,
                err@,
            ),
    {
        let mut m = String::new();
        m.append("Could not start ");
        m.append(binary_path);
        m.append(": ");
        m.append(err);
        self.status = Status::Error(m);
    }

    /// The handshake succeeded.
    pub fn connected(&mut self)
        ensures
            final(self).status == Status::Connected,
            final(self).managed == old(self).managed,
    {
        self.status = Status::Connected;
    }

    /// A connection attempt to `endpoint` failed with `err`, `elapsed_ms` after connecting began.
    /// Returns whether to pause and try again; once the deadline has passed it gives up and says
    /// why instead.
    pub fn attempt_failed(&mut self, endpoint: &str, err: &str, elapsed_ms: u64) -> (retry: bool)
        ensures
            retry == (elapsed_ms < CONNECT_DEADLINE_MS),
            final(self).managed == old(self).managed,
            retry ==> final(self).status == old(self).status,
            !retry ==> (final(self).status matches Status::Error(m) && m@ == connect_failed_text(
                endpoint@,
                err@,
            )),
    {
        if elapsed_ms >= CONNECT_DEADLINE_MS {
            let mut m = String::new();
            m.append("Could not connect to ");
            m.append(endpoint);
            m.append(": ");
            m.append(err);
            self.status = Status::Error(m);
            false
        } else {
            true
        }
    }
}

} // verus!
