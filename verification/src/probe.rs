//! Decides whether a candidate binary is a GUI-capable Pumpkin server, from what it printed when
//! run with `--version`, before it is persisted to `gui.conf` or spawned.
//!
//! Running the binary is the caller's work. What counts as a Pumpkin version line, and as one of
//! a build with the GUI feature, is the server's own rule; the caller hands in its verdicts on the
//! first line of output, which [`first_line`] extracts.
use vstd::prelude::*;
use crate::text::{self, chars_of, string_of, trim_chars};

verus! {

/// How long the binary gets to answer, in milliseconds.
pub const PROBE_TIMEOUT_MS: u64 = 5000;

/// The pause between looks at the running binary, in milliseconds.
pub const POLL_MS: u64 = 50;

/// Why a candidate binary was rejected.
#[derive(Debug)]
pub enum ProbeError {
    /// The file could not be executed at all; the operating system's reason.
    Spawn(String),
    /// It did not answer `--version` in time.
    Timeout,
    /// It exited non-zero.
    Failed { status: String, stderr: String },
    /// It ran, but its output is not a Pumpkin version line.
    NotPumpkin { first_line: String },
    /// It is a Pumpkin server, but built without the `gui` feature.
    NoGuiFeature { version: String },
}

/// What the binary did when run with `--version`.
pub struct ProbeOutput {
    pub success: bool,
    /// The exit status as the operating system describes it.
    pub status: String,
    pub stdout: String,
    pub stderr: String,
}

/// After one look at the running binary.
#[derive(Debug)]
pub enum ProbeStep {
    /// It has exited: collect its output and classify it.
    Collect,
    /// Still running: pause and look again.
    Wait,
    /// Still running past the timeout: kill it and reject it.
    GiveUp,
}

pub open spec fn line_end(s: Seq<char>) -> int
    decreases s.len(),
{
    if s.len() == 0 || s[0] == '\n' {
        0
    } else {
        1 + line_end(s.drop_first())
    }
}

/// The trimmed first line of `stdout`, empty when there is none.
pub open spec fn first_line_text(stdout: Seq<char>) -> Seq<char> {
    text::trim(stdout.take(line_end(stdout)))
}

pub open spec fn message_text(e: ProbeError) -> Seq<char> {
    match e {
        ProbeError::Spawn(err) => "could not run it: "@ + err@,
        ProbeError::Timeout => "it did not answer --version in time"@,
        ProbeError::Failed { status, stderr } => if stderr@.len() == 0 {
            "it exited with "@ + status@
        } else {
            "it exited with "@ + status@ + ": "@ + stderr@
        },
        ProbeError::NotPumpkin { first_line } => "this does not look like a Pumpkin server (it printed: "@
            + first_line@ + ")"@,
        ProbeError::NoGuiFeature { version } => "this Pumpkin build has no GUI support ("@
            + version@ + "); rebuild it with `cargo build --release --features gui`"@,
    }
}

impl ProbeError {
    /// The sentence the setup screen shows for this rejection.
    pub fn message(&self) -> (s: String)
        ensures
            s@ == message_text(*self),
    {
        let mut s = String::new();
        match self {
            ProbeError::Spawn(err) => {
                s.append("could not run it: ");
                s.append(err.as_str());
            },
            ProbeError::Timeout => {
                s.append("it did not answer --version in time");
            },
            ProbeError::Failed { status, stderr } => {
                s.append("it exited with ");
                s.append(status.as_str());
                if stderr.as_str().unicode_len() > 0 {
                    s.append(": ");
                    s.append(stderr.as_str());
                }
            },
            ProbeError::NotPumpkin { first_line } => {
                s.append("this does not look like a Pumpkin server (it printed: ");
                s.append(first_line.as_str());
                s.append(")");
            },
            ProbeError::NoGuiFeature { version } => {
                s.append("this Pumpkin build has no GUI support (");
                s.append(version.as_str());
                s.append("); rebuild it with `cargo build --release --features gui`");
            },
        }
        s
    }
}

/// The first line of what the binary printed, trimmed.
pub fn first_line(stdout: &str) -> (line: String)
    ensures
        line@ == first_line_text(stdout@),
{
    let v = chars_of(stdout);
    let mut i: usize = 0;
    assert(v@.skip(0) =~= v@);
    while i < v.len() && v[i] != '\n'
        invariant
            i <= v@.len(),
            v@ == stdout@,
            line_end(v@) == i + line_end(v@.skip(i as int)),
        decreases v@.len() - i,
    {
        assert(v@.skip(i as int).drop_first() =~= v@.skip(i + 1));
        i += 1;
    }
    proof {
        if i < v@.len() {
            assert(v@.skip(i as int)[0] == v@[i as int]);
        }
    }
    let mut head: Vec<char> = Vec::new();
    let mut k: usize = 0;
    while k < i
        invariant
            k <= i <= v@.len(),
            head@ == v@.take(k as int),
        decreases i - k,
    {
        assert(v@.take(k + 1) =~= v@.take(k as int).push(v@[k as int]));
        head.push(v[k]);
        k += 1;
    }
    let t = trim_chars(&head);
    string_of(&t)
}

/// Whether the binary may be driven by this window, given what it printed and the server's
/// verdicts on its first line: whether it is a Pumpkin version line, and whether that build has the
/// GUI feature.
pub fn classify(output: &ProbeOutput, is_pumpkin_line: bool, gui_capable_line: bool) -> (r: Result<
    (),
    ProbeError,
>)
    ensures
        !output.success ==> (r matches Err(ProbeError::Failed { status, stderr }) && status
            == output.status && stderr@ == text::trim(output.stderr@)),
        output.success && !is_pumpkin_line ==> (r matches Err(ProbeError::NotPumpkin { first_line })
            && first_line@ == first_line_text(output.stdout@)),
        output.success && is_pumpkin_line && !gui_capable_line ==> (r matches Err(
            ProbeError::NoGuiFeature { version },
        ) && version@ == first_line_text(output.stdout@)),
        r is Ok <==> (output.success && is_pumpkin_line && gui_capable_line),
{
    if !output.success {
        let e = chars_of(output.stderr.as_str());
        let t = trim_chars(&e);
        return Err(ProbeError::Failed { status: output.status.clone(), stderr: string_of(&t) });
    }
    let line = first_line(output.stdout.as_str());
    if !is_pumpkin_line {
        return Err(ProbeError::NotPumpkin { first_line: line });
    }
    if !gui_capable_line {
        return Err(ProbeError::NoGuiFeature { version: line });
    }
    Ok(())
}

/// What one look at the running binary leads to: `exited` says whether it has finished, and
/// `elapsed_ms` how long it has been running.
pub fn probe_step(exited: bool, elapsed_ms: u64) -> (s: ProbeStep)
    ensures
        s == (if exited {
            ProbeStep::Collect
        } else if elapsed_ms >= PROBE_TIMEOUT_MS {
            ProbeStep::GiveUp
        } else {
            ProbeStep::Wait
        }),
{
    if exited {
        ProbeStep::Collect
    } else if elapsed_ms >= PROBE_TIMEOUT_MS {
        ProbeStep::GiveUp
    } else {
        ProbeStep::Wait
    }
}

} // verus!
