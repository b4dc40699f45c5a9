//! The connection's handshake rules.
use vstd::prelude::*;
use crate::text::push_decimal;

verus! {

pub open spec fn mismatch_text(server: u32, ours: u32) -> Seq<char> {
    "the server speaks GUI protocol v"@ + crate::text::decimal(server as nat)
        + ", this window speaks v"@ + crate::text::decimal(ours as nat)
        + "; rebuild both from the same source"@
}

/// Why a handshake at protocol `server` is refused by a window at protocol `ours`; `None` when
/// they agree. The wire format decodes a skewed variant list silently wrong, so the connection
/// stops at the handshake rather than misreading everything after it.
pub fn protocol_mismatch(server: u32, ours: u32) -> (e: Option<String>)
    ensures
        e is None <==> server == ours,
        e matches Some(m) ==> m@ == mismatch_text(server, ours),
{
    if server == ours {
        return None;
    }
    let mut m = String::new();
    m.append("the server speaks GUI protocol v");
    push_decimal(&mut m, server as u128);
    m.append(", this window speaks v");
    push_decimal(&mut m, ours as u128);
    m.append("; rebuild both from the same source");
    Some(m)
}

/// What the connection reports when the server's first message is not its greeting.
pub const NOT_HELLO: &'static str = "expected Hello as the server's first message";

/// The server's first message, as far as the handshake cares.
#[derive(Debug)]
pub enum Greeting {
    Hello { protocol: u32 },
    /// Any other message.
    Other,
    /// The stream broke or did not decode; the reason.
    Broken(String),
}

/// Whether the connection may go on after the server's first message; when not, why.
pub fn handshake(first: Greeting, ours: u32) -> (r: Result<(), String>)
    ensures
        match first {
            Greeting::Hello { protocol } => (r is Ok <==> protocol == ours) && (r matches Err(m)
                ==> m@ == mismatch_text(protocol, ours)),
            Greeting::Other => r matches Err(m) && m@ == NOT_HELLO@,
            Greeting::Broken(e) => r matches Err(m) && m == e,
        },
{
    match first {
        Greeting::Hello { protocol } => match protocol_mismatch(protocol, ours) {
            Some(m) => Err(m),
            None => Ok(()),
        },
        Greeting::Other => Err(NOT_HELLO.to_owned()),
        Greeting::Broken(e) => Err(e),
    }
}

/// A later message, as far as the reading loop cares.
#[derive(Debug, Clone, Copy, PartialEq, Eq, Structural)]
pub enum Incoming {
    /// Something for the window.
    Update,
    /// The server is going down.
    ShuttingDown,
    /// A second greeting: only ever sent once, right after accepting, so seeing it again is a
    /// protocol violation.
    Hello,
    /// The stream broke.
    Broken,
}

/// Whether the reading loop passes the message on and goes on; anything else ends the
/// connection.
pub fn keeps_reading(incoming: Incoming) -> (b: bool)
    ensures
        b == (incoming == Incoming::Update),
{
    match incoming {
        Incoming::Update => true,
        _ => false,
    }
}

} // verus!
