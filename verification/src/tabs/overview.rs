//! The landing page's stat tiles: the captions and values that are counts rather than gauges.
use vstd::prelude::*;
use crate::format::{bytes, bytes_text, duration, duration_text};
use crate::text::push_decimal;

verus! {

/// The CPU tile's caption.
pub fn cores_caption(cores: usize) -> (s: String)
    ensures
        s@ == crate::text::decimal(cores as nat) + " cores"@,
{
    let mut s = String::new();
    push_decimal(&mut s, cores as u128);
    s.append(" cores");
    s
}

/// The memory tile's caption: what the whole system uses of what it has.
pub fn memory_caption(used: u64, total: u64) -> (s: String)
    ensures
        s@ == "system "@ + bytes_text(Some(used)) + " / "@ + bytes_text(Some(total)),
{
    let mut s = String::new();
    s.append("system ");
    s.append(bytes(Some(used)).as_str());
    s.append(" / ");
    s.append(bytes(Some(total)).as_str());
    s
}

/// The storage tile's value: the worlds' size, or a word that it is still being measured.
pub fn storage_value(worlds_size_bytes: Option<u64>) -> (s: String)
    ensures
        s@ == match worlds_size_bytes {
            Some(size) => bytes_text(Some(size)),
            None => "scanning…"@,
        },
{
    match worlds_size_bytes {
        Some(size) => bytes(Some(size)),
        None => "scanning…".to_owned(),
    }
}

/// The storage tile's caption: free space of the disk's size.
pub fn storage_caption(free: u64, total: u64) -> (s: String)
    ensures
        s@ == bytes_text(Some(free)) + " free of "@ + bytes_text(Some(total)),
{
    let mut s = bytes(Some(free));
    s.append(" free of ");
    s.append(bytes(Some(total)).as_str());
    s
}

/// The players tile's caption: the server's uptime.
pub fn uptime_caption(uptime_secs: u64) -> (s: String)
    ensures
        s@ == "up "@ + duration_text(uptime_secs as nat),
{
    let mut s = String::new();
    s.append("up ");
    s.append(duration(uptime_secs).as_str());
    s
}

/// A throughput headline on the performance page: an arrow for the direction, then the rate.
pub fn throughput(inbound: bool, bytes_per_second: u64) -> (s: String)
    ensures
        s@ == (if inbound {
            "↓ "@
        } else {
            "↑ "@
        }) + bytes_text(Some(bytes_per_second)) + "/s"@,
{
    let mut s = String::new();
    s.append(
        if inbound {
            "↓ "
        } else {
            "↑ "
        },
    );
    s.append(crate::format::rate(bytes_per_second).as_str());
    s
}

/// The server's addresses worth showing, with their labels: those that are set.
pub fn addresses(java: &str, bedrock: &str) -> (v: Vec<(String, &'static str)>)
    ensures
        v@.len() == (if java@.len() > 0 {
            1int
        } else {
            0
        }) + (if bedrock@.len() > 0 {
            1int
        } else {
            0
        }),
        java@.len() > 0 ==> v@[0].0@ == java@ && v@[0].1@ == "Java Edition"@,
        bedrock@.len() > 0 ==> v@.last().0@ == bedrock@ && v@.last().1@ == "Bedrock Edition"@,
{
    let mut v: Vec<(String, &'static str)> = Vec::new();
    if !java.is_empty() {
        v.push((java.to_owned(), "Java Edition"));
    }
    if !bedrock.is_empty() {
        v.push((bedrock.to_owned(), "Bedrock Edition"));
    }
    v
}

} // verus!
