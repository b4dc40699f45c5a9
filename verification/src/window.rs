//! The window's own decisions: its tabs, its theme, when it is ready for commands, and what
//! closing it means.
use vstd::prelude::*;
use crate::protocol::{PlayerRow, ThemePreference};
use crate::text::{chars_of, string_of, trim_chars};

verus! {

#[derive(Debug, Clone, Copy, PartialEq, Eq, Structural)]
pub enum Tab {
    Overview,
    Performance,
    Worlds,
    Players,
    Plugins,
}

pub open spec fn tab_label(tab: Tab) -> Seq<char> {
    match tab {
        Tab::Overview => "Overview"@,
        Tab::Performance => "Performance"@,
        Tab::Worlds => "Worlds"@,
        Tab::Players => "Players"@,
        Tab::Plugins => "Plugins"@,
    }
}

impl Tab {
    pub fn label(self) -> (s: &'static str)
        ensures
            s@ == tab_label(self),
    {
        match self {
            Tab::Overview => "Overview",
            Tab::Performance => "Performance",
            Tab::Worlds => "Worlds",
            Tab::Players => "Players",
            Tab::Plugins => "Plugins",
        }
    }
}

/// The tabs in the order the bar shows them.
pub fn all_tabs() -> (v: Vec<Tab>)
    ensures
        v@ == seq![Tab::Overview, Tab::Performance, Tab::Worlds, Tab::Players, Tab::Plugins],
{
    let v = vec![Tab::Overview, Tab::Performance, Tab::Worlds, Tab::Players, Tab::Plugins];
    assert(v@ =~= seq![Tab::Overview, Tab::Performance, Tab::Worlds, Tab::Players, Tab::Plugins]);
    v
}

/// The `--attach` endpoint, in a named type so it can identify the connection it starts.
#[derive(Debug)]
pub struct Attach(pub Option<String>);

/// Whether the window is dark after the server states its theme preference; `System` keeps the
/// current choice.
pub fn dark_for(current_dark: bool, preference: ThemePreference) -> (dark: bool)
    ensures
        dark == match preference {
            ThemePreference::Dark => true,
            ThemePreference::Light => false,
            ThemePreference::System => current_dark,
        },
{
    match preference {
        ThemePreference::Dark => true,
        ThemePreference::Light => false,
        ThemePreference::System => current_dark,
    }
}

/// True once the server is accepting commands: connected, and not on its way down.
pub fn is_ready(connected: bool, stopping: bool) -> (b: bool)
    ensures
        b == (connected && !stopping),
{
    connected && !stopping
}

/// Whether closing the window stops the server: only one this window started, and only while
/// connected. Attaching to a server must leave that server running.
pub fn stops_on_close(managed: bool, connected: bool) -> (b: bool)
    ensures
        b == (managed && connected),
{
    managed && connected
}

/// The endpoint the setup screen's Attach button connects to: the field's text, trimmed, unless
/// that leaves nothing.
pub fn attach_request(field: &str) -> (r: Option<String>)
    ensures
        r is None <==> crate::text::trim(field@).len() == 0,
        r matches Some(e) ==> e@ == crate::text::trim(field@),
{
    let v = chars_of(field);
    let t = trim_chars(&v);
    if t.len() == 0 {
        None
    } else {
        Some(string_of(&t))
    }
}

/// How many players are online.
pub open spec fn online_count(players: Seq<PlayerRow>) -> nat
    decreases players.len(),
{
    if players.len() == 0 {
        0
    } else {
        online_count(players.drop_last()) + if players.last().online {
            1nat
        } else {
            0
        }
    }
}

pub fn count_online(players: &[PlayerRow]) -> (n: usize)
    ensures
        n == online_count(players@),
{
    let mut n: usize = 0;
    let mut i: usize = 0;
    while i < players.len()
        invariant
            i <= players@.len(),
            n == online_count(players@.take(i as int)),
            n <= i,
        decreases players@.len() - i,
    {
        assert(players@.take(i + 1).drop_last() =~= players@.take(i as int));
        if players[i].online {
            n += 1;
        }
        i += 1;
    }
    assert(players@.take(players@.len() as int) =~= players@);
    n
}

/// The header's title: the server's version once it is ready.
pub fn header_title(server_ready: bool, pumpkin_version: &str) -> (s: String)
    ensures
        s@ == (if server_ready {
            "Pumpkin "@ + pumpkin_version@
        } else {
            "Starting…"@
        }),
{
    if server_ready {
        let mut s = String::new();
        s.append("Pumpkin ");
        s.append(pumpkin_version);
        s
    } else {
        "Starting…".to_owned()
    }
}

/// The theme toggle's glyph: a sun while dark, a moon while light.
pub fn theme_glyph(dark: bool) -> (s: &'static str)
    ensures
        s@ == (if dark {
            "☀"@
        } else {
            "☾"@
        }),
{
    if dark {
        "☀"
    } else {
        "☾"
    }
}

/// A key the command line reacts to besides typing.
#[derive(Debug, Clone, Copy, PartialEq, Eq, Structural)]
pub enum Key {
    ArrowUp,
    ArrowDown,
    Tab,
    Other,
}

/// What a key press does to the console: history and completion keys count only while the
/// command line on the overview has the keyboard and no modifier is held.
#[derive(Debug, Clone, Copy, PartialEq, Eq, Structural)]
pub enum ConsoleKey {
    HistoryPrev,
    HistoryNext,
    Complete,
}

pub fn console_key(typing: bool, on_overview: bool, no_modifiers: bool, key: Key) -> (k: Option<
    ConsoleKey,
>)
    ensures
        !(typing && on_overview && no_modifiers) ==> k is None,
        typing && on_overview && no_modifiers ==> k == match key {
            Key::ArrowUp => Some(ConsoleKey::HistoryPrev),
            Key::ArrowDown => Some(ConsoleKey::HistoryNext),
            Key::Tab => Some(ConsoleKey::Complete),
            Key::Other => None,
        },
{
    if !(typing && on_overview) || !no_modifiers {
        return None;
    }
    match key {
        Key::ArrowUp => Some(ConsoleKey::HistoryPrev),
        Key::ArrowDown => Some(ConsoleKey::HistoryNext),
        Key::Tab => Some(ConsoleKey::Complete),
        Key::Other => None,
    }
}

/// Which of the palette's accents a control or label is drawn in.
#[derive(Debug, Clone, Copy, PartialEq, Eq, Structural)]
pub enum Tone {
    Accent,
    Good,
    Warn,
    Danger,
    /// The ordinary text colour.
    Plain,
    /// The subdued text colour.
    Muted,
}

} // verus!
