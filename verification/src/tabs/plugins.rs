//! The plugin table: which rows show, which is expanded, what each row lets you do, and the
//! console commands behind it.
use vstd::prelude::*;
use crate::command::{quote, quoted};
use crate::protocol::{PluginKind, PluginRow, PluginState};
use crate::text::{self, chars_of, contains, to_lowercase};
use crate::window::Tone;

verus! {

/// Why unload and reload can be unavailable, said on hover since a disabled button cannot.
pub const NOT_READY: &'static str = "The server is not accepting commands yet.";

pub const CANNOT_UNLOAD: &'static str = "This plugin's loader cannot unload at runtime — native plugins on Windows keep their library locked. Restart the server to change it.";

#[derive(Debug, Clone)]
pub enum Message {
    SearchChanged(String),
    /// Expands or collapses one row, by name.
    Toggle(String),
    Load(String),
    Reload(String),
    AskUnload(String),
    ConfirmUnload,
    CancelUnload,
    SetHotReload(bool),
}

pub struct State {
    pub search: String,
    /// The one expanded row, by name. Names are unique per plugin manager.
    pub expanded: Option<String>,
    /// The plugin an unload has been asked about but not yet confirmed.
    pub unloading: Option<String>,
}

/// Whether a plugin shows: matching the search by name or description, ignoring case.
pub open spec fn matches_plugin(search: Seq<char>, plugin: PluginRow) -> bool {
    search.len() == 0 || text::contains_seq(text::lowercase(plugin.name@), text::lowercase(search))
        || text::contains_seq(text::lowercase(plugin.description@), text::lowercase(search))
}

/// `plugin <verb> <argument>`, with the argument quoted; `None` when it cannot be one.
pub open spec fn plugin_command(verb: Seq<char>, argument: Seq<char>) -> Option<Seq<char>> {
    match quoted(argument) {
        Some(q) => Some("plugin "@ + verb + " "@ + q),
        None => None,
    }
}

pub open spec fn opt_seq(s: Option<String>) -> Option<Seq<char>> {
    match s {
        Some(s) => Some(s@),
        None => None,
    }
}

/// The expanded row after a click on row `name`: it opens, or closes if it was the open one.
pub open spec fn toggled(expanded: Option<String>, name: String) -> Option<String> {
    match expanded {
        Some(e) if e@ == name@ => None,
        _ => Some(name),
    }
}

fn plugin_line(verb: &str, argument: &str) -> (line: Option<String>)
    ensures
        opt_seq(line) == plugin_command(verb@, argument@),
{
    match quote(argument) {
        Some(q) => {
            let mut s = String::new();
            s.append("plugin ");
            s.append(verb);
            s.append(" ");
            s.append(q.as_str());
            Some(s)
        },
        None => None,
    }
}

impl State {
    pub fn new() -> (s: State)
        ensures
            s.search@.len() == 0,
            s.expanded is None,
            s.unloading is None,
    {
        State { search: String::new(), expanded: None, unloading: None }
    }

    pub fn matches(&self, plugin: &PluginRow) -> (b: bool)
        ensures
            b == matches_plugin(self.search@, *plugin),
    {
        if self.search.as_str().is_empty() {
            return true;
        }
        let needle = to_lowercase(self.search.as_str());
        let n = chars_of(needle.as_str());
        let name = to_lowercase(plugin.name.as_str());
        if contains(&chars_of(name.as_str()), &n) {
            return true;
        }
        let description = to_lowercase(plugin.description.as_str());
        contains(&chars_of(description.as_str()), &n)
    }
}

/// Handles a message from the plugin page. Returns the console command it runs, if any.
pub fn update(state: &mut State, message: Message) -> (line: Option<String>)
    ensures
        match message {
            Message::SearchChanged(s) => line is None && *final(state) == (State {
                search: s,
                ..*old(state)
            }),
            Message::Toggle(name) => line is None && *final(state) == (State {
                expanded: toggled(old(state).expanded, name),
                ..*old(state)
            }),
            Message::Load(path) => opt_seq(line) == plugin_command("load"@, path@) && *final(state)
                == *old(state),
            Message::Reload(name) => opt_seq(line) == plugin_command("reload"@, name@)
                && *final(state) == *old(state),
            Message::AskUnload(name) => line is None && *final(state) == (State {
                unloading: Some(name),
                ..*old(state)
            }),
            Message::ConfirmUnload => {
                &&& *final(state) == (State { unloading: None, ..*old(state) })
                &&& opt_seq(line) == match old(state).unloading {
                    Some(name) => plugin_command("unload"@, name@),
                    None => None,
                }
            },
            Message::CancelUnload => line is None && *final(state) == (State {
                unloading: None,
                ..*old(state)
            }),
            Message::SetHotReload(enabled) => *final(state) == *old(state) && opt_seq(line)
                == Some("plugin hotreload "@ + if enabled {
                "enable"@
            } else {
                "disable"@
            }),
        },
{
    match message {
        Message::SearchChanged(s) => {
            state.search = s;
            None
        },
        Message::Toggle(name) => {
            let open = match &state.expanded {
                Some(e) => crate::text::same(e.as_str(), name.as_str()),
                None => false,
            };
            state.expanded = if open {
                None
            } else {
                Some(name)
            };
            None
        },
        Message::Load(path) => plugin_line("load", path.as_str()),
        Message::Reload(name) => plugin_line("reload", name.as_str()),
        Message::AskUnload(name) => {
            state.unloading = Some(name);
            None
        },
        Message::ConfirmUnload => {
            let line = match &state.unloading {
                Some(name) => plugin_line("unload", name.as_str()),
                None => None,
            };
            state.unloading = None;
            line
        },
        Message::CancelUnload => {
            state.unloading = None;
            None
        },
        Message::SetHotReload(enabled) => {
            let mut s = String::new();
            s.append("plugin hotreload ");
            s.append(
                if enabled {
                    "enable"
                } else {
                    "disable"
                },
            );
            Some(s)
        },
    }
}

/// Clicking a row opens it when it was closed and closes it when it was open; clicking the same
/// row twice puts the table back as it was, when no other row was open.
pub proof fn lemma_toggle_twice(expanded: Option<String>, name: String)
    requires
        expanded is None || expanded->0@ == name@,
    ensures
        opt_seq(toggled(toggled(expanded, name), name)) == opt_seq(expanded),
        toggled(expanded, name) is Some <==> expanded is None,
{
}

pub open spec fn state_pill_of(state: PluginState) -> (Seq<char>, Tone) {
    match state {
        PluginState::Loading => ("Loading"@, Tone::Warn),
        PluginState::Loaded => ("Active"@, Tone::Good),
        PluginState::Failed(_) => ("Failed"@, Tone::Danger),
        PluginState::Unloaded => ("Unloaded"@, Tone::Danger),
    }
}

/// The label and tone of a plugin's state pill. Anything not running is shown as a danger: a
/// calm colour there would claim the plugin is working.
pub fn state_pill(plugin: &PluginRow) -> (p: (&'static str, Tone))
    ensures
        (p.0@, p.1) == state_pill_of(plugin.state),
{
    match plugin.state {
        PluginState::Loading => ("Loading", Tone::Warn),
        PluginState::Loaded => ("Active", Tone::Good),
        PluginState::Failed(_) => ("Failed", Tone::Danger),
        PluginState::Unloaded => ("Unloaded", Tone::Danger),
    }
}

/// The label and tone of a plugin's kind pill.
pub fn kind_pill(kind: PluginKind) -> (p: (&'static str, Tone))
    ensures
        (p.0@, p.1) == match kind {
            PluginKind::Wasm => ("WASM"@, Tone::Good),
            PluginKind::Native => ("Native"@, Tone::Accent),
        },
{
    match kind {
        PluginKind::Wasm => ("WASM", Tone::Good),
        PluginKind::Native => ("Native", Tone::Accent),
    }
}

pub open spec fn is_loaded(state: PluginState) -> bool {
    state is Loaded
}

/// How many of the plugins are running.
pub open spec fn running_count(plugins: Seq<PluginRow>) -> nat
    decreases plugins.len(),
{
    if plugins.len() == 0 {
        0
    } else {
        running_count(plugins.drop_last()) + if plugins.last().state is Loaded {
            1nat
        } else {
            0
        }
    }
}

/// The toolbar's counts: running, and everything else.
pub fn counts(plugins: &[PluginRow]) -> (c: (usize, usize))
    ensures
        c.0 == running_count(plugins@),
        c.0 + c.1 == plugins@.len(),
{
    let mut running: usize = 0;
    let mut i: usize = 0;
    while i < plugins.len()
        invariant
            i <= plugins@.len(),
            running == running_count(plugins@.take(i as int)),
            running <= i,
        decreases plugins@.len() - i,
    {
        assert(plugins@.take(i + 1).drop_last() =~= plugins@.take(i as int));
        match plugins[i].state {
            PluginState::Loaded => {
                running += 1;
            },
            _ => {},
        }
        i += 1;
    }
    assert(plugins@.take(plugins@.len() as int) =~= plugins@);
    (running, plugins.len() - running)
}

/// What a row's action column offers.
#[derive(Debug)]
pub enum Actions {
    /// Mid-load: the server is already acting on it.
    Nothing,
    /// Not running: a Load button, enabled when it can be pressed.
    Load { enabled: bool },
    /// Running: Reload and Unload, enabled together; when they are not, the hint says why.
    ReloadUnload { enabled: bool, hint: Option<&'static str> },
}

/// The action column for `plugin`; `ready` says whether the server accepts commands.
pub fn actions(plugin: &PluginRow, ready: bool) -> (a: Actions)
    ensures
        match plugin.state {
            PluginState::Loading => a is Nothing,
            PluginState::Failed(_) | PluginState::Unloaded => a == Actions::Load {
                enabled: ready && plugin.path@.len() > 0,
            },
            PluginState::Loaded => a matches Actions::ReloadUnload { enabled, hint } && enabled
                == (ready && plugin.can_unload) && (enabled ==> hint is None) && (!enabled ==> (
            hint matches Some(h) && h@ == (if ready {
                CANNOT_UNLOAD@
            } else {
                NOT_READY@
            }))),
        },
{
    match plugin.state {
        PluginState::Loading => Actions::Nothing,
        PluginState::Failed(_) | PluginState::Unloaded => Actions::Load {
            enabled: ready && !plugin.path.as_str().is_empty(),
        },
        PluginState::Loaded => {
            let enabled = ready && plugin.can_unload;
            let hint = if enabled {
                None
            } else if ready {
                Some(CANNOT_UNLOAD)
            } else {
                Some(NOT_READY)
            };
            Actions::ReloadUnload { enabled, hint }
        },
    }
}

/// What the table says when no row shows.
pub fn empty_text(search: &str) -> (s: String)
    ensures
        s@ == (if search@.len() == 0 {
            "No plugins installed."@
        } else {
            "No plugin matches “"@ + search@ + "”."@
        }),
{
    if search.is_empty() {
        "No plugins installed.".to_owned()
    } else {
        let mut s = String::new();
        s.append("No plugin matches “");
        s.append(search);
        s.append("”.");
        s
    }
}

/// The question the unload dialog asks.
pub fn confirm_text(name: &str) -> (s: String)
    ensures
        s@ == "Unload “"@ + name@ + "”? Anything it registered stops working immediately."@,
{
    let mut s = String::new();
    s.append("Unload “");
    s.append(name);
    s.append("”? Anything it registered stops working immediately.");
    s
}

/// The detail pane's status line: the loader's error, or a plain word that it is not running.
pub fn detail_status(plugin: &PluginRow) -> (s: Option<String>)
    ensures
        match plugin.state {
            PluginState::Failed(e) => s matches Some(t) && t@ == e@,
            PluginState::Unloaded => s matches Some(t) && t@ == "Not running. Load it to start it again."@,
            _ => s is None,
        },
{
    match &plugin.state {
        PluginState::Failed(e) => Some(e.clone()),
        PluginState::Unloaded => Some("Not running. Load it to start it again.".to_owned()),
        _ => None,
    }
}

/// The detail pane's description, or a plain word that there is none.
pub fn description_text(plugin: &PluginRow) -> (s: &str)
    ensures
        s@ == (if plugin.description@.len() == 0 {
            "No description."@
        } else {
            plugin.description@
        }),
{
    if plugin.description.as_str().is_empty() {
        "No description."
    } else {
        plugin.description.as_str()
    }
}

/// The detail pane's dependency line, when there are dependencies.
pub fn dependencies_text(plugin: &PluginRow) -> (s: Option<String>)
    ensures
        plugin.dependencies@.len() == 0 ==> s is None,
        plugin.dependencies@.len() > 0 ==> (s matches Some(t) && t@ == "Depends on: "@
            + crate::format::join(crate::format::views(plugin.dependencies@), ", "@)),
{
    if plugin.dependencies.len() == 0 {
        return None;
    }
    let mut s = String::new();
    s.append("Depends on: ");
    let joined = crate::format::list(plugin.dependencies.as_slice());
    s.append(joined.as_str());
    Some(s)
}

/// The hover text of a permission pill.
pub fn permission_hint(description: &str) -> (s: &str)
    ensures
        s@ == (if description@.len() == 0 {
            "Not a permission this server knows about."@
        } else {
            description@
        }),
{
    if description.is_empty() {
        "Not a permission this server knows about."
    } else {
        description
    }
}

/// A plugin shows when the search is empty, or when it occurs, ignoring case, in the plugin's
/// name or in its description; a plugin matching neither never shows.
pub proof fn lemma_plugin_search(search: Seq<char>, plugin: PluginRow, at: int)
    ensures
        search.len() == 0 ==> matches_plugin(search, plugin),
        text::occurs_at(text::lowercase(plugin.name@), text::lowercase(search), at)
            ==> matches_plugin(search, plugin),
        text::occurs_at(text::lowercase(plugin.description@), text::lowercase(search), at)
            ==> matches_plugin(search, plugin),
        matches_plugin(search, plugin) && search.len() > 0 ==> exists|i: int|
            text::occurs_at(text::lowercase(plugin.name@), text::lowercase(search), i)
                || text::occurs_at(text::lowercase(plugin.description@), text::lowercase(search), i),
{
}

} // verus!
