//! The player table, with the moderation actions each view offers.
use vstd::prelude::*;
use crate::command::{targeted, targeted_line};
use crate::protocol::PlayerRow;
use crate::text::{self, chars_of, contains, same, string_of, to_lowercase, trim_chars};
use crate::window::Tone;
use vstd::view::View as _;

verus! {

/// Which slice of the player list is shown. Each one offers different actions.
#[derive(Debug, Clone, Copy, PartialEq, Eq, Structural)]
pub enum View {
    Online,
    Offline,
    Operator,
    Banned,
    Whitelisted,
}

pub open spec fn view_contains(view: View, player: PlayerRow) -> bool {
    match view {
        View::Online => player.online,
        View::Offline => !player.online,
        View::Operator => player.operator,
        View::Banned => player.banned,
        View::Whitelisted => player.whitelisted,
    }
}

pub open spec fn empty_text_of(view: View) -> Seq<char> {
    match view {
        View::Online => "No players online."@,
        View::Offline => "No offline players."@,
        View::Operator => "No operators."@,
        View::Banned => "No banned players."@,
        View::Whitelisted => "Whitelist is empty."@,
    }
}

pub open spec fn view_label(view: View) -> Seq<char> {
    match view {
        View::Online => "Online"@,
        View::Offline => "Offline"@,
        View::Operator => "Operator"@,
        View::Banned => "Banned"@,
        View::Whitelisted => "Whitelisted"@,
    }
}

impl View {
    pub fn empty_message(self) -> (s: &'static str)
        ensures
            s@ == empty_text_of(self),
    {
        match self {
            View::Online => "No players online.",
            View::Offline => "No offline players.",
            View::Operator => "No operators.",
            View::Banned => "No banned players.",
            View::Whitelisted => "Whitelist is empty.",
        }
    }

    /// Whether `player` belongs in this view.
    pub fn contains(self, player: &PlayerRow) -> (b: bool)
        ensures
            b == view_contains(self, *player),
    {
        match self {
            View::Online => player.online,
            View::Offline => !player.online,
            View::Operator => player.operator,
            View::Banned => player.banned,
            View::Whitelisted => player.whitelisted,
        }
    }

    /// The name the picker shows.
    pub fn label(self) -> (s: &'static str)
        ensures
            s@ == view_label(self),
    {
        match self {
            View::Online => "Online",
            View::Offline => "Offline",
            View::Operator => "Operator",
            View::Banned => "Banned",
            View::Whitelisted => "Whitelisted",
        }
    }
}

/// The picker's choices, in order.
pub fn all_views() -> (v: Vec<View>)
    ensures
        v@ == seq![View::Online, View::Offline, View::Operator, View::Banned, View::Whitelisted],
{
    let v = vec![View::Online, View::Offline, View::Operator, View::Banned, View::Whitelisted];
    assert(v@ =~= seq![View::Online, View::Offline, View::Operator, View::Banned, View::Whitelisted]);
    v
}

/// A kick or a ban, which are confirmed rather than fired straight off a hovered row.
#[derive(Debug, Clone, Copy, PartialEq, Eq, Structural)]
pub enum Reason {
    Kick,
    Ban,
}

pub open spec fn reason_command(reason: Reason) -> Seq<char> {
    match reason {
        Reason::Kick => "kick"@,
        Reason::Ban => "ban"@,
    }
}

impl Reason {
    pub fn command(self) -> (s: &'static str)
        ensures
            s@ == reason_command(self),
    {
        match self {
            Reason::Kick => "kick",
            Reason::Ban => "ban",
        }
    }
}

#[derive(Debug, Clone)]
pub enum Message {
    ViewChanged(View),
    SearchChanged(String),
    WhitelistFieldChanged(String),
    AddWhitelist,
    Op(String),
    Deop(String),
    Pardon(String),
    Unwhitelist(String),
    /// Opens the confirmation dialog.
    AskReason(Reason, String),
    ReasonChanged(String),
    ConfirmReason,
    CancelReason,
}

pub struct State {
    pub view: View,
    pub search: String,
    pub whitelist_name: String,
    /// The open kick/ban dialog, if any.
    pub asking: Option<(Reason, String)>,
    pub reason: String,
}

/// Whether a player shows: in the view, and matching the search by name or UUID, ignoring case.
pub open spec fn matches_player(view: View, search: Seq<char>, player: PlayerRow) -> bool {
    view_contains(view, player) && (search.len() == 0 || text::contains_seq(
        text::lowercase(player.name@),
        text::lowercase(search),
    ) || text::contains_seq(text::lowercase(player.uuid@), text::lowercase(search)))
}

/// `<verb> <name>` for a row action.
pub open spec fn row_command(verb: Seq<char>, name: Seq<char>) -> Option<Seq<char>> {
    targeted_line(verb, name, None)
}

pub open spec fn opt_seq(s: Option<String>) -> Option<Seq<char>> {
    match s {
        Some(s) => Some(s@),
        None => None,
    }
}

impl State {
    pub fn new() -> (s: State)
        ensures
            s.view == View::Online,
            s.search@.len() == 0,
            s.whitelist_name@.len() == 0,
            s.asking is None,
            s.reason@.len() == 0,
    {
        State {
            view: View::Online,
            search: String::new(),
            whitelist_name: String::new(),
            asking: None,
            reason: String::new(),
        }
    }

    pub fn matches(&self, player: &PlayerRow) -> (b: bool)
        ensures
            b == matches_player(self.view, self.search@, *player),
    {
        if !self.view.contains(player) {
            return false;
        }
        if self.search.as_str().is_empty() {
            return true;
        }
        let needle = to_lowercase(self.search.as_str());
        let n = chars_of(needle.as_str());
        let name = to_lowercase(player.name.as_str());
        if contains(&chars_of(name.as_str()), &n) {
            return true;
        }
        let uuid = to_lowercase(player.uuid.as_str());
        contains(&chars_of(uuid.as_str()), &n)
    }
}

/// Handles a message from the player page. Returns the console command it runs, if any.
pub fn update(state: &mut State, message: Message) -> (line: Option<String>)
    ensures
        match message {
            Message::ViewChanged(v) => line is None && *final(state) == (State {
                view: v,
                ..*old(state)
            }),
            Message::SearchChanged(s) => line is None && *final(state) == (State {
                search: s,
                ..*old(state)
            }),
            Message::WhitelistFieldChanged(s) => line is None && *final(state) == (State {
                whitelist_name: s,
                ..*old(state)
            }),
            Message::AddWhitelist => {
                let cmd = targeted_line("whitelist add"@, text::trim(old(state).whitelist_name@), None);
                &&& opt_seq(line) == cmd
                &&& cmd is None ==> *final(state) == *old(state)
                &&& cmd is Some ==> final(state).whitelist_name@.len() == 0 && *final(state) == (State {
                    whitelist_name: final(state).whitelist_name,
                    ..*old(state)
                })
            },
            Message::Op(n) => opt_seq(line) == row_command("op"@, n@) && *final(state) == *old(state),
            Message::Deop(n) => opt_seq(line) == row_command("deop"@, n@) && *final(state) == *old(
                state,
            ),
            Message::Pardon(n) => opt_seq(line) == row_command("pardon"@, n@) && *final(state)
                == *old(state),
            Message::Unwhitelist(n) => opt_seq(line) == row_command("whitelist remove"@, n@)
                && *final(state) == *old(state),
            Message::AskReason(r, n) => line is None && final(state).reason@.len() == 0
                && *final(state) == (State {
                asking: Some((r, n)),
                reason: final(state).reason,
                ..*old(state)
            }),
            Message::ReasonChanged(v) => line is None && *final(state) == (State {
                reason: v,
                ..*old(state)
            }),
            Message::ConfirmReason => {
                &&& *final(state) == (State { asking: None, ..*old(state) })
                &&& opt_seq(line) == match old(state).asking {
                    Some((r, n)) => targeted_line(reason_command(r), n@, Some(old(state).reason@)),
                    None => None,
                }
            },
            Message::CancelReason => line is None && *final(state) == (State {
                asking: None,
                ..*old(state)
            }),
        },
{
    match message {
        Message::ViewChanged(v) => {
            state.view = v;
            None
        },
        Message::SearchChanged(s) => {
            state.search = s;
            None
        },
        Message::WhitelistFieldChanged(s) => {
            state.whitelist_name = s;
            None
        },
        Message::AddWhitelist => {
            let v = chars_of(state.whitelist_name.as_str());
            let t = trim_chars(&v);
            let name = string_of(&t);
            let line = targeted("whitelist add", name.as_str(), None);
            if line.is_some() {
                state.whitelist_name = String::new();
            }
            line
        },
        Message::Op(n) => targeted("op", n.as_str(), None),
        Message::Deop(n) => targeted("deop", n.as_str(), None),
        Message::Pardon(n) => targeted("pardon", n.as_str(), None),
        Message::Unwhitelist(n) => targeted("whitelist remove", n.as_str(), None),
        Message::AskReason(r, n) => {
            state.asking = Some((r, n));
            state.reason = String::new();
            None
        },
        Message::ReasonChanged(v) => {
            state.reason = v;
            None
        },
        Message::ConfirmReason => {
            let line = match &state.asking {
                Some((r, n)) => targeted(r.command(), n.as_str(), Some(state.reason.as_str())),
                None => None,
            };
            state.asking = None;
            line
        },
        Message::CancelReason => {
            state.asking = None;
            None
        },
    }
}

/// One button of a player row.
pub struct RowAction {
    pub label: &'static str,
    pub tone: Tone,
    pub message: Message,
}

pub open spec fn action_is(a: RowAction, label: Seq<char>, tone: Tone, message: Message) -> bool {
    a.label@ == label && a.tone == tone && a.message == message
}

/// What each view offers for the player `name`, in the order the row shows them.
pub fn actions(view: View, name: &str) -> (v: Vec<RowAction>)
    ensures
        match view {
            View::Online => v@.len() == 3 && action_is(v@[0], "Op"@, Tone::Accent, Message::Op(
                v@[0].message->Op_0,
            )) && v@[0].message->Op_0@ == name@ && action_is(
                v@[1],
                "Kick"@,
                Tone::Warn,
                Message::AskReason(Reason::Kick, v@[1].message->AskReason_1),
            ) && v@[1].message->AskReason_1@ == name@ && action_is(
                v@[2],
                "Ban"@,
                Tone::Danger,
                Message::AskReason(Reason::Ban, v@[2].message->AskReason_1),
            ) && v@[2].message->AskReason_1@ == name@,
            View::Offline => v@.len() == 2 && action_is(v@[0], "Op"@, Tone::Accent, Message::Op(
                v@[0].message->Op_0,
            )) && v@[0].message->Op_0@ == name@ && action_is(
                v@[1],
                "Ban"@,
                Tone::Danger,
                Message::AskReason(Reason::Ban, v@[1].message->AskReason_1),
            ) && v@[1].message->AskReason_1@ == name@,
            View::Operator => v@.len() == 1 && action_is(
                v@[0],
                "Revoke op"@,
                Tone::Danger,
                Message::Deop(v@[0].message->Deop_0),
            ) && v@[0].message->Deop_0@ == name@,
            View::Banned => v@.len() == 1 && action_is(
                v@[0],
                "Pardon"@,
                Tone::Plain,
                Message::Pardon(v@[0].message->Pardon_0),
            ) && v@[0].message->Pardon_0@ == name@,
            View::Whitelisted => v@.len() == 1 && action_is(
                v@[0],
                "Remove"@,
                Tone::Danger,
                Message::Unwhitelist(v@[0].message->Unwhitelist_0),
            ) && v@[0].message->Unwhitelist_0@ == name@,
        },
{
    let mut v: Vec<RowAction> = Vec::new();
    match view {
        View::Online => {
            v.push(RowAction { label: "Op", tone: Tone::Accent, message: Message::Op(name.to_owned()) });
            v.push(RowAction { label: "Kick", tone: Tone::Warn, message: Message::AskReason(Reason::Kick, name.to_owned()) });
            v.push(RowAction { label: "Ban", tone: Tone::Danger, message: Message::AskReason(Reason::Ban, name.to_owned()) });
        },
        View::Offline => {
            v.push(RowAction { label: "Op", tone: Tone::Accent, message: Message::Op(name.to_owned()) });
            v.push(RowAction { label: "Ban", tone: Tone::Danger, message: Message::AskReason(Reason::Ban, name.to_owned()) });
        },
        View::Operator => {
            v.push(RowAction { label: "Revoke op", tone: Tone::Danger, message: Message::Deop(name.to_owned()) });
        },
        View::Banned => {
            v.push(RowAction { label: "Pardon", tone: Tone::Plain, message: Message::Pardon(name.to_owned()) });
        },
        View::Whitelisted => {
            v.push(RowAction { label: "Remove", tone: Tone::Danger, message: Message::Unwhitelist(name.to_owned()) });
        },
    }
    v
}

pub open spec fn dialog_of(reason: Reason, name: Seq<char>) -> (Seq<char>, Seq<char>, Seq<char>) {
    match reason {
        Reason::Kick => ("Kick "@ + name, "The player is disconnected and may rejoin."@, "Kick"@),
        Reason::Ban => (
            "Ban "@ + name,
            "The player is disconnected and added to the ban list."@,
            "Ban"@,
        ),
    }
}

/// The confirmation dialog's title, explanation and confirm label.
pub fn dialog_text(reason: Reason, name: &str) -> (d: (String, &'static str, &'static str))
    ensures
        (d.0@, d.1@, d.2@) == dialog_of(reason, name@),
{
    let mut title = String::new();
    match reason {
        Reason::Kick => {
            title.append("Kick ");
            title.append(name);
            (title, "The player is disconnected and may rejoin.", "Kick")
        },
        Reason::Ban => {
            title.append("Ban ");
            title.append(name);
            (title, "The player is disconnected and added to the ban list.", "Ban")
        },
    }
}

/// What the table says when no row shows.
pub fn empty_text(view: View, search: &str) -> (s: String)
    ensures
        s@ == (if search@.len() == 0 {
            empty_text_of(view)
        } else {
            "No player matches “"@ + search@ + "”."@
        }),
{
    if search.is_empty() {
        view.empty_message().to_owned()
    } else {
        let mut s = String::new();
        s.append("No player matches “");
        s.append(search);
        s.append("”.");
        s
    }
}

/// The edition column's label and tone; `None` for an edition the table does not know.
pub fn edition_pill(edition: &str) -> (p: Option<(&'static str, Tone)>)
    ensures
        p == (if edition@ == "bedrock"@ {
            Some(("Bedrock", Tone::Good))
        } else if edition@ == "java"@ {
            Some(("Java", Tone::Accent))
        } else {
            None::<(&'static str, Tone)>
        }),
{
    if same(edition, "bedrock") {
        Some(("Bedrock", Tone::Good))
    } else if same(edition, "java") {
        Some(("Java", Tone::Accent))
    } else {
        None
    }
}

/// The ping cell: milliseconds while online, the en dash otherwise.
pub fn ping_text(player: &PlayerRow) -> (s: String)
    ensures
        s@ == (if player.online {
            text::decimal(player.ping_ms as nat) + " ms"@
        } else {
            "–"@
        }),
{
    if player.online {
        let mut s = String::new();
        crate::text::push_decimal(&mut s, player.ping_ms as u128);
        s.append(" ms");
        s
    } else {
        "–".to_owned()
    }
}

/// The online-time cell: how long the player has been on, the en dash when offline.
pub fn online_text(player: &PlayerRow) -> (s: String)
    ensures
        s@ == (if player.online {
            crate::format::duration_text(player.online_secs as nat)
        } else {
            "–"@
        }),
{
    if player.online {
        crate::format::duration(player.online_secs)
    } else {
        "–".to_owned()
    }
}

/// The dimension a player is counted under: the name without its namespace.
pub open spec fn dimension_key(player: PlayerRow) -> Seq<char> {
    crate::format::dimension_text(player.dimension@)
}

/// How many of `players` are in dimension `key`.
pub open spec fn dimension_count(players: Seq<&PlayerRow>, key: Seq<char>) -> nat
    decreases players.len(),
{
    if players.len() == 0 {
        0
    } else {
        dimension_count(players.drop_last(), key) + if dimension_key(*players.last()) == key {
            1nat
        } else {
            0
        }
    }
}

/// Code point order, which is the order of the UTF-8 bytes: a proper prefix comes first.
pub open spec fn lex_less(a: Seq<char>, b: Seq<char>) -> bool
    decreases a.len(),
{
    if a.len() == 0 {
        b.len() > 0
    } else if b.len() == 0 {
        false
    } else if a[0] < b[0] {
        true
    } else if a[0] > b[0] {
        false
    } else {
        lex_less(a.drop_first(), b.drop_first())
    }
}

proof fn lemma_lex_irreflexive(a: Seq<char>)
    ensures
        !lex_less(a, a),
    decreases a.len(),
{
    if a.len() > 0 {
        lemma_lex_irreflexive(a.drop_first());
    }
}

proof fn lemma_lex_total(a: Seq<char>, b: Seq<char>)
    ensures
        a != b ==> lex_less(a, b) || lex_less(b, a),
        lex_less(a, b) ==> !lex_less(b, a),
    decreases a.len(),
{
    if a.len() > 0 && b.len() > 0 {
        lemma_lex_total(a.drop_first(), b.drop_first());
        if a[0] == b[0] && a.drop_first() == b.drop_first() {
            assert(a =~= seq![a[0]] + a.drop_first());
            assert(b =~= seq![b[0]] + b.drop_first());
        }
    } else if a.len() == 0 && b.len() == 0 {
        assert(a =~= b);
    }
}

proof fn lemma_lex_transitive(a: Seq<char>, b: Seq<char>, c: Seq<char>)
    requires
        lex_less(a, b),
        lex_less(b, c),
    ensures
        lex_less(a, c),
    decreases a.len(),
{
    if a.len() > 0 && b.len() > 0 && c.len() > 0 {
        if a[0] == b[0] && b[0] == c[0] {
            lemma_lex_transitive(a.drop_first(), b.drop_first(), c.drop_first());
        }
    }
}

/// The first `i` characters agree, so the order is decided by what follows.
proof fn lemma_lex_skip(a: Seq<char>, b: Seq<char>, i: int)
    requires
        0 <= i <= a.len(),
        i <= b.len(),
        forall|k: int| 0 <= k < i ==> a[k] == b[k],
    ensures
        lex_less(a, b) == lex_less(a.skip(i), b.skip(i)),
    decreases i,
{
    if i > 0 {
        assert(a[0] == b[0]);
        lemma_lex_skip(a.drop_first(), b.drop_first(), i - 1);
        assert(a.drop_first().skip(i - 1) =~= a.skip(i));
        assert(b.drop_first().skip(i - 1) =~= b.skip(i));
    } else {
        assert(a.skip(0) =~= a);
        assert(b.skip(0) =~= b);
    }
}

fn lex_before(a: &[char], b: &[char]) -> (r: bool)
    ensures
        r == lex_less(a@, b@),
{
    let mut i: usize = 0;
    while i < a.len() && i < b.len() && a[i] == b[i]
        invariant
            i <= a@.len(),
            i <= b@.len(),
            forall|k: int| 0 <= k < i ==> a@[k] == b@[k],
        decreases a@.len() - i,
    {
        i += 1;
    }
    proof {
        lemma_lex_skip(a@, b@, i as int);
        if i < a@.len() {
            assert(a@.skip(i as int)[0] == a@[i as int]);
        }
        if i < b@.len() {
            assert(b@.skip(i as int)[0] == b@[i as int]);
        }
    }
    if i == a.len() {
        i < b.len()
    } else if i == b.len() {
        false
    } else {
        a[i] < b[i]
    }
}

fn same_chars(a: &[char], b: &[char]) -> (r: bool)
    ensures
        r == (a@ == b@),
{
    if a.len() != b.len() {
        return false;
    }
    let mut i: usize = 0;
    while i < a.len()
        invariant
            i <= a@.len(),
            a@.len() == b@.len(),
            forall|k: int| 0 <= k < i ==> a@[k] == b@[k],
        decreases a@.len() - i,
    {
        if a[i] != b[i] {
            assert(a@[i as int] != b@[i as int]);
            return false;
        }
        i += 1;
    }
    assert(a@ =~= b@);
    true
}

proof fn lemma_count_bound(players: Seq<&PlayerRow>, key: Seq<char>)
    ensures
        dimension_count(players, key) <= players.len(),
    decreases players.len(),
{
    if players.len() > 0 {
        lemma_count_bound(players.drop_last(), key);
    }
}

proof fn lemma_count_absent(players: Seq<&PlayerRow>, key: Seq<char>)
    requires
        forall|j: int| 0 <= j < players.len() ==> dimension_key(*#[trigger] players[j]) != key,
    ensures
        dimension_count(players, key) == 0,
    decreases players.len(),
{
    if players.len() > 0 {
        assert(dimension_key(*players[players.len() - 1]) != key);
        lemma_count_absent(players.drop_last(), key);
    }
}

pub open spec fn sorted_keys(entries: Seq<(String, usize)>) -> bool {
    forall|i: int, j: int|
        0 <= i < j < entries.len() ==> lex_less(#[trigger] entries[i].0@, #[trigger] entries[j].0@)
}

spec fn key_views(entries: Seq<(Vec<char>, usize)>) -> Seq<(Seq<char>, usize)> {
    entries.map_values(|e: (Vec<char>, usize)| (e.0@, e.1))
}

/// One chip per dimension the given players are in: the dimension without its namespace and how
/// many of them are there, in name order. Players with no dimension are not counted, and no chip
/// stands for a dimension nobody is in: every count is at least one.
#[verifier::spinoff_prover]
#[verifier::rlimit(40)]
pub fn dimension_counts(players: &[&PlayerRow]) -> (v: Vec<(String, usize)>)
    ensures
        sorted_keys(v@),
        forall|i: int|
            0 <= i < v@.len() ==> #[trigger] v@[i].0@.len() > 0 && v@[i].1 > 0 && v@[i].1
                == dimension_count(players@, v@[i].0@),
        forall|j: int|
            0 <= j < players@.len() && dimension_key(*#[trigger] players@[j]).len() > 0 ==> exists|
                i: int,
            |
                0 <= i < v@.len() && #[trigger] v@[i].0@ == dimension_key(*players@[j]),
{
    let mut entries: Vec<(Vec<char>, usize)> = Vec::new();
    let mut n: usize = 0;
    while n < players.len()
        invariant
            n <= players@.len(),
            forall|i: int, j: int|
                0 <= i < j < entries@.len() ==> lex_less(
                    #[trigger] entries@[i].0@,
                    #[trigger] entries@[j].0@,
                ),
            forall|i: int|
                0 <= i < entries@.len() ==> #[trigger] entries@[i].0@.len() > 0 && entries@[i].1
                    > 0 && entries@[i].1 == dimension_count(players@.take(n as int), entries@[i].0@),
            forall|j: int|
                0 <= j < n && dimension_key(*#[trigger] players@[j]).len() > 0 ==> exists|i: int|
                    0 <= i < entries@.len() && #[trigger] entries@[i].0@ == dimension_key(
                        *players@[j],
                    ),
        decreases players@.len() - n,
    {
        let player = players[n];
        let key = chars_of(crate::format::dimension(player.dimension.as_str()));
        let ghost k = key@;
        let ghost before = players@.take(n as int);
        let ghost after = players@.take(n + 1);
        assert(after.drop_last() =~= before);
        assert(after.last() == players@[n as int]);
        assert(k == dimension_key(*players@[n as int]));
        if key.len() == 0 {
            proof {
                assert forall|i: int| 0 <= i < entries@.len() implies #[trigger] entries@[i].0@.len()
                    > 0 && entries@[i].1 > 0 && entries@[i].1 == dimension_count(after, entries@[i].0@) by {
                    let e = entries@[i].0@;
                    assert(e.len() > 0);
                    assert(e != k);
                    assert(dimension_key(*after.last()) == k);
                    assert(dimension_count(after, e) == dimension_count(after.drop_last(), e) + if dimension_key(*after.last()) == e { 1nat } else { 0 });
                    assert(dimension_count(after, e) == dimension_count(before, e));
                }
                assert forall|j: int|
                    0 <= j < n + 1 && dimension_key(*#[trigger] players@[j]).len() > 0 implies exists|
                        i: int,
                    | 0 <= i < entries@.len() && #[trigger] entries@[i].0@ == dimension_key(
                        *players@[j],
                    ) by {
                    if j < n {
                    }
                }
            }
            n += 1;
            continue;
        }
        let mut pos: usize = 0;
        while pos < entries.len() && lex_before(&entries[pos].0, &key)
            invariant
                pos <= entries@.len(),
                forall|i: int| 0 <= i < pos ==> lex_less(#[trigger] entries@[i].0@, k),
                key@ == k,
            decreases entries@.len() - pos,
        {
            pos += 1;
        }
        let found = pos < entries.len() && same_chars(&entries[pos].0, &key);
        let ghost old_entries = entries@;
        if found {
            let count = entries[pos].1;
            proof {
                lemma_count_bound(before, k);
            }
            let (kk, _) = entries.remove(pos);
            entries.insert(pos, (kk, count + 1));
            proof {
                assert forall|i: int| 0 <= i < entries@.len() implies #[trigger] entries@[i].0@.len()
                    > 0 && entries@[i].1 > 0 && entries@[i].1 == dimension_count(after, entries@[i].0@) by {
                    if i == pos {
                        assert(entries@[pos as int].0 == old_entries[pos as int].0);
                        assert(dimension_count(after, k) == dimension_count(before, k) + 1);
                    } else {
                        assert(entries@[i] == old_entries[i]);
                        if old_entries[i].0@ == k {
                            if i < pos {
                                lemma_lex_total(old_entries[pos as int].0@, old_entries[i].0@);
                            } else {
                                lemma_lex_total(old_entries[pos as int].0@, old_entries[i].0@);
                            }
                        }
                    }
                }
                assert forall|i: int, j: int| 0 <= i < j < entries@.len() implies lex_less(
                    #[trigger] entries@[i].0@,
                    #[trigger] entries@[j].0@,
                ) by {
                    assert(entries@[i].0@ == old_entries[i].0@);
                    assert(entries@[j].0@ == old_entries[j].0@);
                }
                assert forall|j: int|
                    0 <= j < n + 1 && dimension_key(*#[trigger] players@[j]).len() > 0 implies exists|
                        i: int,
                    | 0 <= i < entries@.len() && #[trigger] entries@[i].0@ == dimension_key(
                        *players@[j],
                    ) by {
                    if j < n {
                        let i0 = choose|i: int|
                            0 <= i < old_entries.len() && #[trigger] old_entries[i].0@
                                == dimension_key(*players@[j]);
                        assert(entries@[i0].0@ == old_entries[i0].0@);
                    } else {
                        assert(entries@[pos as int].0@ == k);
                    }
                }
            }
        } else {
            proof {
                // `k` is not among the entries yet, so no earlier player was in it.
                assert forall|i: int| 0 <= i < old_entries.len() implies #[trigger] old_entries[i].0@
                    != k by {
                    if i < pos {
                        lemma_lex_irreflexive(k);
                    } else {
                        lemma_lex_total(old_entries[pos as int].0@, k);
                        if i > pos {
                            lemma_lex_transitive(k, old_entries[pos as int].0@, old_entries[i].0@);
                            lemma_lex_irreflexive(k);
                        }
                    }
                }
                assert forall|j: int| 0 <= j < before.len() implies dimension_key(
                    *#[trigger] before[j],
                ) != k by {
                    assert(before[j] == players@[j]);
                    if dimension_key(*players@[j]) == k {
                        let i0 = choose|i: int|
                            0 <= i < old_entries.len() && #[trigger] old_entries[i].0@
                                == dimension_key(*players@[j]);
                        assert(old_entries[i0].0@ != k);
                    }
                }
                lemma_count_absent(before, k);
                lemma_count_bound(before, k);
            }
            entries.insert(pos, (key, 1));
            proof {
                assert forall|i: int| 0 <= i < entries@.len() implies #[trigger] entries@[i].0@.len()
                    > 0 && entries@[i].1 > 0 && entries@[i].1 == dimension_count(after, entries@[i].0@) by {
                    if i < pos {
                        assert(entries@[i] == old_entries[i]);
                    } else if i > pos {
                        assert(entries@[i] == old_entries[i - 1]);
                    }
                }
                assert forall|i: int, j: int| 0 <= i < j < entries@.len() implies lex_less(
                    #[trigger] entries@[i].0@,
                    #[trigger] entries@[j].0@,
                ) by {
                    if pos < old_entries.len() {
                        lemma_lex_total(old_entries[pos as int].0@, k);
                    }
                    if i < pos && j == pos {
                        assert(entries@[i] == old_entries[i]);
                    } else if i < pos && j > pos {
                        assert(entries@[i] == old_entries[i]);
                        assert(entries@[j] == old_entries[j - 1]);
                    } else if i == pos && j > pos {
                        assert(entries@[j] == old_entries[j - 1]);
                        if j - 1 > pos {
                            lemma_lex_transitive(k, old_entries[pos as int].0@, old_entries[j - 1].0@);
                        }
                    } else if i > pos {
                        assert(entries@[i] == old_entries[i - 1]);
                        assert(entries@[j] == old_entries[j - 1]);
                    } else {
                        assert(entries@[i] == old_entries[i]);
                        assert(entries@[j] == old_entries[j]);
                    }
                }
                assert forall|j: int|
                    0 <= j < n + 1 && dimension_key(*#[trigger] players@[j]).len() > 0 implies exists|
                        i: int,
                    | 0 <= i < entries@.len() && #[trigger] entries@[i].0@ == dimension_key(
                        *players@[j],
                    ) by {
                    if j < n {
                        let i0 = choose|i: int|
                            0 <= i < old_entries.len() && #[trigger] old_entries[i].0@
                                == dimension_key(*players@[j]);
                        if i0 < pos {
                            assert(entries@[i0].0@ == old_entries[i0].0@);
                        } else {
                            assert(entries@[i0 + 1].0@ == old_entries[i0].0@);
                        }
                    } else {
                        assert(entries@[pos as int].0@ == k);
                    }
                }
            }
        }
        n += 1;
    }
    assert(players@.take(players@.len() as int) =~= players@);
    let mut out: Vec<(String, usize)> = Vec::new();
    let mut i: usize = 0;
    while i < entries.len()
        invariant
            i <= entries@.len(),
            out@.len() == i,
            forall|m: int| 0 <= m < i ==> #[trigger] out@[m].0@ == entries@[m].0@ && out@[m].1 == entries@[m].1,
        decreases entries@.len() - i,
    {
        let s = string_of(&entries[i].0);
        out.push((s, entries[i].1));
        i += 1;
    }
    proof {
        assert forall|m: int| 0 <= m < out@.len() implies #[trigger] out@[m].0@.len() > 0
            && out@[m].1 > 0 && out@[m].1 == dimension_count(players@, out@[m].0@) by {
            assert(out@[m].0@ == entries@[m].0@);
        }
        assert forall|a: int, b: int| 0 <= a < b < out@.len() implies lex_less(
            #[trigger] out@[a].0@,
            #[trigger] out@[b].0@,
        ) by {
            assert(out@[a].0@ == entries@[a].0@);
            assert(out@[b].0@ == entries@[b].0@);
        }
        assert forall|j: int|
            0 <= j < players@.len() && dimension_key(*#[trigger] players@[j]).len() > 0 implies exists|
                m: int,
            | 0 <= m < out@.len() && #[trigger] out@[m].0@ == dimension_key(*players@[j]) by {
            let i0 = choose|m: int|
                0 <= m < entries@.len() && #[trigger] entries@[m].0@ == dimension_key(*players@[j]);
            assert(out@[i0].0@ == entries@[i0].0@);
        }
    }
    out
}

/// Each view holds exactly the players with its flag: online or not, operators, banned players,
/// whitelisted players. Every player is in exactly one of the online and offline views.
pub proof fn lemma_views_follow_flags(player: PlayerRow)
    ensures
        view_contains(View::Online, player) == player.online,
        view_contains(View::Offline, player) == !player.online,
        view_contains(View::Operator, player) == player.operator,
        view_contains(View::Banned, player) == player.banned,
        view_contains(View::Whitelisted, player) == player.whitelisted,
        view_contains(View::Online, player) != view_contains(View::Offline, player),
{
}

/// A player in the view shows when the search is empty, or when it occurs, ignoring case, in the
/// player's name or in the UUID; a player outside the view, or matching neither, never shows.
pub proof fn lemma_player_search(view: View, search: Seq<char>, player: PlayerRow, at: int)
    ensures
        !view_contains(view, player) ==> !matches_player(view, search, player),
        view_contains(view, player) && search.len() == 0 ==> matches_player(view, search, player),
        view_contains(view, player) && text::occurs_at(
            text::lowercase(player.name@),
            text::lowercase(search),
            at,
        ) ==> matches_player(view, search, player),
        view_contains(view, player) && text::occurs_at(
            text::lowercase(player.uuid@),
            text::lowercase(search),
            at,
        ) ==> matches_player(view, search, player),
        matches_player(view, search, player) && search.len() > 0 ==> exists|i: int|
            text::occurs_at(text::lowercase(player.name@), text::lowercase(search), i)
                || text::occurs_at(text::lowercase(player.uuid@), text::lowercase(search), i),
{
}

} // verus!
