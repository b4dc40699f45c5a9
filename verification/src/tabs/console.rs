//! The console page: which log lines are on show, the scrollback the window keeps, and the command
//! line with its history and completion.
//!
//! The log is shown as one text over the whole scrollback, so what changes it is described here
//! as text: the full text after a filter change, or the text to paste at the end when new lines
//! arrive.
use vstd::prelude::*;
use std::collections::VecDeque;
use crate::protocol::{LogLevel, LogLine, StyledRun};
use crate::window::Tone;
use crate::text::{self, chars_of, contains, push_char, string_of, to_lowercase, trim_chars};

verus! {

/// How much scrollback the window keeps, independent of the server's own ring size.
pub const LOG_CAPACITY: usize = 20_000;

/// Which levels are shown. The picker offers only these four.
#[derive(Debug, Clone, Copy, PartialEq, Eq, Structural)]
pub enum Level {
    All,
    Info,
    Warn,
    Error,
}

pub open spec fn rank_of(level: Level) -> u8 {
    match level {
        Level::All => 0,
        Level::Info => 2,
        Level::Warn => 3,
        Level::Error => 4,
    }
}

pub open spec fn level_rank_of(level: LogLevel) -> u8 {
    match level {
        LogLevel::Trace => 0,
        LogLevel::Debug => 1,
        LogLevel::Info => 2,
        LogLevel::Warn => 3,
        LogLevel::Error => 4,
    }
}

pub open spec fn level_label(level: Level) -> Seq<char> {
    match level {
        Level::All => "all"@,
        Level::Info => "info"@,
        Level::Warn => "warn"@,
        Level::Error => "error"@,
    }
}

impl Level {
    pub fn default_level() -> (l: Level)
        ensures
            l == Level::All,
    {
        Level::All
    }

    /// The lowest log level this choice lets through.
    pub fn rank(self) -> (r: u8)
        ensures
            r == rank_of(self),
    {
        match self {
            Level::All => 0,
            Level::Info => 2,
            Level::Warn => 3,
            Level::Error => 4,
        }
    }

    /// The name the picker shows.
    pub fn label(self) -> (s: &'static str)
        ensures
            s@ == level_label(self),
    {
        match self {
            Level::All => "all",
            Level::Info => "info",
            Level::Warn => "warn",
            Level::Error => "error",
        }
    }
}

/// The picker's choices, in order.
pub fn all_levels() -> (v: Vec<Level>)
    ensures
        v@ == seq![Level::All, Level::Info, Level::Warn, Level::Error],
{
    let v = vec![Level::All, Level::Info, Level::Warn, Level::Error];
    assert(v@ =~= seq![Level::All, Level::Info, Level::Warn, Level::Error]);
    v
}

pub fn level_rank(level: LogLevel) -> (r: u8)
    ensures
        r == level_rank_of(level),
{
    match level {
        LogLevel::Trace => 0,
        LogLevel::Debug => 1,
        LogLevel::Info => 2,
        LogLevel::Warn => 3,
        LogLevel::Error => 4,
    }
}

/// Whether a line passes the level filter and, when there is one, the case-insensitive search.
pub open spec fn shows_line(level: Level, search: Seq<char>, line: LogLine) -> bool {
    level_rank_of(line.level) >= rank_of(level) && (search.len() == 0 || text::contains_seq(
        text::lowercase(line.message@),
        text::lowercase(search),
    ))
}

/// The messages of the lines from `from` on that pass the filter, oldest first.
pub open spec fn fresh_messages(log: Seq<LogLine>, from: u64, level: Level, search: Seq<char>) -> Seq<
    Seq<char>,
>
    decreases log.len(),
{
    if log.len() == 0 {
        Seq::empty()
    } else {
        let rest = fresh_messages(log.drop_last(), from, level, search);
        let line = log.last();
        if line.seq >= from && shows_line(level, search, line) {
            rest.push(line.message@)
        } else {
            rest
        }
    }
}

/// The sequence number after the newest line, or `fallback` for an empty log.
pub open spec fn seq_after(log: Seq<LogLine>, fallback: u64) -> u64 {
    if log.len() == 0 {
        fallback
    } else {
        (log.last().seq + 1) as u64
    }
}

/// The newest line's number can be stepped past.
pub open spec fn log_numbers_fit(log: Seq<LogLine>) -> bool {
    log.len() > 0 ==> log.last().seq < u64::MAX
}

/// `s` without the leading slashes a chat habit puts in front of a command.
pub open spec fn strip_slashes(s: Seq<char>) -> Seq<char>
    decreases s.len(),
{
    if s.len() > 0 && s[0] == '/' {
        strip_slashes(s.drop_first())
    } else {
        s
    }
}

/// The command a submitted input runs.
pub open spec fn submitted_line(input: Seq<char>) -> Seq<char> {
    text::trim(strip_slashes(text::trim(input)))
}

/// No entry of the history repeats the one right before it.
pub open spec fn no_adjacent_repeats(history: Seq<String>) -> bool {
    forall|i: int| 0 < i < history.len() ==> #[trigger] history[i]@ != history[i - 1]@
}

/// The length of the input up to and including its last space; zero without one.
pub open spec fn head_len(s: Seq<char>) -> int
    decreases s.len(),
{
    if s.len() == 0 {
        0
    } else if s.last() == ' ' {
        s.len() as int
    } else {
        head_len(s.drop_last())
    }
}

/// The history position a step of `offset` moves to, clamped to the ends.
pub open spec fn recall_index(index: int, len: int, offset: int) -> int {
    let next = index + offset;
    if next < 0 {
        0
    } else if next > len {
        len
    } else {
        next
    }
}

pub open spec fn next_request_after(id: u32) -> u32 {
    if id == u32::MAX {
        0
    } else {
        (id + 1) as u32
    }
}

pub open spec fn views(values: Seq<String>) -> Seq<Seq<char>> {
    values.map_values(|s: String| s@)
}

/// The console's state apart from the rendered text itself.
pub struct State {
    /// Whether the view sticks to the newest line.
    pub follow: bool,
    /// Lines the log has that the view does not, because the user is reading back.
    pub pending: usize,
    /// The sequence number after the last line folded into the view.
    pub next_seq: u64,
    /// How many lines the view holds.
    pub shown: usize,
    pub level: Level,
    pub search: String,
    pub input: String,
    pub history: Vec<String>,
    /// Index into `history`; equal to its length means "editing a new line".
    pub history_index: usize,
    pub draft: String,
    pub hint: String,
    pub next_request: u32,
    pub pending_completion: Option<u32>,
    pub copied: bool,
    /// Whether the log, rather than the command line, is what the keyboard is aimed at.
    pub log_has_focus: bool,
}

/// True while Up/Down/Tab should drive the command line rather than the log.
pub fn command_line_has_focus(state: &State) -> (b: bool)
    ensures
        b == !state.log_has_focus,
{
    !state.log_has_focus
}

/// The block a copy puts on the clipboard: the text fenced as code.
pub fn fenced(text_value: &str) -> (s: String)
    ensures
        s@ == "```\n"@ + text_value@ + "\n```"@,
{
    let mut s = String::new();
    s.append("```\n");
    s.append(text_value);
    s.append("\n```");
    s
}

/// The scrollback after `lines` arrive: everything, less the oldest beyond `LOG_CAPACITY`.
pub open spec fn scrollback(log: Seq<LogLine>, lines: Seq<LogLine>) -> Seq<LogLine> {
    let all = log + lines;
    if all.len() > LOG_CAPACITY {
        all.skip(all.len() - LOG_CAPACITY)
    } else {
        all
    }
}

/// Adds `lines` to the scrollback and drops the oldest until it fits `LOG_CAPACITY`.
pub fn push_lines(log: &mut VecDeque<LogLine>, lines: Vec<LogLine>)
    ensures
        final(log)@ == scrollback(old(log)@, lines@),
{
    let ghost all = log@ + lines@;
    let ghost start = log@;
    let ghost incoming = lines@;
    for line in it: lines
        invariant
            it.seq() == incoming,
            log@ == start + incoming.take(it.index() as int),
    {
        assert(incoming.take(it.index() + 1) =~= incoming.take(it.index() as int).push(line));
        log.push_back(line);
    }
    assert(incoming.take(incoming.len() as int) =~= incoming);
    assert(log@ =~= all);
    while log.len() > LOG_CAPACITY
        invariant
            log@ == all.skip(all.len() - log@.len()),
            log@.len() <= all.len(),
            log@.len() >= (if all.len() > LOG_CAPACITY {
                LOG_CAPACITY as int
            } else {
                all.len() as int
            }),
        decreases log@.len(),
    {
        let _ = log.pop_front();
        assert(log@ =~= all.skip(all.len() - log@.len()));
    }
    assert(all.skip(0) =~= all);
}


/// The state after stepping `offset` through the history: stepping off the end restores the
/// half-typed line that was there before the first step back.
pub open spec fn recalled(s: State, offset: int) -> State {
    if s.history@.len() == 0 {
        s
    } else {
        let d = if s.history_index == s.history@.len() {
            s.input
        } else {
            s.draft
        };
        let i = recall_index(s.history_index as int, s.history@.len() as int, offset);
        State {
            draft: d,
            history_index: i as usize,
            input: if i < s.history@.len() {
                s.history@[i]
            } else {
                d
            },
            ..s
        }
    }
}

impl State {
    pub fn new() -> (s: State)
        ensures
            s.follow,
            s.pending == 0,
            s.next_seq == 0,
            s.shown == 0,
            s.level == Level::All,
            s.search@.len() == 0,
            s.input@.len() == 0,
            s.history@.len() == 0,
            s.history_index == 0,
            s.draft@.len() == 0,
            s.hint@.len() == 0,
            s.next_request == 0,
            s.pending_completion is None,
            !s.copied,
            !s.log_has_focus,
    {
        State {
            follow: true,
            pending: 0,
            next_seq: 0,
            shown: 0,
            level: Level::All,
            search: String::new(),
            input: String::new(),
            history: Vec::new(),
            history_index: 0,
            draft: String::new(),
            hint: String::new(),
            next_request: 0,
            pending_completion: None,
            copied: false,
            log_has_focus: false,
        }
    }

    /// Whether `line` passes the level filter and the search.
    pub fn shows(&self, line: &LogLine) -> (b: bool)
        ensures
            b == shows_line(self.level, self.search@, *line),
    {
        if level_rank(line.level) < self.level.rank() {
            return false;
        }
        if self.search.as_str().is_empty() {
            return true;
        }
        let message = to_lowercase(line.message.as_str());
        let needle = to_lowercase(self.search.as_str());
        let m = chars_of(message.as_str());
        let n = chars_of(needle.as_str());
        contains(&m, &n)
    }

    /// The text of the lines from `from` on that pass the filter, one per line, and how many.
    fn collect_fresh(&self, log: &VecDeque<LogLine>, from: u64) -> (r: (String, usize))
        ensures
            r.0@ == crate::format::join(fresh_messages(log@, from, self.level, self.search@), "\n"@),
            r.1 == fresh_messages(log@, from, self.level, self.search@).len(),
            r.1 <= log@.len(),
    {
        let mut out = String::new();
        let mut count: usize = 0;
        let mut i: usize = 0;
        while i < log.len()
            invariant
                i <= log@.len(),
                out@ == crate::format::join(
                    fresh_messages(log@.take(i as int), from, self.level, self.search@),
                    "\n"@,
                ),
                count == fresh_messages(log@.take(i as int), from, self.level, self.search@).len(),
                count <= i,
            decreases log@.len() - i,
        {
            let line = &log[i];
            let ghost before = fresh_messages(log@.take(i as int), from, self.level, self.search@);
            assert(log@.take(i + 1).drop_last() =~= log@.take(i as int));
            assert(log@.take(i + 1).last() == log@[i as int]);
            if line.seq >= from && self.shows(line) {
                let ghost after = before.push(line.message@);
                assert(after.drop_last() =~= before);
                if count > 0 {
                    out.append("\n");
                }
                out.append(line.message.as_str());
                proof {
                    assert(after.last() == line.message@);
                    if before.len() == 0 {
                        assert(out@ =~= line.message@);
                    } else {
                        assert(out@ =~= crate::format::join(before, "\n"@) + "\n"@ + line.message@);
                    }
                }
                count += 1;
            }
            i += 1;
        }
        assert(log@.take(log@.len() as int) =~= log@);
        (out, count)
    }

    /// The sequence number after the newest line of `log`, or `fallback` when it is empty.
    fn seq_after(log: &VecDeque<LogLine>, fallback: u64) -> (n: u64)
        requires
            log_numbers_fit(log@),
        ensures
            n == seq_after(log@, fallback),
    {
        if log.len() == 0 {
            fallback
        } else {
            log[log.len() - 1].seq + 1
        }
    }

    /// Where in `log` the lines from `from` on that pass the filter stand, oldest first: with the
    /// view's `next_seq` as `from`, the lines whose messages [`State::append_new`] adds.
    pub fn fresh_lines(&self, log: &VecDeque<LogLine>, from: u64) -> (v: Vec<usize>)
        ensures
            v@.len() == fresh_messages(log@, from, self.level, self.search@).len(),
            forall|i: int|
                0 <= i < v@.len() ==> #[trigger] v@[i] < log@.len() && log@[v@[i] as int].seq
                    >= from && shows_line(self.level, self.search@, log@[v@[i] as int])
                    && log@[v@[i] as int].message@ == fresh_messages(
                    log@,
                    from,
                    self.level,
                    self.search@,
                )[i],
            forall|i: int, j: int| 0 <= i < j < v@.len() ==> #[trigger] v@[i] < #[trigger] v@[j],
            forall|k: int|
                0 <= k < log@.len() && #[trigger] log@[k].seq >= from && shows_line(
                    self.level,
                    self.search@,
                    log@[k],
                ) ==> exists|i: int| 0 <= i < v@.len() && #[trigger] v@[i] == k,
    {
        let mut v: Vec<usize> = Vec::new();
        let mut i: usize = 0;
        while i < log.len()
            invariant
                i <= log@.len(),
                v@.len() == fresh_messages(log@.take(i as int), from, self.level, self.search@).len(),
                forall|m: int|
                    0 <= m < v@.len() ==> #[trigger] v@[m] < i && log@[v@[m] as int].seq >= from
                        && shows_line(self.level, self.search@, log@[v@[m] as int])
                        && log@[v@[m] as int].message@ == fresh_messages(
                        log@.take(i as int),
                        from,
                        self.level,
                        self.search@,
                    )[m],
                forall|a: int, b: int| 0 <= a < b < v@.len() ==> #[trigger] v@[a] < #[trigger] v@[b],
                forall|k: int|
                    0 <= k < i && #[trigger] log@[k].seq >= from && shows_line(
                        self.level,
                        self.search@,
                        log@[k],
                    ) ==> exists|m: int| 0 <= m < v@.len() && #[trigger] v@[m] == k,
            decreases log@.len() - i,
        {
            let line = &log[i];
            let ghost before = fresh_messages(log@.take(i as int), from, self.level, self.search@);
            let ghost old_v = v@;
            assert(log@.take(i + 1).drop_last() =~= log@.take(i as int));
            assert(log@.take(i + 1).last() == log@[i as int]);
            if line.seq >= from && self.shows(line) {
                v.push(i);
                proof {
                    let after = fresh_messages(log@.take(i + 1), from, self.level, self.search@);
                    assert(after == before.push(line.message@));
                    assert forall|m: int| 0 <= m < v@.len() implies #[trigger] v@[m] < i + 1
                        && log@[v@[m] as int].seq >= from && shows_line(
                        self.level,
                        self.search@,
                        log@[v@[m] as int],
                    ) && log@[v@[m] as int].message@ == after[m] by {
                        if m < old_v.len() {
                            assert(v@[m] == old_v[m]);
                        }
                    }
                    assert forall|k: int|
                        0 <= k < i + 1 && #[trigger] log@[k].seq >= from && shows_line(
                            self.level,
                            self.search@,
                            log@[k],
                        ) implies exists|m: int| 0 <= m < v@.len() && #[trigger] v@[m] == k by {
                        if k < i {
                            let m0 = choose|m: int| 0 <= m < old_v.len() && #[trigger] old_v[m] == k;
                            assert(v@[m0] == old_v[m0]);
                        } else {
                            assert(v@[old_v.len() as int] == i);
                        }
                    }
                }
            } else {
                proof {
                    let after = fresh_messages(log@.take(i + 1), from, self.level, self.search@);
                    assert(after == before);
                }
            }
            i += 1;
        }
        assert(log@.take(log@.len() as int) =~= log@);
        v
    }

    /// Rebuilds the whole view from the log: the filter or the theme changed, which alters lines
    /// that are already there. Returns the view's new text.
    pub fn rebuild(&mut self, log: &VecDeque<LogLine>) -> (text: String)
        requires
            log_numbers_fit(log@),
        ensures
            text@ == crate::format::join(
                fresh_messages(log@, 0, old(self).level, old(self).search@),
                "\n"@,
            ),
            *final(self) == (State {
                next_seq: seq_after(log@, 0),
                pending: 0,
                shown: fresh_messages(log@, 0, old(self).level, old(self).search@).len() as usize,
                ..*old(self)
            }),
    {
        let (text, count) = self.collect_fresh(log, 0);
        self.next_seq = State::seq_after(log, 0);
        self.pending = 0;
        self.shown = count;
        text
    }

    /// Folds every line newer than the view into it. Returns the text to add at the end of the
    /// view, if any line is new and passes the filter.
    pub fn append_new(&mut self, log: &VecDeque<LogLine>) -> (added: Option<String>)
        requires
            log_numbers_fit(log@),
            old(self).shown + log@.len() <= usize::MAX,
        ensures
            ({
                let fresh = fresh_messages(log@, old(self).next_seq, old(self).level, old(self).search@);
                &&& added is None <==> fresh.len() == 0
                &&& (added matches Some(t) ==> t@ == (if old(self).shown > 0 {
                    "\n"@
                } else {
                    Seq::empty()
                }) + crate::format::join(fresh, "\n"@))
                &&& *final(self) == (State {
                    next_seq: seq_after(log@, old(self).next_seq),
                    shown: (old(self).shown + fresh.len()) as usize,
                    ..*old(self)
                })
            }),
    {
        let (text, count) = self.collect_fresh(log, self.next_seq);
        self.next_seq = State::seq_after(log, self.next_seq);
        if count == 0 {
            return None;
        }
        let mut out = String::new();
        if self.shown > 0 {
            out.append("\n");
        }
        out.append(text.as_str());
        self.shown = self.shown + count;
        Some(out)
    }

    /// New lines arrived in `log`. While the user is reading back, they are counted rather than
    /// shown, so the view does not move under their selection.
    pub fn on_new_lines(&mut self, log: &VecDeque<LogLine>) -> (added: Option<String>)
        requires
            log_numbers_fit(log@),
            old(self).shown + log@.len() <= usize::MAX,
        ensures
            ({
                let fresh = fresh_messages(log@, old(self).next_seq, old(self).level, old(self).search@);
                &&& old(self).follow ==> (added is None <==> fresh.len() == 0)
                &&& old(self).follow ==> (added matches Some(t) ==> t@ == (if old(self).shown > 0 {
                    "\n"@
                } else {
                    Seq::empty()
                }) + crate::format::join(fresh, "\n"@))
                &&& old(self).follow ==> *final(self) == (State {
                    next_seq: seq_after(log@, old(self).next_seq),
                    shown: (old(self).shown + fresh.len()) as usize,
                    ..*old(self)
                })
                &&& !old(self).follow ==> added is None && *final(self) == (State {
                    pending: fresh.len() as usize,
                    ..*old(self)
                })
            }),
    {
        if self.follow {
            self.append_new(log)
        } else {
            let (_, count) = self.collect_fresh(log, self.next_seq);
            self.pending = count;
            None
        }
    }

    /// The level filter changed; returns the rebuilt text.
    pub fn set_level(&mut self, level: Level, log: &VecDeque<LogLine>) -> (text: String)
        requires
            log_numbers_fit(log@),
        ensures
            text@ == crate::format::join(fresh_messages(log@, 0, level, old(self).search@), "\n"@),
            *final(self) == (State {
                level,
                next_seq: seq_after(log@, 0),
                pending: 0,
                shown: fresh_messages(log@, 0, level, old(self).search@).len() as usize,
                ..*old(self)
            }),
    {
        self.level = level;
        self.rebuild(log)
    }

    /// The search changed; returns the rebuilt text.
    pub fn set_search(&mut self, search: String, log: &VecDeque<LogLine>) -> (text: String)
        requires
            log_numbers_fit(log@),
        ensures
            text@ == crate::format::join(fresh_messages(log@, 0, old(self).level, search@), "\n"@),
            *final(self) == (State {
                search,
                next_seq: seq_after(log@, 0),
                pending: 0,
                shown: fresh_messages(log@, 0, old(self).level, search@).len() as usize,
                ..*old(self)
            }),
    {
        self.search = search;
        self.rebuild(log)
    }

    /// The user scrolled back, clicked or selected in the log: it holds still from now on.
    pub fn take_over(&mut self)
        ensures
            *final(self) == (State { follow: false, log_has_focus: true, ..*old(self) }),
    {
        self.follow = false;
        self.log_has_focus = true;
    }

    /// Back to following the newest line, folding in whatever arrived meanwhile.
    pub fn jump_to_end(&mut self, log: &VecDeque<LogLine>) -> (added: Option<String>)
        requires
            log_numbers_fit(log@),
            old(self).shown + log@.len() <= usize::MAX,
        ensures
            ({
                let fresh = fresh_messages(log@, old(self).next_seq, old(self).level, old(self).search@);
                &&& added is None <==> fresh.len() == 0
                &&& (added matches Some(t) ==> t@ == (if old(self).shown > 0 {
                    "\n"@
                } else {
                    Seq::empty()
                }) + crate::format::join(fresh, "\n"@))
                &&& *final(self) == (State {
                    follow: true,
                    next_seq: seq_after(log@, old(self).next_seq),
                    shown: (old(self).shown + fresh.len()) as usize,
                    ..*old(self)
                })
            }),
    {
        self.follow = true;
        self.append_new(log)
    }

    /// The log's text went to the clipboard; returns what goes there.
    pub fn copy(&mut self, text_value: &str) -> (clip: String)
        ensures
            clip@ == "```\n"@ + text_value@ + "\n```"@,
            *final(self) == (State { copied: true, ..*old(self) }),
    {
        self.copied = true;
        fenced(text_value)
    }

    /// The command line was edited.
    pub fn input_changed(&mut self, value: String)
        ensures
            final(self).hint@.len() == 0,
            *final(self) == (State {
                input: value,
                hint: final(self).hint,
                log_has_focus: false,
                ..*old(self)
            }),
    {
        self.input = value;
        self.hint = String::new();
        self.log_has_focus = false;
    }

    /// Enter in the command line: the command to run, if the line holds one. It goes into the
    /// history unless it repeats the previous entry, and the line is cleared.
    pub fn submit(&mut self) -> (line: Option<String>)
        ensures
            line is None <==> submitted_line(old(self).input@).len() == 0,
            line is None ==> *final(self) == *old(self),
            line matches Some(l) ==> {
                &&& l@ == submitted_line(old(self).input@)
                &&& final(self).history@ == (if old(self).history@.len() > 0
                    && old(self).history@.last()@ == l@ {
                    old(self).history@
                } else {
                    old(self).history@.push(l)
                })
                &&& final(self).history_index == final(self).history@.len()
                &&& final(self).input@.len() == 0
                &&& final(self).draft@.len() == 0
                &&& final(self).hint@.len() == 0
                &&& *final(self) == (State {
                    history: final(self).history,
                    history_index: final(self).history_index,
                    input: final(self).input,
                    draft: final(self).draft,
                    hint: final(self).hint,
                    ..*old(self)
                })
            },
            no_adjacent_repeats(old(self).history@) ==> no_adjacent_repeats(final(self).history@),
    {
        let v = chars_of(self.input.as_str());
        let t = trim_chars(&v);
        let mut k: usize = 0;
        assert(t@.skip(0) =~= t@);
        while k < t.len() && t[k] == '/'
            invariant
                k <= t@.len(),
                strip_slashes(t@) == strip_slashes(t@.skip(k as int)),
            decreases t@.len() - k,
        {
            assert(t@.skip(k as int).drop_first() =~= t@.skip(k + 1));
            k += 1;
        }
        let mut rest: Vec<char> = Vec::new();
        let mut j: usize = k;
        while j < t.len()
            invariant
                k <= j <= t@.len(),
                rest@ == t@.subrange(k as int, j as int),
            decreases t@.len() - j,
        {
            assert(t@.subrange(k as int, j + 1) =~= t@.subrange(k as int, j as int).push(t@[j as int]));
            rest.push(t[j]);
            j += 1;
        }
        proof {
            assert(rest@ =~= t@.skip(k as int));
            if k < t@.len() {
                assert(t@.skip(k as int)[0] == t@[k as int]);
            }
            assert(strip_slashes(t@) == rest@);
        }
        let w = trim_chars(&rest);
        if w.len() == 0 {
            return None;
        }
        let line = string_of(&w);
        let n = self.history.len();
        let repeat = n > 0 && self.history[n - 1] == line;
        if !repeat {
            self.history.push(line.clone());
        }
        proof {
            if !repeat && no_adjacent_repeats(old(self).history@) {
                assert forall|i: int| 0 < i < self.history@.len() implies #[trigger] self.history@[i]@
                    != self.history@[i - 1]@ by {
                    if i == n {
                        assert(self.history@[i - 1] == old(self).history@.last());
                    } else {
                        assert(self.history@[i] == old(self).history@[i]);
                        assert(self.history@[i - 1] == old(self).history@[i - 1]);
                    }
                }
            }
        }
        self.history_index = self.history.len();
        self.draft = String::new();
        self.input = String::new();
        self.hint = String::new();
        Some(line)
    }

    /// Steps through the command history; stepping off the end restores the half-typed line.
    pub fn recall(&mut self, offset: isize)
        ensures
            *final(self) == recalled(*old(self), offset as int),
    {
        let len = self.history.len();
        if len == 0 {
            return;
        }
        if self.history_index == len {
            self.draft = self.input.clone();
        }
        let target = self.history_index as i128 + offset as i128;
        let next: usize = if target < 0 {
            0
        } else if target > len as i128 {
            len
        } else {
            target as usize
        };
        self.history_index = next;
        if next < len {
            self.input = self.history[next].clone();
        } else {
            self.input = self.draft.clone();
        }
    }

    /// Up in the command line: the previous history entry.
    pub fn history_prev(&mut self)
        ensures
            *final(self) == recalled(*old(self), -1),
    {
        self.recall(-1);
    }

    /// Down in the command line: the next history entry, or back to the half-typed line.
    pub fn history_next(&mut self)
        ensures
            *final(self) == recalled(*old(self), 1),
    {
        self.recall(1);
    }

    /// Tab in the command line: asks the server to complete the line. Returns the request's id,
    /// the line and the cursor position (its length in bytes).
    pub fn complete(&mut self) -> (request: (u32, String, usize))
        ensures
            request.0 == old(self).next_request,
            request.1@ == old(self).input@,
            request.2 == vstd::utf8::encode_utf8(old(self).input@).len() as usize,
            *final(self) == (State {
                next_request: next_request_after(old(self).next_request),
                pending_completion: Some(old(self).next_request),
                ..*old(self)
            }),
    {
        let id = self.next_request;
        self.next_request = self.next_request.wrapping_add(1);
        self.pending_completion = Some(id);
        let line = self.input.clone();
        let cursor = line.as_str().len();
        (id, line, cursor)
    }

    /// The server answered completion request `id`. Answers to anything but the latest request
    /// are ignored. A single candidate replaces the word being typed; several are listed as a
    /// hint.
    pub fn on_completions(&mut self, id: u32, candidates: &[String])
        ensures
            old(self).pending_completion != Some(id) ==> *final(self) == *old(self),
            old(self).pending_completion == Some(id) ==> {
                &&& candidates@.len() == 0 ==> *final(self) == (State {
                    pending_completion: None,
                    ..*old(self)
                })
                &&& candidates@.len() == 1 ==> final(self).input@ == old(self).input@.take(
                    head_len(old(self).input@),
                ) + candidates@[0]@ && final(self).hint@.len() == 0 && *final(self) == (State {
                    pending_completion: None,
                    input: final(self).input,
                    hint: final(self).hint,
                    ..*old(self)
                })
                &&& candidates@.len() > 1 ==> final(self).hint@ == crate::format::join(
                    views(candidates@),
                    "  "@,
                ) && *final(self) == (State {
                    pending_completion: None,
                    hint: final(self).hint,
                    ..*old(self)
                })
            },
    {
        match self.pending_completion {
            Some(p) => {
                if p != id {
                    return;
                }
            },
            None => {
                return;
            },
        }
        self.pending_completion = None;
        if candidates.len() == 0 {
            return;
        }
        if candidates.len() == 1 {
            let v = chars_of(self.input.as_str());
            let mut h: usize = v.len();
            assert(v@.take(h as int) =~= v@);
            while h > 0 && v[h - 1] != ' '
                invariant
                    h <= v@.len(),
                    head_len(v@) == head_len(v@.take(h as int)),
                decreases h,
            {
                assert(v@.take(h as int).drop_last() =~= v@.take(h - 1));
                h -= 1;
            }
            proof {
                if h > 0 {
                    assert(v@.take(h as int).last() == v@[h - 1]);
                }
            }
            let mut kept: Vec<char> = Vec::new();
            let mut i: usize = 0;
            while i < h
                invariant
                    i <= h <= v@.len(),
                    kept@ == v@.take(i as int),
                decreases h - i,
            {
                assert(v@.take(i + 1) =~= v@.take(i as int).push(v@[i as int]));
                kept.push(v[i]);
                i += 1;
            }
            let mut input = string_of(&kept);
            input.append(candidates[0].as_str());
            self.input = input;
            self.hint = String::new();
            return;
        }
        let mut hint = String::new();
        hint.append(candidates[0].as_str());
        let ghost items = views(candidates@);
        assert(items.take(1).drop_last() =~= Seq::<Seq<char>>::empty());
        let mut i: usize = 1;
        while i < candidates.len()
            invariant
                1 <= i <= candidates@.len(),
                items == views(candidates@),
                hint@ == crate::format::join(items.take(i as int), "  "@),
            decreases candidates@.len() - i,
        {
            hint.append("  ");
            hint.append(candidates[i].as_str());
            assert(items.take(i + 1).drop_last() =~= items.take(i as int));
            i += 1;
        }
        assert(items.take(candidates@.len() as int) =~= items);
        self.hint = hint;
    }
}


/// The colour a stretch of log text is painted in: its own, or the line's level colour.
#[derive(Debug, Clone, Copy, PartialEq, Eq, Structural)]
pub enum SpanColor {
    Rgb(u8, u8, u8),
    Level(Tone),
}

/// The colour of a line's level, for runs that carry none of their own.
pub open spec fn level_tone(level: LogLevel) -> Tone {
    match level {
        LogLevel::Error => Tone::Danger,
        LogLevel::Warn => Tone::Warn,
        LogLevel::Debug | LogLevel::Trace => Tone::Muted,
        LogLevel::Info => Tone::Plain,
    }
}

pub open spec fn run_color(run: StyledRun, level: LogLevel) -> SpanColor {
    match run.color {
        Some((r, g, b)) => SpanColor::Rgb(r, g, b),
        None => SpanColor::Level(level_tone(level)),
    }
}

/// Where run `i` starts, in bytes into the line's text: the UTF-8 length of the runs before it.
pub open spec fn run_start(runs: Seq<StyledRun>, i: int) -> int
    decreases i,
{
    if i <= 0 {
        0
    } else {
        run_start(runs, i - 1) + vstd::utf8::encode_utf8(runs[i - 1].text@).len()
    }
}

proof fn lemma_run_start_grows(runs: Seq<StyledRun>, i: int, j: int)
    requires
        0 <= i <= j,
    ensures
        run_start(runs, i) <= run_start(runs, j),
    decreases j,
{
    if i < j {
        lemma_run_start_grows(runs, i, j - 1);
    }
}

/// The colour ranges of one line, in byte offsets into its text: one per run, in order.
pub fn spans_of(line: &LogLine) -> (v: Vec<(usize, usize, SpanColor)>)
    requires
        run_start(line.runs@, line.runs@.len() as int) <= usize::MAX,
    ensures
        v@.len() == line.runs@.len(),
        forall|i: int|
            0 <= i < v@.len() ==> #[trigger] v@[i] == (
                run_start(line.runs@, i) as usize,
                run_start(line.runs@, i + 1) as usize,
                run_color(line.runs@[i], line.level),
            ),
{
    let fallback = match line.level {
        LogLevel::Error => Tone::Danger,
        LogLevel::Warn => Tone::Warn,
        LogLevel::Debug | LogLevel::Trace => Tone::Muted,
        LogLevel::Info => Tone::Plain,
    };
    let mut v: Vec<(usize, usize, SpanColor)> = Vec::new();
    let mut offset: usize = 0;
    let mut i: usize = 0;
    while i < line.runs.len()
        invariant
            i <= line.runs@.len(),
            v@.len() == i,
            offset == run_start(line.runs@, i as int),
            run_start(line.runs@, line.runs@.len() as int) <= usize::MAX,
            fallback == level_tone(line.level),
            forall|k: int|
                0 <= k < i ==> #[trigger] v@[k] == (
                    run_start(line.runs@, k) as usize,
                    run_start(line.runs@, k + 1) as usize,
                    run_color(line.runs@[k], line.level),
                ),
        decreases line.runs@.len() - i,
    {
        let run = &line.runs[i];
        proof {
            lemma_run_start_grows(line.runs@, i + 1, line.runs@.len() as int);
        }
        let start = offset;
        offset = offset + run.text.as_str().len();
        let color = match run.color {
            Some((r, g, b)) => SpanColor::Rgb(r, g, b),
            None => SpanColor::Level(fallback),
        };
        v.push((start, offset, color));
        i += 1;
    }
    v
}

/// The scrollback never holds more than `LOG_CAPACITY` lines; it keeps the newest ones, in order,
/// dropping only from the oldest end, and it drops nothing while there is room.
pub proof fn lemma_scrollback_keeps_newest(log: Seq<LogLine>, lines: Seq<LogLine>)
    ensures
        scrollback(log, lines).len() <= LOG_CAPACITY,
        scrollback(log, lines).len() == (if log.len() + lines.len() > LOG_CAPACITY {
            LOG_CAPACITY as int
        } else {
            (log.len() + lines.len()) as int
        }),
        forall|i: int|
            0 <= i < scrollback(log, lines).len() ==> #[trigger] scrollback(log, lines)[i] == (log
                + lines)[log.len() + lines.len() - scrollback(log, lines).len() + i],
        log.len() + lines.len() <= LOG_CAPACITY ==> scrollback(log, lines) == log + lines,
        lines.len() > 0 ==> scrollback(log, lines).last() == lines.last(),
{
}

proof fn lemma_head_len_shape(s: Seq<char>)
    ensures
        0 <= head_len(s) <= s.len(),
        head_len(s) > 0 ==> s[head_len(s) - 1] == ' ',
        forall|k: int| head_len(s) <= k < s.len() ==> s[k] != ' ',
    decreases s.len(),
{
    if s.len() > 0 && s.last() != ' ' {
        lemma_head_len_shape(s.drop_last());
        assert forall|k: int| head_len(s) <= k < s.len() implies s[k] != ' ' by {
            if k < s.len() - 1 {
                assert(s[k] == s.drop_last()[k]);
            }
        }
    }
}

/// A completion with a single candidate replaces the word being typed, and only that word: the
/// new line keeps the old one up to and including its last space, the candidate follows, and the
/// part replaced holds no space.
pub proof fn lemma_completion_replaces_last_word(line: Seq<char>, candidate: Seq<char>)
    ensures
        ({
            let h = head_len(line);
            let completed = line.take(h) + candidate;
            &&& 0 <= h <= line.len()
            &&& h > 0 ==> line[h - 1] == ' '
            &&& forall|k: int| h <= k < line.len() ==> line[k] != ' '
            &&& completed.take(h) == line.take(h)
            &&& completed.skip(h) == candidate
        }),
{
    lemma_head_len_shape(line);
    let h = head_len(line);
    let completed = line.take(h) + candidate;
    assert(completed.take(h) =~= line.take(h));
    assert(completed.skip(h) =~= candidate);
}

/// The log levels rank from trace up to error, and with no search a chosen level shows exactly
/// the lines at that level or above it: "info" shows info, warnings and errors.
pub proof fn lemma_level_filter(line: LogLine)
    ensures
        level_rank_of(LogLevel::Trace) < level_rank_of(LogLevel::Debug) < level_rank_of(
            LogLevel::Info,
        ) < level_rank_of(LogLevel::Warn) < level_rank_of(LogLevel::Error),
        shows_line(Level::All, Seq::empty(), line),
        shows_line(Level::Info, Seq::empty(), line) <==> (line.level == LogLevel::Info
            || line.level == LogLevel::Warn || line.level == LogLevel::Error),
        shows_line(Level::Warn, Seq::empty(), line) <==> (line.level == LogLevel::Warn
            || line.level == LogLevel::Error),
        shows_line(Level::Error, Seq::empty(), line) <==> line.level == LogLevel::Error,
{
}

/// With a search, a line shows when it passes the level filter and the search occurs in its
/// message, ignoring case; a line whose message holds the search nowhere never shows.
pub proof fn lemma_search_filter(level: Level, search: Seq<char>, line: LogLine, at: int)
    ensures
        shows_line(level, search, line) ==> shows_line(level, Seq::empty(), line),
        shows_line(level, Seq::empty(), line) && text::occurs_at(
            text::lowercase(line.message@),
            text::lowercase(search),
            at,
        ) ==> shows_line(level, search, line),
        shows_line(level, search, line) && search.len() > 0 ==> exists|i: int|
            text::occurs_at(text::lowercase(line.message@), text::lowercase(search), i),
{
}

/// Stepping back through the history and forward again, from a line being typed, returns to that
/// line and to typing it.
pub proof fn lemma_recall_round_trip(s: State)
    requires
        s.history@.len() > 0,
        s.history_index == s.history@.len(),
    ensures
        recalled(recalled(s, -1), 1).input == s.input,
        recalled(recalled(s, -1), 1).history_index == s.history_index,
        recalled(recalled(s, -1), 1).history == s.history,
{
}

/// Stepping through the history never changes it and never leaves it: the position stays between
/// the first entry and the line being typed.
pub proof fn lemma_recall_stays_in_history(s: State, offset: int)
    requires
        s.history_index <= s.history@.len(),
    ensures
        recalled(s, offset).history == s.history,
        recalled(s, offset).history_index <= s.history@.len(),
        recalled(s, offset).history_index < s.history@.len() ==> recalled(s, offset).input
            == s.history@[recalled(s, offset).history_index as int],
{
    assert(s.history@.len() == s.history.len());
}
} // verus!
