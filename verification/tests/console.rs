use std::collections::VecDeque;

use pumpkin_gui::protocol::{LogLevel, LogLine, StyledRun};
use pumpkin_gui::tabs::console::{
    all_levels, command_line_has_focus, fenced, level_rank, push_lines, spans_of, Level, SpanColor,
    State, LOG_CAPACITY,
};
use pumpkin_gui::window::Tone;

fn line(seq: u64, level: LogLevel, message: &str) -> LogLine {
    LogLine {
        seq,
        level,
        target: "console".to_owned(),
        message: message.to_owned(),
        runs: vec![StyledRun {
            text: message.to_owned(),
            color: None,
        }],
    }
}

fn log_of(lines: Vec<LogLine>) -> VecDeque<LogLine> {
    let mut log = VecDeque::new();
    push_lines(&mut log, lines);
    log
}

#[test]
fn levels_rank_and_label() {
    assert_eq!(Level::All.rank(), 0);
    assert_eq!(Level::Info.rank(), 2);
    assert_eq!(Level::Warn.rank(), 3);
    assert_eq!(Level::Error.rank(), 4);
    assert_eq!(Level::Warn.label(), "warn");
    assert_eq!(all_levels(), vec![Level::All, Level::Info, Level::Warn, Level::Error]);
    assert_eq!(level_rank(LogLevel::Trace), 0);
    assert_eq!(level_rank(LogLevel::Debug), 1);
    assert_eq!(level_rank(LogLevel::Error), 4);
}

#[test]
fn filter_by_level_and_case_insensitive_search() {
    let log = log_of(vec![
        line(0, LogLevel::Debug, "Loading chunks"),
        line(1, LogLevel::Info, "Server STARTED"),
        line(2, LogLevel::Warn, "Tick took long"),
        line(3, LogLevel::Error, "Crash in plugin"),
    ]);
    let mut state = State::new();
    assert_eq!(state.rebuild(&log), "Loading chunks\nServer STARTED\nTick took long\nCrash in plugin");
    assert_eq!(state.next_seq, 4);
    assert_eq!(state.shown, 4);
    assert_eq!(state.set_level(Level::Warn, &log), "Tick took long\nCrash in plugin");
    assert_eq!(state.set_level(Level::All, &log).lines().count(), 4);
    // The search ignores case on both sides.
    assert_eq!(state.set_search("started".to_owned(), &log), "Server STARTED");
    assert_eq!(state.set_search("TICK".to_owned(), &log), "Tick took long");
    assert_eq!(state.set_search("nothing".to_owned(), &log), "");
    assert_eq!(state.shown, 0);
}

#[test]
fn new_lines_are_appended_or_held() {
    let mut log = log_of(vec![line(0, LogLevel::Info, "one")]);
    let mut state = State::new();
    assert_eq!(state.on_new_lines(&log), Some("one".to_owned()));
    push_lines(&mut log, vec![line(1, LogLevel::Info, "two"), line(2, LogLevel::Info, "three")]);
    assert_eq!(state.on_new_lines(&log), Some("\ntwo\nthree".to_owned()));
    assert_eq!(state.on_new_lines(&log), None);

    // Reading back holds new lines and counts them instead.
    state.take_over();
    assert!(!state.follow);
    assert!(!command_line_has_focus(&state));
    push_lines(&mut log, vec![line(3, LogLevel::Info, "four")]);
    assert_eq!(state.on_new_lines(&log), None);
    assert_eq!(state.pending, 1);
    assert_eq!(state.jump_to_end(&log), Some("\nfour".to_owned()));
    assert!(state.follow);
    assert_eq!(state.shown, 4);
}

#[test]
fn the_scrollback_keeps_the_newest_lines() {
    let mut log = VecDeque::new();
    let lines: Vec<LogLine> = (0..(LOG_CAPACITY as u64 + 5)).map(|i| line(i, LogLevel::Info, "x")).collect();
    push_lines(&mut log, lines);
    assert_eq!(log.len(), LOG_CAPACITY);
    assert_eq!(log.front().map(|l| l.seq), Some(5));
    assert_eq!(log.back().map(|l| l.seq), Some(LOG_CAPACITY as u64 + 4));
    push_lines(&mut log, vec![line(99_999, LogLevel::Info, "newest")]);
    assert_eq!(log.len(), LOG_CAPACITY);
    assert_eq!(log.back().map(|l| l.message.as_str()), Some("newest"));
}

#[test]
fn submit_trims_slashes_and_skips_repeats() {
    let mut state = State::new();
    state.input_changed("  /say hi ".to_owned());
    assert_eq!(state.submit(), Some("say hi".to_owned()));
    assert_eq!(state.input, "");
    state.input_changed("//say hi".to_owned());
    assert_eq!(state.submit(), Some("say hi".to_owned()));
    assert_eq!(state.history, vec!["say hi".to_owned()]);
    state.input_changed("list".to_owned());
    assert_eq!(state.submit(), Some("list".to_owned()));
    assert_eq!(state.history.len(), 2);
    assert_eq!(state.history_index, 2);
    state.input_changed(" / ".to_owned());
    assert_eq!(state.submit(), None);
    assert_eq!(state.input, " / ");
}

#[test]
fn history_steps_back_and_restores_the_draft() {
    let mut state = State::new();
    state.history_prev();
    assert_eq!(state.input, "");
    for cmd in ["a", "b"] {
        state.input_changed(cmd.to_owned());
        let _ = state.submit();
    }
    state.input_changed("half".to_owned());
    state.history_prev();
    assert_eq!(state.input, "b");
    state.history_prev();
    assert_eq!(state.input, "a");
    state.history_prev();
    assert_eq!(state.input, "a");
    assert_eq!(state.history_index, 0);
    state.history_next();
    assert_eq!(state.input, "b");
    state.history_next();
    assert_eq!(state.input, "half");
    state.history_next();
    assert_eq!(state.input, "half");
    assert_eq!(state.history_index, 2);
}

#[test]
fn completions_replace_the_word_or_hint() {
    let mut state = State::new();
    state.input_changed("gamemode cre".to_owned());
    let (id, line, cursor) = state.complete();
    assert_eq!((id, line.as_str(), cursor), (0, "gamemode cre", 12));
    assert_eq!(state.next_request, 1);
    // An answer to an older request is ignored.
    state.on_completions(7, &["x".to_owned()]);
    assert_eq!(state.input, "gamemode cre");
    state.on_completions(0, &["creative".to_owned()]);
    assert_eq!(state.input, "gamemode creative");
    assert_eq!(state.pending_completion, None);

    state.input_changed("sto".to_owned());
    let (id, _, _) = state.complete();
    state.on_completions(id, &["stop".to_owned(), "stopwatch".to_owned()]);
    assert_eq!(state.hint, "stop  stopwatch");
    assert_eq!(state.input, "sto");

    state.input_changed("é".to_owned());
    let (_, _, cursor) = state.complete();
    assert_eq!(cursor, 2);
}

#[test]
fn request_ids_wrap() {
    let mut state = State::new();
    state.next_request = u32::MAX;
    let (id, _, _) = state.complete();
    assert_eq!(id, u32::MAX);
    assert_eq!(state.next_request, 0);
}

#[test]
fn copy_fences_the_text() {
    let mut state = State::new();
    assert_eq!(state.copy("a\nb"), "```\na\nb\n```");
    assert!(state.copied);
    assert_eq!(fenced(""), "```\n\n```");
}

#[test]
fn spans_follow_runs_in_bytes() {
    let l = LogLine {
        seq: 0,
        level: LogLevel::Warn,
        target: String::new(),
        message: "é ok".to_owned(),
        runs: vec![
            StyledRun { text: "é ".to_owned(), color: Some((1, 2, 3)) },
            StyledRun { text: "ok".to_owned(), color: None },
        ],
    };
    assert_eq!(
        spans_of(&l),
        vec![(0, 3, SpanColor::Rgb(1, 2, 3)), (3, 5, SpanColor::Level(Tone::Warn))]
    );
}

#[test]
fn fresh_lines_point_at_what_is_appended() {
    let log = log_of(vec![
        line(5, LogLevel::Info, "old"),
        line(6, LogLevel::Debug, "quiet"),
        line(7, LogLevel::Warn, "loud"),
        line(8, LogLevel::Error, "louder"),
    ]);
    let mut state = State::new();
    assert_eq!(state.fresh_lines(&log, 0), vec![0, 1, 2, 3]);
    assert_eq!(state.fresh_lines(&log, 7), vec![2, 3]);
    let _ = state.set_level(Level::Warn, &log);
    assert_eq!(state.fresh_lines(&log, 0), vec![2, 3]);
    let _ = state.set_search("LOUDER".to_owned(), &log);
    assert_eq!(state.fresh_lines(&log, 0), vec![3]);
    assert!(state.fresh_lines(&log, 9).is_empty());
}

#[test]
fn recall_round_trip_restores_the_half_typed_line() {
    let mut state = State::new();
    for cmd in ["list", "say hi"] {
        state.input_changed(cmd.to_owned());
        let _ = state.submit();
    }
    state.input_changed("tp Ste".to_owned());
    state.recall(-1);
    assert_eq!(state.input, "say hi");
    state.recall(1);
    assert_eq!(state.input, "tp Ste");
    assert_eq!(state.history_index, state.history.len());
    // Steps past either end stop there.
    state.recall(-10);
    assert_eq!((state.input.as_str(), state.history_index), ("list", 0));
    state.recall(10);
    assert_eq!((state.input.as_str(), state.history_index), ("tp Ste", 2));
}
