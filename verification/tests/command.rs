use pumpkin_gui::command::{quote, sanitize_reason, targeted};

#[test]
fn plain_names_are_not_quoted() {
    assert_eq!(quote("Steve_1"), Some("Steve_1".to_owned()));
}

#[test]
fn names_with_spaces_are_quoted() {
    assert_eq!(quote("Some Gamertag"), Some("\"Some Gamertag\"".to_owned()));
}

#[test]
fn a_path_survives_quoting() {
    assert_eq!(
        quote("plugins/TinyAC_[BETA].wasm"),
        Some("\"plugins/TinyAC_[BETA].wasm\"".to_owned())
    );
}

#[test]
fn control_characters_are_refused() {
    assert_eq!(quote("bad\nname"), None);
}

#[test]
fn a_reason_is_appended_unquoted() {
    assert_eq!(
        targeted("ban", "Steve", Some("griefing  ")),
        Some("ban Steve griefing".to_owned())
    );
}

#[test]
fn an_empty_reason_is_left_off() {
    assert_eq!(targeted("kick", "Steve", Some("  ")), Some("kick Steve".to_owned()));
}

#[test]
fn quotes_and_backslashes_are_escaped() {
    assert_eq!(quote("a\"b\\c"), Some("\"a\\\"b\\\\c\"".to_owned()));
    assert_eq!(quote(""), None);
    assert_eq!(quote("tab\there"), None);
    assert_eq!(quote("\u{85}x"), None);
    assert_eq!(quote("a-b.c+d"), Some("a-b.c+d".to_owned()));
}

#[test]
fn reasons_lose_control_characters_and_edges() {
    assert_eq!(sanitize_reason("  spam\nand\tgrief \u{3000}"), "spam and grief");
    assert_eq!(sanitize_reason("\u{1}\u{2}"), "");
    assert_eq!(sanitize_reason(&sanitize_reason(" a\u{7f}b ")), "a b");
}

#[test]
fn an_unquotable_target_gives_no_line() {
    assert_eq!(targeted("op", "", None), None);
    assert_eq!(targeted("whitelist add", "Some One", None), Some("whitelist add \"Some One\"".to_owned()));
    assert_eq!(targeted("kick", "Steve", None), Some("kick Steve".to_owned()));
}

/// Reads one argument the way the server's string reader does: quoted with backslash escapes, or
/// a run of unquoted-safe characters. Returns the value and how many characters it took.
fn read_argument(s: &str) -> Option<(String, usize)> {
    let chars: Vec<char> = s.chars().collect();
    if chars.first() == Some(&'"') {
        let mut value = String::new();
        let mut i = 1;
        while i < chars.len() {
            match chars[i] {
                '"' => return Some((value, i + 1)),
                '\\' => {
                    let next = *chars.get(i + 1)?;
                    if next != '\\' && next != '"' {
                        return None;
                    }
                    value.push(next);
                    i += 2;
                }
                c => {
                    value.push(c);
                    i += 1;
                }
            }
        }
        None
    } else {
        let n = chars
            .iter()
            .take_while(|c| c.is_ascii_alphanumeric() || matches!(c, '_' | '-' | '.' | '+'))
            .count();
        (n > 0).then(|| (chars[..n].iter().collect(), n))
    }
}

#[test]
fn quoted_values_read_back_as_one_argument() {
    for value in ["Steve_1", "Some Gamertag", "a\"b\\c", "plugins/TinyAC_[BETA].wasm", "\\", "\"", "é x"] {
        let q = quote(value).expect("quotable");
        assert_eq!(read_argument(&q), Some((value.to_owned(), q.chars().count())), "value {value:?}");
        let line = targeted("kick", value, Some("spam")).expect("line");
        let rest = line.strip_prefix("kick ").expect("command first");
        let (read, used) = read_argument(rest).expect("target reads back");
        assert_eq!(read, value);
        assert_eq!(rest.chars().skip(used).collect::<String>(), " spam");
    }
}
