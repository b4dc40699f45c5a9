//! Building console command lines.
//!
//! Every action in the window goes through the same dispatcher the terminal console uses, so it
//! has to survive being written out as text and read back by the server's string reader. The
//! reader's rules for one argument are [`read_argument`]; [`lemma_quote_reads_back`] proves that a
//! quoted value reads back as itself and as exactly one argument.
use vstd::prelude::*;
use crate::text::{self, chars_of, is_control, push_char, string_of, trim_chars};

verus! {

/// A character the reader accepts in an unquoted argument.
pub open spec fn unquoted_char(c: char) -> bool {
    text::is_ascii_alnum_char(c) || c == '_' || c == '-' || c == '.' || c == '+'
}

pub open spec fn all_unquoted(s: Seq<char>) -> bool {
    forall|i: int| 0 <= i < s.len() ==> unquoted_char(s[i])
}

pub open spec fn has_control(s: Seq<char>) -> bool {
    exists|i: int| 0 <= i < s.len() && text::is_control_char(s[i])
}

/// One character inside double quotes: backslash and quote get a backslash in front.
pub open spec fn escape_char(c: char) -> Seq<char> {
    if c == '\\' {
        seq!['\\', '\\']
    } else if c == '"' {
        seq!['\\', '"']
    } else {
        seq![c]
    }
}

pub open spec fn escape(s: Seq<char>) -> Seq<char>
    decreases s.len(),
{
    if s.len() == 0 {
        Seq::empty()
    } else {
        escape(s.drop_last()) + escape_char(s.last())
    }
}

/// The argument `quote` renders `value` as, or `None` when it could not survive quoting.
pub open spec fn quoted(value: Seq<char>) -> Option<Seq<char>> {
    if value.len() == 0 || has_control(value) {
        None
    } else if all_unquoted(value) {
        Some(value)
    } else {
        Some(seq!['"'] + escape(value) + seq!['"'])
    }
}

/// Reads the inside of a quoted argument, after its opening quote: the value, and how many
/// characters it took including the closing quote. `None` for a missing closing quote or an
/// escape of anything but a backslash or a quote.
pub open spec fn read_quoted_body(s: Seq<char>) -> Option<(Seq<char>, nat)>
    decreases s.len(),
{
    if s.len() == 0 {
        None
    } else if s[0] == '"' {
        Some((Seq::empty(), 1))
    } else if s[0] == '\\' {
        if s.len() >= 2 && (s[1] == '\\' || s[1] == '"') {
            match read_quoted_body(s.subrange(2, s.len() as int)) {
                Some((t, n)) => Some((seq![s[1]] + t, n + 2)),
                None => None,
            }
        } else {
            None
        }
    } else {
        match read_quoted_body(s.drop_first()) {
            Some((t, n)) => Some((seq![s[0]] + t, n + 1)),
            None => None,
        }
    }
}

/// How many leading characters are allowed in an unquoted argument.
pub open spec fn unquoted_len(s: Seq<char>) -> nat
    decreases s.len(),
{
    if s.len() > 0 && unquoted_char(s[0]) {
        1 + unquoted_len(s.drop_first())
    } else {
        0
    }
}

/// The server's reading of one string argument at the start of `s`: the value and how many
/// characters it took.
pub open spec fn read_argument(s: Seq<char>) -> Option<(Seq<char>, nat)> {
    if s.len() > 0 && s[0] == '"' {
        match read_quoted_body(s.drop_first()) {
            Some((t, n)) => Some((t, n + 1)),
            None => None,
        }
    } else if unquoted_len(s) == 0 {
        None
    } else {
        Some((s.take(unquoted_len(s) as int), unquoted_len(s)))
    }
}

/// What `sanitize_reason` turns control characters into before trimming.
pub open spec fn blank_controls(s: Seq<char>) -> Seq<char> {
    s.map_values(|c: char| if text::is_control_char(c) { ' ' } else { c })
}

pub open spec fn sanitized(reason: Seq<char>) -> Seq<char> {
    text::trim(blank_controls(reason))
}

pub open spec fn opt_view(r: Option<&str>) -> Option<Seq<char>> {
    match r {
        Some(r) => Some(r@),
        None => None,
    }
}

/// The command line `targeted` builds, or `None` when the target cannot be an argument.
pub open spec fn targeted_line(
    command: Seq<char>,
    target: Seq<char>,
    reason: Option<Seq<char>>,
) -> Option<Seq<char>> {
    match quoted(target) {
        None => None,
        Some(q) => {
            let head = command + seq![' '] + q;
            match reason {
                Some(r) if sanitized(r).len() > 0 => Some(head + seq![' '] + sanitized(r)),
                _ => Some(head),
            }
        },
    }
}

/// Renders a name or path as one command argument.
///
/// Bedrock gamertags may contain spaces and a plugin path contains separators, and the server's
/// reader accepts a quoted argument with backslash escapes, so both still target correctly.
/// Returns `None` for values that could not survive quoting.
pub fn quote(value: &str) -> (res: Option<String>)
    ensures
        res matches Some(s) ==> quoted(value@) == Some(s@),
        res is None <==> quoted(value@) is None,
{
    let v = chars_of(value);
    if v.len() == 0 {
        return None;
    }
    let mut plain = true;
    let mut i: usize = 0;
    while i < v.len()
        invariant
            i <= v@.len(),
            v@ == value@,
            forall|k: int| 0 <= k < i ==> !text::is_control_char(v@[k]),
            plain == all_unquoted(v@.take(i as int)),
        decreases v@.len() - i,
    {
        let c = v[i];
        if is_control(c) {
            return None;
        }
        let ok = crate::text::is_ascii_alnum(c) || c == '_' || c == '-' || c == '.' || c == '+';
        proof {
            let t = v@.take(i as int);
            let t1 = v@.take(i + 1);
            assert(t1 =~= t.push(c));
            if ok && plain {
                assert forall|k: int| 0 <= k < t1.len() implies unquoted_char(t1[k]) by {
                    if k < i {
                        assert(t1[k] == t[k]);
                    }
                }
            }
            if !plain {
                let k = choose|k: int| 0 <= k < t.len() && !unquoted_char(t[k]);
                assert(t1[k] == t[k]);
            }
            if !ok {
                assert(!unquoted_char(t1[i as int]));
            }
        }
        plain = plain && ok;
        i += 1;
    }
    assert(v@.take(v@.len() as int) =~= v@);
    assert(!has_control(v@));
    if plain {
        return Some(string_of(&v));
    }
    let mut out = String::new();
    push_char(&mut out, '"');
    let mut j: usize = 0;
    while j < v.len()
        invariant
            j <= v@.len(),
            out@ == seq!['"'] + escape(v@.take(j as int)),
        decreases v@.len() - j,
    {
        let c = v[j];
        proof {
            let t1 = v@.take(j + 1);
            assert(t1.drop_last() =~= v@.take(j as int));
            assert(t1.last() == c);
        }
        let ghost before = out@;
        if c == '\\' {
            push_char(&mut out, '\\');
            push_char(&mut out, '\\');
        } else if c == '"' {
            push_char(&mut out, '\\');
            push_char(&mut out, '"');
        } else {
            push_char(&mut out, c);
        }
        assert(out@ =~= before + escape_char(c));
        assert(out@ =~= seq!['"'] + escape(v@.take(j + 1)));
        j += 1;
    }
    push_char(&mut out, '"');
    assert(v@.take(v@.len() as int) =~= v@);
    assert(out@ =~= seq!['"'] + escape(v@) + seq!['"']);
    Some(out)
}

/// Strips control characters from a free-text reason.
pub fn sanitize_reason(reason: &str) -> (res: String)
    ensures
        res@ == sanitized(reason@),
{
    let v = chars_of(reason);
    let mut blanked: Vec<char> = Vec::new();
    let mut i: usize = 0;
    while i < v.len()
        invariant
            i <= v@.len(),
            v@ == reason@,
            blanked@ == blank_controls(v@.take(i as int)),
        decreases v@.len() - i,
    {
        let c = v[i];
        let d = if is_control(c) {
            ' '
        } else {
            c
        };
        blanked.push(d);
        assert(blank_controls(v@.take(i + 1)) =~= blank_controls(v@.take(i as int)).push(d));
        i += 1;
    }
    assert(v@.take(v@.len() as int) =~= v@);
    let t = trim_chars(&blanked);
    string_of(&t)
}

/// `<command> <target> [reason]`, or `None` when the target cannot be expressed as an argument.
pub fn targeted(command: &str, target: &str, reason: Option<&str>) -> (res: Option<String>)
    ensures
        res matches Some(s) ==> targeted_line(command@, target@, opt_view(reason)) == Some(
            s@,
        ),
        res is None <==> targeted_line(command@, target@, opt_view(reason)) is None,
{
    let q = match quote(target) {
        Some(q) => q,
        None => return None,
    };
    let mut line = String::new();
    line.append(command);
    push_char(&mut line, ' ');
    line.append(q.as_str());
    let ghost head = line@;
    assert(head =~= command@ + seq![' '] + q@);
    if let Some(reason) = reason {
        let r = sanitize_reason(reason);
        if r.as_str().unicode_len() > 0 {
            push_char(&mut line, ' ');
            line.append(r.as_str());
            assert(line@ =~= head + seq![' '] + sanitized(reason@));
        }
    }
    Some(line)
}


proof fn lemma_escape_concat(a: Seq<char>, b: Seq<char>)
    ensures
        escape(a + b) == escape(a) + escape(b),
    decreases b.len(),
{
    if b.len() == 0 {
        assert(a + b =~= a);
        assert(escape(a) + escape(b) =~= escape(a));
    } else {
        lemma_escape_concat(a, b.drop_last());
        assert((a + b).drop_last() =~= a + b.drop_last());
        assert((a + b).last() == b.last());
        assert(escape(a) + escape(b.drop_last()) + escape_char(b.last()) =~= escape(a) + (escape(
            b.drop_last(),
        ) + escape_char(b.last())));
    }
}

/// The escaped body of `v`, its closing quote and anything after reads back as `v`, stopping right
/// after the closing quote.
proof fn lemma_read_escaped(v: Seq<char>, tail: Seq<char>)
    ensures
        read_quoted_body(escape(v) + seq!['"'] + tail) == Some((v, escape(v).len() + 1)),
    decreases v.len(),
{
    let s = escape(v) + seq!['"'] + tail;
    if v.len() == 0 {
        assert(escape(v) =~= Seq::<char>::empty());
        assert(s[0] == '"');
        assert(v =~= Seq::<char>::empty());
    } else {
        let c = v[0];
        let rest = v.drop_first();
        assert(v =~= seq![c] + rest);
        lemma_escape_concat(seq![c], rest);
        assert(seq![c].drop_last() =~= Seq::<char>::empty());
        assert(seq![c].last() == c);
        assert(escape(Seq::<char>::empty()) =~= Seq::<char>::empty());
        assert(escape(seq![c]) =~= escape(Seq::<char>::empty()) + escape_char(c));
        assert(escape(seq![c]) =~= escape_char(c));
        lemma_read_escaped(rest, tail);
        let inner = escape(rest) + seq!['"'] + tail;
        assert(s =~= escape_char(c) + inner);
        if c == '\\' || c == '"' {
            assert(s.subrange(2, s.len() as int) =~= inner);
            assert(seq![c] + rest =~= v);
        } else {
            assert(s.drop_first() =~= inner);
            assert(seq![c] + rest =~= v);
        }
    }
}

proof fn lemma_unquoted_len(v: Seq<char>, tail: Seq<char>)
    requires
        all_unquoted(v),
        tail.len() == 0 || !unquoted_char(tail[0]),
    ensures
        unquoted_len(v + tail) == v.len(),
    decreases v.len(),
{
    if v.len() == 0 {
        assert(v + tail =~= tail);
    } else {
        assert((v + tail).drop_first() =~= v.drop_first() + tail);
        assert(all_unquoted(v.drop_first())) by {
            assert forall|i: int| 0 <= i < v.drop_first().len() implies unquoted_char(
                v.drop_first()[i],
            ) by {
                assert(v.drop_first()[i] == v[i + 1]);
            }
        }
        lemma_unquoted_len(v.drop_first(), tail);
    }
}

/// A quoted value followed by a separator (or by nothing) is read back by the server as exactly
/// the value that was quoted, and the reading stops where the quoted text ends.
pub proof fn lemma_quote_reads_back_before(value: Seq<char>, q: Seq<char>, tail: Seq<char>)
    requires
        quoted(value) == Some(q),
        tail.len() == 0 || tail[0] == ' ',
    ensures
        read_argument(q + tail) == Some((value, q.len())),
{
    if all_unquoted(value) {
        assert(q == value);
        assert(!unquoted_char(' '));
        lemma_unquoted_len(value, tail);
        assert(!unquoted_char('"'));
        assert(unquoted_char(value[0]));
        assert((q + tail)[0] == value[0]);
        assert((q + tail).take(value.len() as int) =~= value);
    } else {
        let body = escape(value) + seq!['"'] + tail;
        assert(q + tail =~= seq!['"'] + body);
        assert((q + tail).drop_first() =~= body);
        lemma_read_escaped(value, tail);
    }
}

/// What `quote` renders reads back, as one argument, as the value that was quoted.
pub proof fn lemma_quote_reads_back(value: Seq<char>)
    requires
        quoted(value) is Some,
    ensures
        read_argument(quoted(value)->0) == Some((value, quoted(value)->0.len())),
{
    let q = quoted(value)->0;
    lemma_quote_reads_back_before(value, q, Seq::empty());
    assert(q + Seq::<char>::empty() =~= q);
}

/// Quoting refuses exactly the empty values and those holding a control character, and leaves a
/// value made only of unquoted-safe characters as it is.
pub proof fn lemma_quote_refuses(value: Seq<char>)
    ensures
        quoted(value) is None <==> (value.len() == 0 || has_control(value)),
        value.len() > 0 && all_unquoted(value) ==> quoted(value) == Some(value),
{
    if value.len() > 0 && all_unquoted(value) {
        assert(!has_control(value)) by {
            assert forall|i: int| 0 <= i < value.len() implies !text::is_control_char(value[i]) by {
                assert(unquoted_char(value[i]));
            }
        }
    }
}

proof fn lemma_trim_start_shape(s: Seq<char>)
    ensures
        text::trim_start(s).len() <= s.len(),
        forall|i: int|
            0 <= i < text::trim_start(s).len() ==> #[trigger] text::trim_start(s)[i] == s[i + s.len()
                - text::trim_start(s).len()],
        text::trim_start(s).len() == 0 || !text::is_space_char(text::trim_start(s)[0]),
    decreases s.len(),
{
    if s.len() > 0 && text::is_space_char(s[0]) {
        lemma_trim_start_shape(s.drop_first());
    }
}

proof fn lemma_trim_end_shape(s: Seq<char>)
    ensures
        text::trim_end(s).len() <= s.len(),
        forall|i: int| 0 <= i < text::trim_end(s).len() ==> #[trigger] text::trim_end(s)[i] == s[i],
        text::trim_end(s).len() == 0 || !text::is_space_char(text::trim_end(s).last()),
    decreases s.len(),
{
    if s.len() > 0 && text::is_space_char(s.last()) {
        lemma_trim_end_shape(s.drop_last());
    }
}

proof fn lemma_trim_shape(s: Seq<char>)
    ensures
        text::trim(s).len() == 0 || (!text::is_space_char(text::trim(s)[0]) && !text::is_space_char(text::trim(s).last())),
        forall|i: int|
            0 <= i < text::trim(s).len() ==> exists|j: int| 0 <= j < s.len() && #[trigger] text::trim(s)[i]
                == s[j],
{
    let t = text::trim_start(s);
    lemma_trim_start_shape(s);
    lemma_trim_end_shape(t);
    assert forall|i: int| 0 <= i < text::trim(s).len() implies exists|j: int|
        0 <= j < s.len() && #[trigger] text::trim(s)[i] == s[j] by {
        assert(text::trim(s)[i] == t[i]);
        assert(t[i] == s[i + s.len() - t.len()]);
    }
    if text::trim(s).len() > 0 {
        assert(text::trim(s)[0] == t[0]);
    }
}

proof fn lemma_trim_fixed(s: Seq<char>)
    requires
        s.len() == 0 || (!text::is_space_char(s[0]) && !text::is_space_char(s.last())),
    ensures
        text::trim(s) == s,
{
}

/// A sanitized reason holds no control character and has no white space at either end, and
/// sanitizing it again changes nothing.
pub proof fn lemma_sanitized_is_clean(reason: Seq<char>)
    ensures
        !has_control(sanitized(reason)),
        text::trim(sanitized(reason)) == sanitized(reason),
        sanitized(sanitized(reason)) == sanitized(reason),
{
    let b = blank_controls(reason);
    let t = sanitized(reason);
    lemma_trim_shape(b);
    assert(!has_control(t)) by {
        assert forall|i: int| 0 <= i < t.len() implies !text::is_control_char(t[i]) by {
            let j = choose|j: int| 0 <= j < b.len() && t[i] == b[j];
            assert(!text::is_control_char(b[j]));
        }
    }
    lemma_trim_fixed(t);
    assert(blank_controls(t) =~= t) by {
        assert forall|i: int| 0 <= i < t.len() implies blank_controls(t)[i] == t[i] by {
            assert(!text::is_control_char(t[i]));
        }
    }
}

/// A targeted command line reads back as the command, then the target as exactly one argument,
/// then either nothing or a space and the sanitized reason.
pub proof fn lemma_targeted_reads_back(
    command: Seq<char>,
    target: Seq<char>,
    reason: Option<Seq<char>>,
)
    requires
        targeted_line(command, target, reason) is Some,
    ensures
        ({
            let line = targeted_line(command, target, reason)->0;
            let rest = line.skip(command.len() + 1int);
            &&& line.take(command.len() as int) == command
            &&& line[command.len() as int] == ' '
            &&& read_argument(rest) == Some((target, quoted(target)->0.len()))
            &&& rest.skip(quoted(target)->0.len() as int) == (match reason {
                Some(r) if sanitized(r).len() > 0 => seq![' '] + sanitized(r),
                _ => Seq::empty(),
            })
        }),
{
    let q = quoted(target)->0;
    let line = targeted_line(command, target, reason)->0;
    let tail: Seq<char> = match reason {
        Some(r) if sanitized(r).len() > 0 => seq![' '] + sanitized(r),
        _ => Seq::empty(),
    };
    assert(line =~= command + seq![' '] + (q + tail));
    assert(line.take(command.len() as int) =~= command);
    assert(line.skip(command.len() + 1int) =~= q + tail);
    assert((q + tail).skip(q.len() as int) =~= tail);
    lemma_quote_reads_back_before(target, q, tail);
}

} // verus!
