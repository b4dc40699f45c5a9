//! Development and CI hooks, driven by environment variables: where to write a screenshot, how
//! long to wait first, and which tab to open on.
use vstd::prelude::*;
use crate::text::{chars_of, trim_chars};

verus! {

/// How long the UI settles before a screenshot, in milliseconds, unless configured.
pub const DEFAULT_SCREENSHOT_DELAY_MS: i32 = 1500;

/// The value of a run of ASCII digits.
pub open spec fn digits_value(s: Seq<char>) -> int
    decreases s.len(),
{
    if s.len() == 0 {
        0
    } else {
        digits_value(s.drop_last()) * 10 + ((s.last() as u32) - 48)
    }
}

pub open spec fn all_digits(s: Seq<char>) -> bool {
    forall|i: int| 0 <= i < s.len() ==> '0' <= #[trigger] s[i] <= '9'
}

/// `str::parse::<i32>`: an optional sign, then at least one ASCII digit, in range.
pub open spec fn parsed_i32(s: Seq<char>) -> Option<i32> {
    let negative = s.len() > 0 && s[0] == '-';
    let body = if s.len() > 0 && (s[0] == '-' || s[0] == '+') {
        s.drop_first()
    } else {
        s
    };
    let value = if negative {
        -digits_value(body)
    } else {
        digits_value(body)
    };
    if body.len() > 0 && all_digits(body) && i32::MIN <= value <= i32::MAX {
        Some(value as i32)
    } else {
        None
    }
}

proof fn lemma_digits_value_nonneg(s: Seq<char>)
    requires
        all_digits(s),
    ensures
        digits_value(s) >= 0,
    decreases s.len(),
{
    if s.len() > 0 {
        assert(all_digits(s.drop_last())) by {
            assert forall|i: int| 0 <= i < s.drop_last().len() implies '0' <= #[trigger] s.drop_last()[i] <= '9' by {
                assert(s.drop_last()[i] == s[i]);
            }
        }
        lemma_digits_value_nonneg(s.drop_last());
        assert('0' <= s[s.len() - 1] <= '9');
    }
}

/// Parses a decimal `i32` the way `str::parse` does.
pub fn parse_i32(s: &str) -> (r: Option<i32>)
    ensures
        r == parsed_i32(s@),
{
    let v = chars_of(s);
    let n = v.len();
    let negative = n > 0 && v[0] == '-';
    let start: usize = if n > 0 && (v[0] == '-' || v[0] == '+') {
        1
    } else {
        0
    };
    let ghost body = v@.skip(start as int);
    assert(start == 1 ==> body =~= v@.drop_first());
    assert(start == 0 ==> body =~= v@);
    if start == n {
        return None;
    }
    // Accumulate the magnitude, stopping as soon as it leaves the range an i32 can reach.
    let mut value: i64 = 0;
    let mut i: usize = start;
    while i < n
        invariant
            start <= i <= n,
            n == v@.len(),
            v@ == s@,
            body == v@.skip(start as int),
            start == 1 ==> body == v@.drop_first(),
            start == 0 ==> body == v@,
            start == 1 <==> (v@.len() > 0 && (v@[0] == '-' || v@[0] == '+')),
            start <= 1,
            all_digits(v@.subrange(start as int, i as int)),
            value == digits_value(v@.subrange(start as int, i as int)),
            0 <= value <= 0x8000_0000,
        decreases n - i,
    {
        let c = v[i];
        if !('0' <= c && c <= '9') {
            proof {
                assert(!all_digits(body)) by {
                    assert(body[i - start] == c);
                }
            }
            return None;
        }
        let d = (c as u32 - 48) as i64;
        let next = value * 10 + d;
        let ghost prefix = v@.subrange(start as int, i + 1);
        assert(prefix.drop_last() =~= v@.subrange(start as int, i as int));
        assert(prefix.last() == c);
        assert(all_digits(prefix)) by {
            assert forall|k: int| 0 <= k < prefix.len() implies '0' <= #[trigger] prefix[k] <= '9' by {
                if k < prefix.len() - 1 {
                    assert(prefix[k] == v@.subrange(start as int, i as int)[k]);
                }
            }
        }
        if next > 0x8000_0000 {
            proof {
                // Every further digit only makes the magnitude larger.
                assert(digits_value(prefix) == value * 10 + d);
                lemma_grows(v@, start as int, i + 1, n as int);
                assert(v@.subrange(start as int, n as int) =~= body);
            }
            return None;
        }
        value = next;
        i += 1;
    }
    assert(v@.subrange(start as int, n as int) =~= body);
    proof {
        lemma_digits_value_nonneg(body);
    }
    if negative {
        let r = 0 - value;
        if r < -0x8000_0000 {
            return None;
        }
        Some(r as i32)
    } else {
        if value > 0x7fff_ffff {
            return None;
        }
        Some(value as i32)
    }
}

/// A longer run of digits has at least the value of its prefix.
proof fn lemma_grows(v: Seq<char>, start: int, i: int, n: int)
    requires
        0 <= start <= i <= n <= v.len(),
        all_digits(v.subrange(start, i)),
        digits_value(v.subrange(start, i)) > 0x8000_0000,
    ensures
        all_digits(v.subrange(start, n)) ==> digits_value(v.subrange(start, n)) > 0x8000_0000,
    decreases n - i,
{
    if i < n && all_digits(v.subrange(start, n)) {
        let p = v.subrange(start, i + 1);
        assert(p.drop_last() =~= v.subrange(start, i));
        assert(all_digits(p)) by {
            assert forall|k: int| 0 <= k < p.len() implies '0' <= #[trigger] p[k] <= '9' by {
                assert(p[k] == v.subrange(start, n)[k]);
            }
        }
        assert('0' <= p.last() <= '9') by {
            assert(p.last() == p[p.len() - 1]);
        }
        lemma_grows(v, start, i + 1, n);
    }
}

/// An integer setting from the environment: the variable's trimmed value when it parses, else
/// `fallback`.
pub fn env_i32_value(raw: Option<&str>, fallback: i32) -> (r: i32)
    ensures
        r == match raw {
            Some(value) => match parsed_i32(crate::text::trim(value@)) {
                Some(parsed) => parsed,
                None => fallback,
            },
            None => fallback,
        },
{
    match raw {
        Some(value) => {
            let v = chars_of(value);
            let t = trim_chars(&v);
            let s = crate::text::string_of(&t);
            match parse_i32(s.as_str()) {
                Some(parsed) => parsed,
                None => fallback,
            }
        },
        None => fallback,
    }
}

} // verus!
