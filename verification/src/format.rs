//! Shared value formatting, so a byte count reads the same on every page.
//!
//! Byte counts are rendered the way the monitoring window always rendered them: the count is
//! taken as a 64-bit float, scaled down by 1024 until it is below 1024 (or reaches PiB), and
//! printed with no decimals up to KiB and one above, rounding half to even. All of that is
//! computed here in exact integer arithmetic; [`as_f64`] is the float the count becomes.
use vstd::prelude::*;
use crate::text::{self, chars_of, push_char, push_decimal, push_two_digits, starts_with};

verus! {

/// `None` and unmeasured values render as an en dash.
pub const UNKNOWN: &'static str = "–";

pub const NAMESPACE: &'static str = "minecraft:";

pub open spec fn power(b: nat, e: nat) -> nat
    decreases e,
{
    if e == 0 {
        1
    } else {
        b * power(b, (e - 1) as nat)
    }
}

/// `n / d` rounded to the nearest integer, ties to the even one.
pub open spec fn round_half_even(n: nat, d: nat) -> nat {
    let q = n / d;
    let r = n % d;
    if 2 * r > d || (2 * r == d && q % 2 == 1) {
        q + 1
    } else {
        q
    }
}

/// The number of binary digits of `n` (zero for zero).
pub open spec fn bit_len(n: nat) -> nat
    decreases n,
{
    if n == 0 {
        0
    } else {
        1 + bit_len(n / 2)
    }
}

/// The value of `n as f64`: `n` rounded to 53 significant bits, ties to even.
pub open spec fn as_f64(n: nat) -> nat {
    if bit_len(n) <= 53 {
        n
    } else {
        let p = power(2, (bit_len(n) - 53) as nat);
        round_half_even(n, p) * p
    }
}

/// The unit a size of `x` bytes is shown in, counting up from `k`: B, KiB, ..., PiB.
pub open spec fn unit_from(x: nat, k: nat) -> nat
    decreases 5 - k,
{
    if k < 5 && x >= power(1024, k + 1) {
        unit_from(x, k + 1)
    } else {
        k
    }
}

pub open spec fn unit_name(u: nat) -> Seq<char> {
    if u == 0 {
        "B"@
    } else if u == 1 {
        "KiB"@
    } else if u == 2 {
        "MiB"@
    } else if u == 3 {
        "GiB"@
    } else if u == 4 {
        "TiB"@
    } else {
        "PiB"@
    }
}

/// What `bytes` renders.
pub open spec fn bytes_text(value: Option<u64>) -> Seq<char> {
    match value {
        None => UNKNOWN@,
        Some(v) => {
            let x = as_f64(v as nat);
            let u = unit_from(x, 0);
            let d = power(1024, u);
            if u < 2 {
                text::decimal(round_half_even(x, d)) + " "@ + unit_name(u)
            } else {
                let n = round_half_even(10 * x, d);
                text::decimal(n / 10) + seq!['.', text::digit_char(n % 10)] + " "@ + unit_name(u)
            }
        },
    }
}

/// What `duration` renders: only the two largest units that matter.
pub open spec fn duration_text(total: nat) -> Seq<char> {
    let days = total / 86400;
    let hours = (total % 86400) / 3600;
    let minutes = (total % 3600) / 60;
    let seconds = total % 60;
    if days > 0 {
        text::decimal(days) + "d "@ + text::decimal(hours) + "h"@
    } else if hours > 0 {
        text::decimal(hours) + "h "@ + text::decimal(minutes) + "m"@
    } else if minutes > 0 {
        text::decimal(minutes) + "m "@ + text::decimal(seconds) + "s"@
    } else {
        text::decimal(seconds) + "s"@
    }
}

pub open spec fn signed_decimal(i: int) -> Seq<char> {
    if i < 0 {
        seq!['-'] + text::decimal((-i) as nat)
    } else {
        text::decimal(i as nat)
    }
}

/// The in-game day a tick count falls on; tick 0 is the morning of day 1.
pub open spec fn game_day(time_of_day: int) -> int {
    time_of_day / 24000 + 1
}

/// Minutes since midnight on the in-game clock, where tick 0 is 06:00.
pub open spec fn game_minutes(time_of_day: int) -> int {
    ((time_of_day % 24000) * 60 / 1000 + 360) % 1440
}

/// What `game_time` renders.
pub open spec fn game_time_text(time_of_day: int) -> Seq<char> {
    let m = game_minutes(time_of_day);
    "Day "@ + signed_decimal(game_day(time_of_day)) + " · "@ + text::two_digits((m / 60) as nat)
        + ":"@ + text::two_digits((m % 60) as nat)
}

/// A dimension name without the `minecraft:` namespace.
pub open spec fn dimension_text(name: Seq<char>) -> Seq<char> {
    if text::has_prefix(name, NAMESPACE@) {
        name.skip(NAMESPACE@.len() as int)
    } else {
        name
    }
}

/// The items joined by `sep`.
pub open spec fn join(items: Seq<Seq<char>>, sep: Seq<char>) -> Seq<char>
    decreases items.len(),
{
    if items.len() == 0 {
        Seq::empty()
    } else if items.len() == 1 {
        items[0]
    } else {
        join(items.drop_last(), sep) + sep + items.last()
    }
}

pub open spec fn views(values: Seq<String>) -> Seq<Seq<char>> {
    values.map_values(|s: String| s@)
}

/// What `list` renders.
pub open spec fn list_text(values: Seq<String>) -> Seq<char> {
    if values.len() == 0 {
        UNKNOWN@
    } else {
        join(views(values), ", "@)
    }
}

proof fn lemma_power_positive(b: nat, e: nat)
    requires
        b >= 1,
    ensures
        power(b, e) >= 1,
    decreases e,
{
    if e > 0 {
        lemma_power_positive(b, (e - 1) as nat);
        assert(b * power(b, (e - 1) as nat) >= 1) by (nonlinear_arith)
            requires
                b >= 1,
                power(b, (e - 1) as nat) >= 1,
        ;
    }
}

proof fn lemma_power_mono(b: nat, i: nat, j: nat)
    requires
        b >= 1,
        i <= j,
    ensures
        power(b, i) <= power(b, j),
    decreases j,
{
    if i < j {
        lemma_power_mono(b, i, (j - 1) as nat);
        let x = power(b, (j - 1) as nat);
        assert(b * x >= x) by (nonlinear_arith)
            requires
                b >= 1,
        ;
    }
}

/// `n` has `bit_len(n)` bits: it lies in `[2^(bit_len - 1), 2^bit_len)`.
proof fn lemma_bit_len_bounds(n: nat)
    ensures
        n < power(2, bit_len(n)),
        n > 0 ==> power(2, (bit_len(n) - 1) as nat) <= n,
    decreases n,
{
    if n > 0 {
        lemma_bit_len_bounds(n / 2);
        let k = bit_len(n / 2);
        if n / 2 > 0 {
            assert(power(2, (k - 1) as nat) <= n / 2);
            assert(power(2, k) == 2 * power(2, (k - 1) as nat));
        } else {
            assert(power(2, 0) == 1);
        }
    }
}

proof fn lemma_power_values()
    ensures
        power(2, 64) == 0x1_0000_0000_0000_0000,
        power(1024, 5) == 0x4_0000_0000_0000,
{
    reveal_with_fuel(power, 65);
}

proof fn lemma_u64_bit_len(v: u64)
    ensures
        bit_len(v as nat) <= 64,
{
    lemma_bit_len_bounds(v as nat);
    if bit_len(v as nat) > 64 {
        lemma_power_mono(2, 64, (bit_len(v as nat) - 1) as nat);
        lemma_power_values();
    }
}

/// `u128` division rounded half to even.
fn div_round_half_even(n: u128, d: u128) -> (r: u128)
    requires
        d > 0,
        n < 0x1_0000_0000_0000_0000_0000_0000_0000_0000 - 1,
    ensures
        r == round_half_even(n as nat, d as nat),
{
    let q = n / d;
    let r = n % d;
    assert(q <= n) by (nonlinear_arith)
        requires
            d > 0,
            q == n / d,
    ;
    if (r > d - r) || (r == d - r && q % 2 == 1) {
        q + 1
    } else {
        q
    }
}

/// `v as f64`, exactly, as an integer.
fn f64_value(v: u64) -> (x: u128)
    ensures
        x == as_f64(v as nat),
        x <= 2 * (v as nat),
{
    let mut e: u64 = 0;
    let mut t: u64 = v;
    proof {
        lemma_u64_bit_len(v);
    }
    while t > 0
        invariant
            bit_len(v as nat) == e + bit_len(t as nat),
            bit_len(v as nat) <= 64,
        decreases t,
    {
        t = t / 2;
        e = e + 1;
    }
    if e <= 53 {
        return v as u128;
    }
    let s = e - 53;
    let mut p: u128 = 1;
    let mut i: u64 = 0;
    proof {
        lemma_bit_len_bounds(v as nat);
        lemma_power_mono(2, s as nat, (e - 1) as nat);
    }
    while i < s
        invariant
            i <= s,
            s == e - 53,
            bit_len(v as nat) == e,
            p == power(2, i as nat),
            power(2, s as nat) <= v,
        decreases s - i,
    {
        proof {
            lemma_power_mono(2, (i + 1) as nat, s as nat);
        }
        p = p * 2;
        i = i + 1;
    }
    let vv = v as u128;
    proof {
        lemma_power_positive(2, s as nat);
    }
    let q = vv / p;
    let r = vv % p;
    proof {
        vstd::arithmetic::div_mod::lemma_fundamental_div_mod(vv as int, p as int);
    }
    let up = (r > p - r) || (r == p - r && q % 2 == 1);
    let x = if up {
        vv - r + p
    } else {
        vv - r
    };
    proof {
        let q2 = round_half_even(v as nat, p as nat);
        if up {
            assert(q2 == q + 1);
            assert(q2 * p == q * p + p) by (nonlinear_arith)
                requires
                    q2 == q + 1,
            ;
        } else {
            assert(q2 == q);
        }
    }
    x
}

/// Formats a byte count, or the en dash when there is none.
pub fn bytes(value: Option<u64>) -> (s: String)
    ensures
        s@ == bytes_text(value),
{
    let v = match value {
        None => return UNKNOWN.to_owned(),
        Some(v) => v,
    };
    let x = f64_value(v);
    let mut unit: u64 = 0;
    let mut d: u128 = 1;
    assert(power(1024, 0) == 1);
    proof {
        lemma_power_values();
        lemma_power_mono(1024, 0, 5);
    }
    while unit < 5 && x >= d * 1024
        invariant
            unit <= 5,
            power(1024, 5) == 0x4_0000_0000_0000,
            d == power(1024, unit as nat),
            d <= power(1024, 5),
            unit_from(x as nat, 0) == unit_from(x as nat, unit as nat),
        decreases 5 - unit,
    {
        proof {
            lemma_power_mono(1024, (unit + 1) as nat, 5);
            assert(power(1024, (unit + 1) as nat) == 1024 * power(1024, unit as nat));
        }
        d = d * 1024;
        unit = unit + 1;
    }
    proof {
        lemma_power_positive(1024, unit as nat);
        assert(power(1024, (unit + 1) as nat) == 1024 * power(1024, unit as nat));
        assert(unit_from(x as nat, unit as nat) == unit as nat);
    }
    let mut out = String::new();
    if unit < 2 {
        let n = div_round_half_even(x, d);
        push_decimal(&mut out, n);
    } else {
        let n = div_round_half_even(10 * x, d);
        push_decimal(&mut out, n / 10);
        push_char(&mut out, '.');
        let last = (n % 10) as u64;
        push_char(&mut out, crate::text::digit(last));
    }
    out.append(" ");
    let name = if unit == 0 {
        "B"
    } else if unit == 1 {
        "KiB"
    } else if unit == 2 {
        "MiB"
    } else if unit == 3 {
        "GiB"
    } else if unit == 4 {
        "TiB"
    } else {
        "PiB"
    };
    out.append(name);
    proof {
        if unit >= 2 {
            let n = round_half_even(10 * x as nat, d as nat);
            assert(out@ =~= text::decimal(n / 10) + seq!['.', text::digit_char(n % 10)] + " "@
                + unit_name(unit as nat));
        }
    }
    out
}

/// A throughput, as a byte count per second.
pub fn rate(bytes_per_second: u64) -> (s: String)
    ensures
        s@ == bytes_text(Some(bytes_per_second)) + "/s"@,
{
    let mut out = bytes(Some(bytes_per_second));
    out.append("/s");
    out
}

/// An uptime or online time, in its two largest units that are not zero.
pub fn duration(total_seconds: u64) -> (s: String)
    ensures
        s@ == duration_text(total_seconds as nat),
{
    let days = total_seconds / 86_400;
    let hours = (total_seconds % 86_400) / 3600;
    let minutes = (total_seconds % 3600) / 60;
    let seconds = total_seconds % 60;
    let mut out = String::new();
    if days > 0 {
        push_decimal(&mut out, days as u128);
        out.append("d ");
        push_decimal(&mut out, hours as u128);
        out.append("h");
    } else if hours > 0 {
        push_decimal(&mut out, hours as u128);
        out.append("h ");
        push_decimal(&mut out, minutes as u128);
        out.append("m");
    } else if minutes > 0 {
        push_decimal(&mut out, minutes as u128);
        out.append("m ");
        push_decimal(&mut out, seconds as u128);
        out.append("s");
    } else {
        push_decimal(&mut out, seconds as u128);
        out.append("s");
    }
    assert(out@ =~= duration_text(total_seconds as nat));
    out
}

/// In-world clock: 24 000 ticks to a day, and tick 0 is 06:00 rather than midnight.
pub fn game_time(time_of_day: i64) -> (s: String)
    ensures
        s@ == game_time_text(time_of_day as int),
{
    let day_index = match time_of_day.checked_div_euclid(24_000) {
        Some(d) => d,
        None => 0,
    };
    let ticks = match time_of_day.checked_rem_euclid(24_000) {
        Some(t) => t,
        None => 0,
    };
    assert(day_index == time_of_day as int / 24000);
    assert(ticks == time_of_day as int % 24000);
    let day: i64 = day_index + 1;
    let total_minutes = (ticks * 60 / 1000 + 360) % 1440;
    let hours = total_minutes / 60;
    let minutes = total_minutes % 60;
    let mut out = String::new();
    out.append("Day ");
    if day < 0 {
        push_char(&mut out, '-');
        push_decimal(&mut out, (0 - (day as i128)) as u128);
    } else {
        push_decimal(&mut out, day as u128);
    }
    out.append(" · ");
    push_two_digits(&mut out, hours as u64);
    out.append(":");
    push_two_digits(&mut out, minutes as u64);
    assert(out@ =~= game_time_text(time_of_day as int));
    out
}

/// A dimension without its namespace, which is the same on every row and only costs width.
pub fn dimension(name: &str) -> (res: &str)
    ensures
        res@ == dimension_text(name@),
{
    let v = chars_of(name);
    let p = chars_of(NAMESPACE);
    if starts_with(&v, &p) {
        name.substring_char(p.len(), v.len())
    } else {
        name
    }
}

/// Joins a list for a single-line cell, or the en dash when it is empty.
pub fn list(values: &[String]) -> (res: String)
    ensures
        res@ == list_text(values@),
{
    if values.len() == 0 {
        return UNKNOWN.to_owned();
    }
    let ghost items = views(values@);
    let mut out = String::new();
    out.append(values[0].as_str());
    assert(items.take(1).drop_last() =~= Seq::<Seq<char>>::empty());
    assert(join(items.take(1), ", "@) == items[0]);
    let mut i: usize = 1;
    while i < values.len()
        invariant
            1 <= i <= values@.len(),
            items == views(values@),
            out@ == join(items.take(i as int), ", "@),
        decreases values@.len() - i,
    {
        out.append(", ");
        out.append(values[i].as_str());
        assert(items.take(i + 1).drop_last() =~= items.take(i as int));
        assert(items.take(i + 1).last() == values@[i as int]@);
        i += 1;
    }
    assert(items.take(values@.len() as int) =~= items);
    out
}

/// Falls back to the en dash so an empty cell still reads as "nothing here".
pub fn or_dash(value: &str) -> (res: &str)
    ensures
        res@ == (if value@.len() == 0 {
            UNKNOWN@
        } else {
            value@
        }),
{
    if value.is_empty() {
        UNKNOWN
    } else {
        value
    }
}

/// The in-game clock repeats every 24 000 ticks, and each repetition is the next day; the clock
/// always reads a time of day, in whole minutes below 24:00.
pub proof fn lemma_game_time_repeats_daily(time_of_day: int)
    ensures
        game_minutes(time_of_day + 24000) == game_minutes(time_of_day),
        game_day(time_of_day + 24000) == game_day(time_of_day) + 1,
        0 <= game_minutes(time_of_day) < 1440,
{
    vstd::arithmetic::div_mod::lemma_mod_add_multiples_vanish(time_of_day, 24000);
    vstd::arithmetic::div_mod::lemma_div_plus_one(time_of_day, 24000);
}

/// A byte count is shown in the largest unit it reaches, up to PiB: the scaled value is at least
/// one of that unit (unless it is plain bytes) and below 1024 of it (unless it is PiB).
pub proof fn lemma_unit_fits(x: nat)
    ensures
        unit_from(x, 0) <= 5,
        unit_from(x, 0) > 0 ==> x >= power(1024, unit_from(x, 0)),
        unit_from(x, 0) < 5 ==> x < power(1024, unit_from(x, 0) + 1),
{
    lemma_unit_from(x, 0);
}

proof fn lemma_unit_from(x: nat, k: nat)
    requires
        k <= 5,
        k > 0 ==> x >= power(1024, k),
    ensures
        k <= unit_from(x, k) <= 5,
        unit_from(x, k) > 0 ==> x >= power(1024, unit_from(x, k)),
        unit_from(x, k) < 5 ==> x < power(1024, unit_from(x, k) + 1),
    decreases 5 - k,
{
    if k < 5 && x >= power(1024, k + 1) {
        lemma_unit_from(x, k + 1);
    }
}

/// Rounding `n / d` to the nearest integer misses by at most half a step either way.
proof fn lemma_round_half_even_close(n: nat, d: nat)
    requires
        d > 0,
    ensures
        -(d as int) <= 2 * (round_half_even(n, d) * d - n) <= d,
{
    let q = n / d;
    let r = n % d;
    vstd::arithmetic::div_mod::lemma_fundamental_div_mod(n as int, d as int);
    assert(0 <= r < d);
    if 2 * r > d || (2 * r == d && q % 2 == 1) {
        assert(round_half_even(n, d) * d == q * d + d) by (nonlinear_arith)
            requires
                round_half_even(n, d) == q + 1,
        ;
    } else {
        assert(round_half_even(n, d) * d == q * d);
    }
}

/// The unit of `x` is `u` when `x` lies in `u`'s range: at least `1024^u` (or any size for
/// bytes), and below `1024^(u + 1)` (or any size for PiB).
proof fn lemma_unit_is(x: nat, u: nat)
    requires
        u <= 5,
        u == 0 || power(1024, u) <= x,
        u == 5 || x < power(1024, u + 1),
    ensures
        unit_from(x, 0) == u,
{
    lemma_unit_fits(x);
    let w = unit_from(x, 0);
    if w < u {
        lemma_power_mono(1024, w + 1, u);
    } else if w > u {
        lemma_power_mono(1024, u + 1, w);
    }
}

/// A byte count is shown in the largest power of 1024 it reaches, up to PiB, named with that
/// power's binary prefix: B, KiB, MiB, GiB, TiB, PiB.
pub proof fn lemma_bytes_unit(v: u64)
    ensures
        ({
            let x = as_f64(v as nat);
            let t = bytes_text(Some(v));
            &&& x < power(1024, 1) ==> t.len() >= 2 && t.skip(t.len() - 2) == " B"@
            &&& power(1024, 1) <= x < power(1024, 2) ==> t.len() >= 4 && t.skip(t.len() - 4)
                == " KiB"@
            &&& power(1024, 2) <= x < power(1024, 3) ==> t.len() >= 4 && t.skip(t.len() - 4)
                == " MiB"@
            &&& power(1024, 3) <= x < power(1024, 4) ==> t.len() >= 4 && t.skip(t.len() - 4)
                == " GiB"@
            &&& power(1024, 4) <= x < power(1024, 5) ==> t.len() >= 4 && t.skip(t.len() - 4)
                == " TiB"@
            &&& power(1024, 5) <= x ==> t.len() >= 4 && t.skip(t.len() - 4) == " PiB"@
        }),
{
    let x = as_f64(v as nat);
    let t = bytes_text(Some(v));
    lemma_unit_fits(x);
    let u = unit_from(x, 0);
    let d = power(1024, u);
    let pre = if u < 2 {
        text::decimal(round_half_even(x, d))
    } else {
        let n = round_half_even(10 * x, d);
        text::decimal(n / 10) + seq!['.', text::digit_char(n % 10)]
    };
    assert(t == pre + " "@ + unit_name(u));
    reveal_strlit(" ");
    reveal_strlit("B");
    reveal_strlit("KiB");
    reveal_strlit("MiB");
    reveal_strlit("GiB");
    reveal_strlit("TiB");
    reveal_strlit("PiB");
    reveal_strlit(" B");
    reveal_strlit(" KiB");
    reveal_strlit(" MiB");
    reveal_strlit(" GiB");
    reveal_strlit(" TiB");
    reveal_strlit(" PiB");
    assert(t.skip(pre.len() as int) =~= " "@ + unit_name(u));
    assert(t.len() == pre.len() + 1 + unit_name(u).len());
    lemma_power_mono(1024, 1, 5);
    lemma_power_mono(1024, 2, 5);
    lemma_power_mono(1024, 3, 5);
    lemma_power_mono(1024, 4, 5);
    if x < power(1024, 1) {
        lemma_unit_is(x, 0);
        assert(" "@ + unit_name(u) =~= " B"@);
    } else if x < power(1024, 2) {
        lemma_unit_is(x, 1);
        assert(" "@ + unit_name(u) =~= " KiB"@);
    } else if x < power(1024, 3) {
        lemma_unit_is(x, 2);
        assert(" "@ + unit_name(u) =~= " MiB"@);
    } else if x < power(1024, 4) {
        lemma_unit_is(x, 3);
        assert(" "@ + unit_name(u) =~= " GiB"@);
    } else if x < power(1024, 5) {
        lemma_unit_is(x, 4);
        assert(" "@ + unit_name(u) =~= " TiB"@);
    } else {
        lemma_unit_is(x, 5);
        assert(" "@ + unit_name(u) =~= " PiB"@);
    }
}

/// The number a byte count is shown as reads back as the count: in bytes and KiB it is a whole
/// number `n` with `n * 1024^u` within half a unit of the count, and from MiB on it is `n` tenths
/// with `n * 1024^u` within half a tenth of ten times the count. The unit is the one whose range
/// holds the count.
pub proof fn lemma_bytes_reads_back(v: u64)
    ensures
        ({
            let x = as_f64(v as nat);
            let t = bytes_text(Some(v));
            let u = unit_from(x, 0);
            let d = power(1024, u);
            &&& u <= 5
            &&& u == 0 || d <= x
            &&& u == 5 || x < power(1024, u + 1)
            &&& u < 2 ==> {
                let n = round_half_even(x, d);
                &&& t == text::decimal(n) + " "@ + unit_name(u)
                &&& -(d as int) <= 2 * (n * d - x) <= d
            }
            &&& u >= 2 ==> {
                let n = round_half_even(10 * x, d);
                &&& t == text::decimal(n / 10) + seq!['.', text::digit_char(n % 10)] + " "@
                    + unit_name(u)
                &&& -(d as int) <= 2 * (n * d - 10 * x) <= d
            }
        }),
{
    let x = as_f64(v as nat);
    lemma_unit_fits(x);
    let u = unit_from(x, 0);
    lemma_power_positive(1024, u);
    lemma_round_half_even_close(x, power(1024, u));
    lemma_round_half_even_close(10 * x, power(1024, u));
}

/// A dimension named in the `minecraft` namespace is shown as its bare name, and any other name
/// is shown as it is.
pub proof fn lemma_dimension_strips_namespace(bare: Seq<char>, other: Seq<char>)
    requires
        !text::has_prefix(other, NAMESPACE@),
    ensures
        dimension_text(NAMESPACE@ + bare) == bare,
        dimension_text(other) == other,
{
    let full = NAMESPACE@ + bare;
    assert(full.subrange(0, NAMESPACE@.len() as int) =~= NAMESPACE@);
    assert(full.skip(NAMESPACE@.len() as int) =~= bare);
}

} // verus!
