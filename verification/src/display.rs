//! How times are shown: a clock time for each message and a date heading.

use vstd::prelude::*;

use crate::digits::{push_zero_padded, zero_padded};
use crate::encoding::string_from_chars;
use crate::entropy::unix_time_millis;

verus! {

/// Integer division rounding toward zero, as Rust's `/` on integers does.
pub open spec fn tdiv(a: int, b: int) -> int {
    if a >= 0 {
        a / b
    } else {
        -((-a) / b)
    }
}

/// The remainder that goes with `tdiv`, as Rust's `%` on integers gives it.
pub open spec fn trem(a: int, b: int) -> int {
    a - b * tdiv(a, b)
}

/// `HH:MM` of a millisecond timestamp (UTC), each part as `{:02}` writes it.
pub open spec fn clock_text(ts: int) -> Seq<char> {
    let secs = tdiv(ts, 1000);
    let m = tdiv(secs, 60);
    let h = tdiv(m, 60);
    zero_padded(trem(h, 24), 2) + seq![':'] + zero_padded(trem(m, 60), 2)
}

/// The date heading of a millisecond timestamp, seen at time `now`:
/// "Today", "Yesterday", or an approximate `YYYY-MM-DD` (years of 365 days,
/// months of 30).
pub open spec fn date_text(ts: int, now: int) -> Seq<char> {
    let days = tdiv(ts, 86400000);
    let now_days = tdiv(now, 86400000);
    if days == now_days {
        "Today"@
    } else if days == now_days - 1 {
        "Yesterday"@
    } else {
        let d = tdiv(tdiv(ts, 1000), 86400);
        zero_padded(1970 + tdiv(d, 365), 4) + seq!['-'] + zero_padded(tdiv(trem(d, 365), 30) + 1, 2)
            + seq!['-'] + zero_padded(trem(trem(d, 365), 30) + 1, 2)
    }
}

/// The clock time of a message.
pub fn format_time(ts_ms: i64) -> (s: String)
    ensures
        s@ == clock_text(ts_ms as int),
{
    let secs = ts_ms / 1000;
    let m = secs / 60;
    let h = m / 60;
    let mut out: Vec<char> = Vec::new();
    push_zero_padded(h % 24, 2, &mut out);
    out.push(':');
    push_zero_padded(m % 60, 2, &mut out);
    string_from_chars(&out)
}

/// The date heading of a message, seen at time `now`.
pub fn format_date_at(ts_ms: i64, now: i64) -> (s: String)
    ensures
        s@ == date_text(ts_ms as int, now as int),
{
    let days = ts_ms / 86400000;
    let now_days = now / 86400000;
    if days == now_days {
        return String::from_str("Today");
    }
    if days == now_days - 1 {
        return String::from_str("Yesterday");
    }
    let secs = ts_ms / 1000;
    let d = secs / 86400;
    let mut out: Vec<char> = Vec::new();
    push_zero_padded(1970 + d / 365, 4, &mut out);
    out.push('-');
    push_zero_padded((d % 365) / 30 + 1, 2, &mut out);
    out.push('-');
    push_zero_padded((d % 365) % 30 + 1, 2, &mut out);
    string_from_chars(&out)
}

/// The date heading of a message, seen now.
pub fn format_date(ts_ms: i64) -> (s: String)
    ensures
        exists|now: i64| s@ == #[trigger] date_text(ts_ms as int, now as int),
{
    let now = now_ms();
    format_date_at(ts_ms, now)
}

/// The current time in milliseconds since the Unix epoch, cast into `i64`
/// as `as` does. Nothing is promised of the value: it is the clock's.
pub fn now_ms() -> (ms: i64) {
    let t = unix_time_millis();
    t as i64
}

/// Two digits for a number below 100.
proof fn lemma_two_digits(n: int)
    requires
        0 <= n < 100,
    ensures
        zero_padded(n, 2).len() == 2,
{
    reveal_with_fuel(crate::digits::decimal_digits, 2);
    assert(n < 10 ==> crate::digits::decimal_digits(n as nat).len() == 1);
    assert(n >= 10 ==> crate::digits::decimal_digits(n as nat).len() == 2);
}

/// A time at or after the epoch shows as five characters `HH:MM`.
pub proof fn lemma_clock_text_shape(ts: int)
    requires
        ts >= 0,
    ensures
        clock_text(ts).len() == 5,
        clock_text(ts)[2] == ':',
{
    let secs = tdiv(ts, 1000);
    let m = tdiv(secs, 60);
    let h = tdiv(m, 60);
    assert(0 <= trem(h, 24) < 24);
    assert(0 <= trem(m, 60) < 60);
    lemma_two_digits(trem(h, 24));
    lemma_two_digits(trem(m, 60));
}

} // verus!
