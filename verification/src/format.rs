//! Text for the usage gauges: the countdown until a usage window resets.
use vstd::prelude::*;
use vstd::string::*;
use crate::text::{decimal, two_digits, push_decimal, push_two_digits};
use crate::time::{Timestamp, nanos_between};

verus! {

/// Nanoseconds per minute.
pub const NANOS_PER_MINUTE: i128 = 60_000_000_000;

/// The remaining time for a span of `nanos` nanoseconds: "Xd Yh" from a day
/// on, "Xh YYm" from an hour on, "Ym" from a minute on, "<1m" below that,
/// and `None` once the span is zero or negative. Whole minutes are counted
/// down (a partial minute is dropped).
pub open spec fn remaining_text(nanos: int) -> Option<Seq<char>> {
    if nanos <= 0 {
        None
    } else {
        let total_minutes = nanos / 60_000_000_000;
        let days = total_minutes / 1440;
        let hours = total_minutes / 60 % 24;
        let minutes = total_minutes % 60;
        Some(
            if days > 0 {
                decimal(days as nat) + "d "@ + decimal(hours as nat) + "h"@
            } else if hours > 0 {
                decimal(hours as nat) + "h "@ + two_digits(minutes as nat) + "m"@
            } else if minutes > 0 {
                decimal(minutes as nat) + "m"@
            } else {
                "<1m"@
            },
        )
    }
}

/// A span of a day or more reads "Xd Yh", where X whole days and Y whole
/// hours (Y below 24) make up the whole hours left.
pub proof fn lemma_countdown_reads_days_and_hours(nanos: int, d: nat, h: nat)
    requires
        nanos > 0,
        (nanos / 60_000_000_000) / 60 == d * 24 + h,
        h < 24,
        d >= 1,
    ensures
        remaining_text(nanos) == Some(decimal(d) + "d "@ + decimal(h) + "h"@),
{
    let t = nanos / 60_000_000_000;
    assert(t >= 0) by (nonlinear_arith)
        requires
            nanos > 0,
            t == nanos / 60_000_000_000,
    ;
    vstd::arithmetic::div_mod::lemma_fundamental_div_mod_converse(t / 60, 24, d as int, h as int);
    vstd::arithmetic::div_mod::lemma_div_denominator(t, 60, 24);
    assert(t / 1440 == d);
    assert(t / 60 % 24 == h);
}

/// A span of at least an hour but under a day reads "Xh YYm", where X whole
/// hours and YY whole minutes (YY below 60) make up the whole minutes left.
pub proof fn lemma_countdown_reads_hours_and_minutes(nanos: int, h: nat, m: nat)
    requires
        nanos > 0,
        nanos / 60_000_000_000 == h * 60 + m,
        m < 60,
        1 <= h < 24,
    ensures
        remaining_text(nanos) == Some(decimal(h) + "h "@ + two_digits(m) + "m"@),
{
    let t = nanos / 60_000_000_000;
    vstd::arithmetic::div_mod::lemma_fundamental_div_mod_converse(t, 60, h as int, m as int);
    assert(t < 1440);
    assert(t / 1440 == 0);
    assert(t / 60 % 24 == h);
}

/// A span of at least a minute but under an hour reads "Ym" with its whole
/// minutes; under a minute it reads "<1m"; a span that is over reads
/// nothing.
pub proof fn lemma_countdown_reads_minutes(nanos: int)
    ensures
        nanos <= 0 ==> remaining_text(nanos) is None,
        0 < nanos < 60_000_000_000 ==> remaining_text(nanos) == Some("<1m"@),
        60_000_000_000 <= nanos < 3_600_000_000_000 ==> remaining_text(nanos) == Some(
            decimal((nanos / 60_000_000_000) as nat) + "m"@,
        ),
{
    if 0 < nanos < 3_600_000_000_000 {
        let t = nanos / 60_000_000_000;
        assert(0 <= t < 60);
        assert(t / 1440 == 0);
        assert(t / 60 == 0);
        assert(t % 60 == t);
        assert(nanos < 60_000_000_000 ==> t == 0);
        assert(nanos >= 60_000_000_000 ==> t >= 1);
    }
}

/// The bare remaining time until `resets_at` ("6d 10h", "2h 10m", "15m",
/// "<1m"), or `None` once `resets_at` has passed. Days kick in at 24h so a
/// weekly window reads "6d 10h" rather than "154h 34m".
pub fn format_remaining(resets_at: Timestamp, now: Timestamp) -> (r: Option<String>)
    requires
        resets_at.wf(),
        now.wf(),
    ensures
        match r {
            Some(text) => remaining_text(nanos_between(resets_at, now)) == Some(text@),
            None => remaining_text(nanos_between(resets_at, now)) is None,
        },
{
    let remaining = resets_at.nanos_since(&now);
    if remaining <= 0 {
        return None;
    }
    let total_minutes = (remaining / NANOS_PER_MINUTE) as u64;
    let days = total_minutes / 1440;
    let hours = total_minutes / 60 % 24;
    let minutes = total_minutes % 60;
    let mut s = String::new();
    if days > 0 {
        push_decimal(&mut s, days);
        s.append("d ");
        push_decimal(&mut s, hours);
        s.append("h");
    } else if hours > 0 {
        push_decimal(&mut s, hours);
        s.append("h ");
        push_two_digits(&mut s, minutes);
        s.append("m");
    } else if minutes > 0 {
        push_decimal(&mut s, minutes);
        s.append("m");
    } else {
        s.append("<1m");
    }
    assert(remaining_text(nanos_between(resets_at, now)) == Some(s@));
    Some(s)
}

/// "resets in ..." with the remaining time, or "resets now" once
/// `resets_at` has passed; `now` is passed in so this stays a pure function.
pub fn format_countdown(resets_at: Timestamp, now: Timestamp) -> (r: String)
    requires
        resets_at.wf(),
        now.wf(),
    ensures
        r@ == match remaining_text(nanos_between(resets_at, now)) {
            Some(text) => "resets in "@ + text,
            None => "resets now"@,
        },
{
    match format_remaining(resets_at, now) {
        Some(remaining) => {
            let mut s = String::from_str("resets in ");
            s.append(remaining.as_str());
            s
        },
        None => String::from_str("resets now"),
    }
}

/// Keypad-tile variant of `format_countdown`: the tile has room for about a
/// dozen characters, so it drops the "resets in" prefix ("now" once
/// passed).
pub fn format_countdown_short(resets_at: Timestamp, now: Timestamp) -> (r: String)
    requires
        resets_at.wf(),
        now.wf(),
    ensures
        r@ == match remaining_text(nanos_between(resets_at, now)) {
            Some(text) => text,
            None => "now"@,
        },
{
    match format_remaining(resets_at, now) {
        Some(remaining) => remaining,
        None => String::from_str("now"),
    }
}

/// The two detail lines of a session or weekly window, for the dial and for
/// the keypad tile: the countdowns when the reset time is known, otherwise
/// "no reset info" and an em dash.
pub fn window_details(resets_at: Option<Timestamp>, now: Timestamp) -> (r: (String, String))
    requires
        resets_at matches Some(t) ==> t.wf(),
        now.wf(),
    ensures
        match resets_at {
            Some(t) => {
                &&& r.0@ == match remaining_text(nanos_between(t, now)) {
                    Some(text) => "resets in "@ + text,
                    None => "resets now"@,
                }
                &&& r.1@ == match remaining_text(nanos_between(t, now)) {
                    Some(text) => text,
                    None => "now"@,
                }
            },
            None => r.0@ == "no reset info"@ && r.1@ == "\u{2014}"@,
        },
{
    match resets_at {
        Some(t) => (format_countdown(t, now), format_countdown_short(t, now)),
        None => (String::from_str("no reset info"), String::from_str("\u{2014}")),
    }
}

} // verus!
