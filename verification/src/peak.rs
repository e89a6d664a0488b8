//! Peak-hours schedule: which minutes of which weekdays count as "peak",
//! and how long until the next boundary.
use vstd::prelude::*;
use vstd::string::*;
use crate::text::{push_two_digits, two_digits, digit_char, decimal, chars_of, is_whitespace, trim, trimmed_bounds, eq_ignore_ascii_case, ascii_lower_code, lower_code};

verus! {

/// Default start of the peak window, as typed in the settings.
pub const DEFAULT_PEAK_START: &'static str = "13:00";

/// Default end of the peak window, as typed in the settings.
pub const DEFAULT_PEAK_END: &'static str = "18:00";

/// Minutes in a day.
pub const MINUTES_PER_DAY: u32 = 1440;

/// Whether `c` is one of `0`-`9`.
pub open spec fn is_ascii_digit(c: char) -> bool {
    48 <= (c as u32) <= 57
}

/// The value of the digit `c`.
pub open spec fn digit_value(c: char) -> nat {
    ((c as u32) - 48) as nat
}

/// Whether every character of `s` is an ASCII digit.
pub open spec fn all_digits(s: Seq<char>) -> bool {
    forall|i: int| 0 <= i < s.len() ==> is_ascii_digit(s[i])
}

/// The number written by the digits `s` (most significant first).
pub open spec fn digits_value(s: Seq<char>) -> nat
    decreases s.len(),
{
    if s.len() == 0 {
        0
    } else {
        digits_value(s.drop_last()) * 10 + digit_value(s.last())
    }
}

/// What `u32::from_str` accepts: an optional `+`, then at least one ASCII
/// digit, with a value that fits in a `u32`.
pub open spec fn parse_u32_spec(s: Seq<char>) -> Option<nat> {
    let body = if s.len() > 0 && s[0] == '+' {
        s.drop_first()
    } else {
        s
    };
    if body.len() > 0 && all_digits(body) && digits_value(body) <= u32::MAX {
        Some(digits_value(body))
    } else {
        None
    }
}

/// `i` is the position of the first `c` in `s`.
pub open spec fn is_first(s: Seq<char>, c: char, i: int) -> bool {
    &&& 0 <= i < s.len()
    &&& s[i] == c
    &&& forall|j: int| 0 <= j < i ==> s[j] != c
}

/// `str::split_once`: the text before and after the first `c`.
pub open spec fn split_once(s: Seq<char>, c: char) -> Option<(Seq<char>, Seq<char>)> {
    if exists|i: int| is_first(s, c, i) {
        let i = choose|i: int| is_first(s, c, i);
        Some((s.take(i), s.skip(i + 1)))
    } else {
        None
    }
}

/// "HH:MM" read as minutes since midnight: `None` unless the text splits at
/// its first `:` into two numbers, an hour of at most 23 and a minute of at
/// most 59.
pub open spec fn parse_hhmm_spec(s: Seq<char>) -> Option<nat> {
    match split_once(s, ':') {
        Some((h, m)) => match (parse_u32_spec(h), parse_u32_spec(m)) {
            (Some(hour), Some(minute)) => if hour <= 23 && minute <= 59 {
                Some(hour * 60 + minute)
            } else {
                None
            },
            _ => None,
        },
        None => None,
    }
}

proof fn lemma_digits_value_prefix(s: Seq<char>, k: int)
    requires
        all_digits(s),
        0 <= k <= s.len(),
    ensures
        digits_value(s.take(k)) <= digits_value(s),
    decreases s.len(),
{
    if k < s.len() {
        assert(s.drop_last().take(k) =~= s.take(k));
        lemma_digits_value_prefix(s.drop_last(), k);
    } else {
        assert(s.take(k) =~= s);
    }
}

/// `u32::from_str` on `cs[lo..hi]`.
fn parse_u32_in(cs: &Vec<char>, lo: usize, hi: usize) -> (r: Option<u32>)
    requires
        lo <= hi <= cs@.len(),
    ensures
        match r {
            Some(v) => parse_u32_spec(cs@.subrange(lo as int, hi as int)) == Some(v as nat),
            None => parse_u32_spec(cs@.subrange(lo as int, hi as int)) is None,
        },
{
    let ghost s = cs@.subrange(lo as int, hi as int);
    let start: usize = if lo < hi && cs[lo] == '+' {
        lo + 1
    } else {
        lo
    };
    let ghost body = cs@.subrange(start as int, hi as int);
    assert(body =~= (if s.len() > 0 && s[0] == '+' {
        s.drop_first()
    } else {
        s
    }));
    if start == hi {
        return None;
    }
    let mut acc: u64 = 0;
    let mut k: usize = start;
    assert(body.take(0) =~= Seq::<char>::empty());
    while k < hi
        invariant
            start <= k <= hi <= cs@.len(),
            body == cs@.subrange(start as int, hi as int),
            s == cs@.subrange(lo as int, hi as int),
            body == (if s.len() > 0 && s[0] == '+' {
                s.drop_first()
            } else {
                s
            }),
            body.len() > 0,
            all_digits(body.take(k - start)),
            acc == digits_value(body.take(k - start)),
            acc <= u32::MAX,
        decreases hi - k,
    {
        let c = cs[k];
        let u = c as u32;
        if u < 48 || u > 57 {
            assert(!is_ascii_digit(body[k - start]));
            return None;
        }
        let next = acc * 10 + (u - 48) as u64;
        assert(body.take(k + 1 - start).drop_last() =~= body.take(k - start));
        assert(body[k - start] == c);
        assert(body.take(k + 1 - start).last() == c);
        assert(digits_value(body.take(k + 1 - start)) == next);
        if next > u32::MAX as u64 {
            proof {
                if all_digits(body) {
                    lemma_digits_value_prefix(body, k + 1 - start);
                    assert(digits_value(body) > u32::MAX);
                }
                assert(parse_u32_spec(s) is None);
            }
            return None;
        }
        acc = next;
        k = k + 1;
    }
    assert(body.take(hi - start) =~= body);
    Some(acc as u32)
}

/// Parses "HH:MM" into minutes since midnight (0..=1439). Malformed input
/// (wrong shape, non-numeric, or an out-of-range hour/minute) gives `None`,
/// so callers can fall back to a default per field.
pub fn parse_hhmm(s: &str) -> (r: Option<u32>)
    ensures
        match r {
            Some(v) => parse_hhmm_spec(s@) == Some(v as nat),
            None => parse_hhmm_spec(s@) is None,
        },
        r matches Some(v) ==> v <= 1439,
{
    let cs = chars_of(s);
    let n = cs.len();
    let mut i: usize = 0;
    while i < n && cs[i] != ':'
        invariant
            n == cs@.len(),
            i <= n,
            forall|j: int| 0 <= j < i ==> cs@[j] != ':',
        decreases n - i,
    {
        i = i + 1;
    }
    if i == n {
        assert(!exists|j: int| is_first(cs@, ':', j));
        return None;
    }
    proof {
        assert(is_first(cs@, ':', i as int));
        let c = choose|j: int| is_first(cs@, ':', j);
        assert(c == i);
        assert(cs@.take(i as int) =~= cs@.subrange(0, i as int));
        assert(cs@.skip(i + 1) =~= cs@.subrange(i + 1, n as int));
    }
    let hour = parse_u32_in(&cs, 0, i);
    let minute = parse_u32_in(&cs, i + 1, n);
    match (hour, minute) {
        (Some(h), Some(m)) => {
            if h > 23 || m > 59 {
                None
            } else {
                Some(h * 60 + m)
            }
        },
        _ => None,
    }
}


proof fn lemma_parse_default_start()
    ensures
        parse_hhmm_spec(DEFAULT_PEAK_START@) == Some(780nat),
{
    reveal_strlit("13:00");
    let s = DEFAULT_PEAK_START@;
    assert(is_first(s, ':', 2));
    assert forall|j: int| is_first(s, ':', j) implies j == 2 by {}
    let h = s.take(2);
    let m = s.skip(3);
    assert(h =~= seq!['1', '3']);
    assert(m =~= seq!['0', '0']);
    assert(h.drop_last() =~= seq!['1']);
    assert(seq!['1'].drop_last() =~= Seq::<char>::empty());
    assert(('1' as u32) == 49);
    assert(seq!['1'].last() == '1');
    assert(digits_value(Seq::<char>::empty()) == 0);
    assert(digits_value(seq!['1']) == 1);
    assert(digits_value(h) == 13);
    assert(m.drop_last() =~= seq!['0']);
    assert(seq!['0'].drop_last() =~= Seq::<char>::empty());
    assert(digits_value(seq!['0']) == 0);
    assert(digits_value(m) == 0);
    assert(parse_u32_spec(h) == Some(13nat));
    assert(parse_u32_spec(m) == Some(0nat));
}

proof fn lemma_parse_default_end()
    ensures
        parse_hhmm_spec(DEFAULT_PEAK_END@) == Some(1080nat),
{
    reveal_strlit("18:00");
    let s = DEFAULT_PEAK_END@;
    assert(is_first(s, ':', 2));
    assert forall|j: int| is_first(s, ':', j) implies j == 2 by {}
    let h = s.take(2);
    let m = s.skip(3);
    assert(h =~= seq!['1', '8']);
    assert(m =~= seq!['0', '0']);
    assert(h.drop_last() =~= seq!['1']);
    assert(seq!['1'].drop_last() =~= Seq::<char>::empty());
    assert(('1' as u32) == 49);
    assert(seq!['1'].last() == '1');
    assert(digits_value(Seq::<char>::empty()) == 0);
    assert(digits_value(seq!['1']) == 1);
    assert(digits_value(h) == 18);
    assert(m.drop_last() =~= seq!['0']);
    assert(seq!['0'].drop_last() =~= Seq::<char>::empty());
    assert(digits_value(seq!['0']) == 0);
    assert(digits_value(m) == 0);
    assert(parse_u32_spec(h) == Some(18nat));
    assert(parse_u32_spec(m) == Some(0nat));
}

/// A peak-hours window as minutes since midnight. `start_minutes >
/// end_minutes` means the window crosses midnight (e.g. 22:00-06:00);
/// `start_minutes == end_minutes` is a zero-length window, always off-peak.
#[derive(Debug, Clone, Copy, PartialEq, Eq, Structural)]
pub struct PeakWindow {
    pub start_minutes: u32,
    pub end_minutes: u32,
}

/// Whether `minute` falls in the window from `start` (inclusive) to `end`
/// (exclusive), wrapping across midnight when `start > end`.
pub open spec fn window_contains(start: int, end: int, minute: int) -> bool {
    if start <= end {
        start <= minute < end
    } else {
        minute >= start || minute < end
    }
}

impl PeakWindow {
    /// Both ends are real minutes of a day.
    pub open spec fn wf(self) -> bool {
        self.start_minutes < 1440 && self.end_minutes < 1440
    }

    /// Parses each field on its own, falling back to the default for a field
    /// that does not parse, so a malformed start does not also discard a
    /// valid end.
    pub fn from_settings(start: &str, end: &str) -> (r: Self)
        ensures
            r.start_minutes as nat == match parse_hhmm_spec(start@) {
                Some(v) => v,
                None => parse_hhmm_spec(DEFAULT_PEAK_START@).unwrap(),
            },
            r.end_minutes as nat == match parse_hhmm_spec(end@) {
                Some(v) => v,
                None => parse_hhmm_spec(DEFAULT_PEAK_END@).unwrap(),
            },
            parse_hhmm_spec(DEFAULT_PEAK_START@) == Some(780nat),
            parse_hhmm_spec(DEFAULT_PEAK_END@) == Some(1080nat),
            r.wf(),
    {
        proof {
            lemma_parse_default_start();
            lemma_parse_default_end();
        }
        let default_start = parse_hhmm(DEFAULT_PEAK_START).unwrap();
        let default_end = parse_hhmm(DEFAULT_PEAK_END).unwrap();
        let start_minutes = match parse_hhmm(start) {
            Some(v) => v,
            None => default_start,
        };
        let end_minutes = match parse_hhmm(end) {
            Some(v) => v,
            None => default_end,
        };
        PeakWindow { start_minutes, end_minutes }
    }

    /// Start inclusive, end exclusive, so a window never overlaps itself at
    /// the boundary minute.
    pub fn contains(&self, minute_of_day: u32) -> (r: bool)
        ensures
            r == window_contains(
                self.start_minutes as int,
                self.end_minutes as int,
                minute_of_day as int,
            ),
    {
        if self.start_minutes <= self.end_minutes {
            minute_of_day >= self.start_minutes && minute_of_day < self.end_minutes
        } else {
            minute_of_day >= self.start_minutes || minute_of_day < self.end_minutes
        }
    }
}

/// A day of the week.
#[derive(Debug, Clone, Copy, PartialEq, Eq, Structural)]
pub enum Weekday {
    Mon,
    Tue,
    Wed,
    Thu,
    Fri,
    Sat,
    Sun,
}

/// The weekday with Monday-first index `i` (taken modulo 7).
pub open spec fn weekday_at(i: int) -> Weekday {
    let k = i % 7;
    if k == 0 {
        Weekday::Mon
    } else if k == 1 {
        Weekday::Tue
    } else if k == 2 {
        Weekday::Wed
    } else if k == 3 {
        Weekday::Thu
    } else if k == 4 {
        Weekday::Fri
    } else if k == 5 {
        Weekday::Sat
    } else {
        Weekday::Sun
    }
}

impl Weekday {
    /// Days since Monday: Monday is 0, Sunday is 6.
    pub open spec fn index(self) -> nat {
        match self {
            Weekday::Mon => 0,
            Weekday::Tue => 1,
            Weekday::Wed => 2,
            Weekday::Thu => 3,
            Weekday::Fri => 4,
            Weekday::Sat => 5,
            Weekday::Sun => 6,
        }
    }

    /// Days since Monday.
    pub fn num_days_from_monday(&self) -> (r: u32)
        ensures
            r == self.index(),
    {
        match self {
            Weekday::Mon => 0,
            Weekday::Tue => 1,
            Weekday::Wed => 2,
            Weekday::Thu => 3,
            Weekday::Fri => 4,
            Weekday::Sat => 5,
            Weekday::Sun => 6,
        }
    }

    /// The weekday `i` days after Monday.
    pub fn from_monday_index(i: u32) -> (r: Weekday)
        requires
            i < 7,
        ensures
            r.index() == i,
            r == weekday_at(i as int),
    {
        match i {
            0 => Weekday::Mon,
            1 => Weekday::Tue,
            2 => Weekday::Wed,
            3 => Weekday::Thu,
            4 => Weekday::Fri,
            5 => Weekday::Sat,
            _ => Weekday::Sun,
        }
    }

    /// The next day.
    pub fn succ(&self) -> (r: Weekday)
        ensures
            r.index() == (self.index() + 1) % 7,
    {
        match self {
            Weekday::Mon => Weekday::Tue,
            Weekday::Tue => Weekday::Wed,
            Weekday::Wed => Weekday::Thu,
            Weekday::Thu => Weekday::Fri,
            Weekday::Fri => Weekday::Sat,
            Weekday::Sat => Weekday::Sun,
            Weekday::Sun => Weekday::Mon,
        }
    }

    /// The previous day.
    pub fn pred(&self) -> (r: Weekday)
        ensures
            r.index() == (self.index() + 6) % 7,
    {
        match self {
            Weekday::Mon => Weekday::Sun,
            Weekday::Tue => Weekday::Mon,
            Weekday::Wed => Weekday::Tue,
            Weekday::Thu => Weekday::Wed,
            Weekday::Fri => Weekday::Thu,
            Weekday::Sat => Weekday::Fri,
            Weekday::Sun => Weekday::Sat,
        }
    }
}

/// Day keys in Monday-first order, as stored in the `peak_days` setting.
pub const DAY_KEYS: [&'static str; 7] = ["mon", "tue", "wed", "thu", "fri", "sat", "sun"];

/// Weekdays only: the weekend is off-peak unless the user opts it in.
pub const DEFAULT_PEAK_DAYS: [&'static str; 5] = ["mon", "tue", "wed", "thu", "fri"];

/// The settings key of the weekday with Monday-first index `i`.
pub open spec fn day_key(i: int) -> Seq<char> {
    if i == 0 {
        seq!['m', 'o', 'n']
    } else if i == 1 {
        seq!['t', 'u', 'e']
    } else if i == 2 {
        seq!['w', 'e', 'd']
    } else if i == 3 {
        seq!['t', 'h', 'u']
    } else if i == 4 {
        seq!['f', 'r', 'i']
    } else if i == 5 {
        seq!['s', 'a', 't']
    } else {
        seq!['s', 'u', 'n']
    }
}

/// A settings entry names day `i`: once trimmed, it equals the day's key up
/// to ASCII case.
pub open spec fn names_day(entry: Seq<char>, i: int) -> bool {
    eq_ignore_ascii_case(trim(entry), day_key(i))
}

fn key_chars(i: usize) -> (r: (char, char, char))
    requires
        i < 7,
    ensures
        seq![r.0, r.1, r.2] == day_key(i as int),
{
    match i {
        0 => ('m', 'o', 'n'),
        1 => ('t', 'u', 'e'),
        2 => ('w', 'e', 'd'),
        3 => ('t', 'h', 'u'),
        4 => ('f', 'r', 'i'),
        5 => ('s', 'a', 't'),
        _ => ('s', 'u', 'n'),
    }
}

/// Which weekdays the peak window applies on, indexed Monday-first. A window
/// that crosses midnight belongs to the day it starts on, so Friday's
/// 22:00-06:00 window is still peak at 03:00 Saturday.
#[derive(Debug, Clone, Copy, PartialEq, Eq)]
pub struct PeakDays(pub [bool; 7]);

impl PeakDays {
    /// Whether day `i` (Monday-first) is selected.
    pub open spec fn selected(self, i: int) -> bool {
        self.0@[i % 7]
    }

    /// Whether no day is selected.
    pub open spec fn none_selected(self) -> bool {
        forall|i: int| 0 <= i < 7 ==> !self.0@[i]
    }

    /// Selects every day that some entry names; unknown entries are ignored
    /// rather than rejected.
    pub fn from_settings(days: &[&str]) -> (r: Self)
        ensures
            forall|i: int|
                0 <= i < 7 ==> (r.0@[i] <==> exists|k: int|
                    0 <= k < days@.len() && names_day(#[trigger] days@[k]@, i)),
    {
        let mut active = [false; 7];
        let mut k: usize = 0;
        while k < days.len()
            invariant
                k <= days@.len(),
                forall|i: int|
                    0 <= i < 7 ==> (active@[i] <==> exists|j: int|
                        0 <= j < k && names_day(#[trigger] days@[j]@, i)),
            decreases days@.len() - k,
        {
            let cs = chars_of(days[k]);
            let (lo, hi) = trimmed_bounds(&cs);
            let ghost t = trim(days@[k as int]@);
            let mut i: usize = 0;
            while i < 7
                invariant
                    k < days@.len(),
                    i <= 7,
                    lo <= hi <= cs@.len(),
                    cs@ == days@[k as int]@,
                    t == cs@.subrange(lo as int, hi as int),
                    t == trim(days@[k as int]@),
                    forall|d: int|
                        0 <= d < i ==> (active@[d] <==> exists|j: int|
                            0 <= j <= k && names_day(#[trigger] days@[j]@, d)),
                    forall|d: int|
                        i <= d < 7 ==> (active@[d] <==> exists|j: int|
                            0 <= j < k && names_day(#[trigger] days@[j]@, d)),
                decreases 7 - i,
            {
                let (a, b, c) = key_chars(i);
                let matched = hi - lo == 3 && lower_code(cs[lo]) == lower_code(a) && lower_code(
                    cs[lo + 1],
                ) == lower_code(b) && lower_code(cs[lo + 2]) == lower_code(c);
                proof {
                    let key = day_key(i as int);
                    assert(key[0] == a && key[1] == b && key[2] == c);
                    assert(key.len() == 3);
                    assert(t.len() == hi - lo);
                    if hi - lo == 3 {
                        assert(t[0] == cs@[lo as int]);
                        assert(t[1] == cs@[lo + 1]);
                        assert(t[2] == cs@[lo + 2]);
                        if matched {
                            assert forall|p: int| 0 <= p < 3 implies ascii_lower_code(t[p])
                                == ascii_lower_code(key[p]) by {
                                if p == 0 {
                                } else if p == 1 {
                                } else {
                                }
                            }
                        } else {
                            if ascii_lower_code(t[0]) != ascii_lower_code(key[0]) {
                            } else if ascii_lower_code(t[1]) != ascii_lower_code(key[1]) {
                            } else {
                                assert(ascii_lower_code(t[2]) != ascii_lower_code(key[2]));
                            }
                        }
                    }
                    if matched {
                        assert(eq_ignore_ascii_case(t, key));
                    } else {
                        assert(!eq_ignore_ascii_case(t, key));
                    }
                    assert(matched == names_day(days@[k as int]@, i as int));
                }
                if matched {
                    active[i] = true;
                }
                proof {
                    assert forall|d: int| 0 <= d < i + 1 implies (active@[d] <==> exists|j: int|
                        0 <= j <= k && names_day(#[trigger] days@[j]@, d)) by {
                        if d == i {
                            if matched {
                                assert(names_day(days@[k as int]@, d));
                            } else {
                                if exists|j: int| 0 <= j <= k && names_day(#[trigger] days@[j]@, d) {
                                    let j = choose|j: int| 0 <= j <= k && names_day(#[trigger] days@[j]@, d);
                                    assert(j != k);
                                }
                            }
                        }
                    }
                }
                i = i + 1;
            }
            k = k + 1;
        }
        PeakDays(active)
    }

    /// Whether `day` is selected.
    pub fn includes(&self, day: Weekday) -> (r: bool)
        ensures
            r == self.0@[day.index() as int],
    {
        self.0[day.num_days_from_monday() as usize]
    }

    /// Whether no day is selected.
    pub fn is_empty(&self) -> (r: bool)
        ensures
            r == self.none_selected(),
    {
        let mut i: usize = 0;
        while i < 7
            invariant
                i <= 7,
                forall|j: int| 0 <= j < i ==> !self.0@[j],
            decreases 7 - i,
        {
            if self.0[i] {
                return false;
            }
            i = i + 1;
        }
        true
    }
}


/// A local wall-clock reading: the weekday and the minute of the day.
#[derive(Debug, Clone, Copy, PartialEq, Eq, Structural)]
pub struct LocalTime {
    pub weekday: Weekday,
    pub minute_of_day: u32,
}

impl LocalTime {
    /// The minute is a real minute of a day.
    pub open spec fn wf(self) -> bool {
        self.minute_of_day < 1440
    }

    /// The reading at `seconds_from_midnight` seconds into `weekday`; the
    /// seconds within the minute are dropped.
    pub fn new(weekday: Weekday, seconds_from_midnight: u32) -> (r: Self)
        requires
            seconds_from_midnight < 86400,
        ensures
            r.weekday == weekday,
            r.minute_of_day == seconds_from_midnight / 60,
            r.wf(),
    {
        LocalTime { weekday, minute_of_day: seconds_from_midnight / 60 }
    }
}

/// A peak window plus the weekdays it applies on.
#[derive(Debug, Clone, Copy, PartialEq, Eq)]
pub struct PeakSchedule {
    pub window: PeakWindow,
    pub days: PeakDays,
}

/// Whether `now` is inside a window that started on a selected day: today's,
/// or, for a window that crosses midnight, yesterday's spilling past it.
pub open spec fn is_peak_spec(schedule: PeakSchedule, now: LocalTime) -> bool {
    let start = schedule.window.start_minutes as int;
    let end = schedule.window.end_minutes as int;
    let minute = now.minute_of_day as int;
    let today = now.weekday.index() as int;
    if start <= end {
        schedule.days.selected(today) && window_contains(start, end, minute)
    } else {
        (minute >= start && schedule.days.selected(today)) || (minute < end
            && schedule.days.selected(today + 6))
    }
}

/// Searching from `offset` days ahead (up to 7), minutes from `now` to the
/// first window start on a selected day that is still ahead.
pub open spec fn next_start_from(schedule: PeakSchedule, now: LocalTime, offset: nat) -> Option<
    int,
>
    decreases 8 - offset,
{
    if offset > 7 {
        None
    } else {
        let until = offset * 1440 + schedule.window.start_minutes - now.minute_of_day;
        if until > 0 && schedule.days.selected((now.weekday.index() + offset) as int) {
            Some(until)
        } else {
            next_start_from(schedule, now, offset + 1)
        }
    }
}

/// Minutes from `now` to the next window start on a selected day, or `None`
/// when no day is selected or the window is zero-length (and so never
/// starts a peak).
pub open spec fn next_start_spec(schedule: PeakSchedule, now: LocalTime) -> Option<int> {
    if schedule.days.none_selected() || schedule.window.start_minutes
        == schedule.window.end_minutes {
        None
    } else {
        next_start_from(schedule, now, 0)
    }
}

impl PeakSchedule {
    /// Whether `now` is inside a window that started on a selected day:
    /// today's, or (for an overnight window) yesterday's spilling past
    /// midnight.
    pub fn is_peak(&self, now: LocalTime) -> (r: bool)
        ensures
            r == is_peak_spec(*self, now),
    {
        let minute = now.minute_of_day;
        let today = now.weekday;
        let start = self.window.start_minutes;
        let end = self.window.end_minutes;
        if start <= end {
            self.days.includes(today) && self.window.contains(minute)
        } else {
            (minute >= start && self.days.includes(today)) || (minute < end && self.days.includes(
                today.pred(),
            ))
        }
    }

    /// Minutes from `now` to the next window start on a selected day, or
    /// `None` when no day is selected or the window is zero-length.
    fn minutes_until_next_start(&self, now: LocalTime) -> (r: Option<u32>)
        requires
            self.window.start_minutes + 7 * 1440 <= u32::MAX,
        ensures
            match r {
                Some(v) => next_start_spec(*self, now) == Some(v as int),
                None => next_start_spec(*self, now) is None,
            },
    {
        if self.days.is_empty() || self.window.start_minutes == self.window.end_minutes {
            return None;
        }
        let minute = now.minute_of_day;
        let mut day = now.weekday;
        let mut offset: u32 = 0;
        while offset <= 7
            invariant
                offset <= 8,
                self.window.start_minutes + 7 * 1440 <= u32::MAX,
                day.index() == (now.weekday.index() + offset) % 7,
                minute == now.minute_of_day,
                next_start_spec(*self, now) == next_start_from(*self, now, offset as nat),
            decreases 8 - offset,
        {
            let until = (offset * 1440 + self.window.start_minutes) as i64 - minute as i64;
            if until > 0 && self.days.includes(day) {
                return Some(until as u32);
            }
            day = day.succ();
            offset = offset + 1;
        }
        None
    }
}

/// Minutes to advance clockwise from `from` to reach `to`, wrapping across
/// midnight: always the forward distance, never negative.
pub open spec fn minutes_until_spec(from: int, to: int) -> int {
    (to + 1440 - from) % 1440
}

/// Minutes to advance clockwise from `from` to reach `to`, wrapping across
/// midnight.
pub fn minutes_until(from: u32, to: u32) -> (r: u32)
    requires
        to + 1440 <= u32::MAX,
        from <= to + 1440,
    ensures
        r == minutes_until_spec(from as int, to as int),
        r < 1440,
        (from + r) % 1440 == to % 1440,
{
    (to + 1440 - from) % 1440
}

/// "HH:MM" for a count of minutes; the hours may exceed 24 (`{:02}` pads
/// but never truncates).
pub open spec fn hhmm_text(total_minutes: nat) -> Seq<char> {
    two_digits(total_minutes / 60) + seq![':'] + two_digits(total_minutes % 60)
}

proof fn lemma_digit_char(d: nat)
    requires
        d < 10,
    ensures
        is_ascii_digit(digit_char(d)),
        digit_value(digit_char(d)) == d,
        digit_char(d) != ':',
        digit_char(d) != '+',
{
    let s = seq!['0', '1', '2', '3', '4', '5', '6', '7', '8', '9'];
    assert(digit_char(d) == s[d as int]);
    if d == 0 {
    } else if d == 1 {
    } else if d == 2 {
    } else if d == 3 {
    } else if d == 4 {
    } else if d == 5 {
    } else if d == 6 {
    } else if d == 7 {
    } else if d == 8 {
    } else {
        assert(d == 9);
    }
}

proof fn lemma_two_digits_parse(n: nat)
    requires
        n < 100,
    ensures
        two_digits(n) =~= seq![digit_char(n / 10), digit_char(n % 10)],
        parse_u32_spec(two_digits(n)) == Some(n),
        two_digits(n)[0] != ':',
        two_digits(n)[1] != ':',
{
    let t = two_digits(n);
    if n >= 10 {
        assert(decimal(n / 10) == seq![digit_char(n / 10)]);
    }
    assert(t =~= seq![digit_char(n / 10), digit_char(n % 10)]);
    lemma_digit_char(n / 10);
    lemma_digit_char(n % 10);
    assert(t.drop_last() =~= seq![digit_char(n / 10)]);
    let first = t.drop_last();
    assert(first.drop_last() =~= Seq::<char>::empty());
    assert(digits_value(first.drop_last()) == 0);
    assert(first.last() == digit_char(n / 10));
    assert(digits_value(first) == n / 10);
    assert(t.last() == digit_char(n % 10));
    assert(digits_value(t) == n);
    assert(all_digits(t));
}

/// Formatting a minute of the day as "HH:MM" and parsing it back gives the
/// same minute.
pub proof fn lemma_hhmm_round_trip(m: nat)
    requires
        m < 1440,
    ensures
        parse_hhmm_spec(hhmm_text(m)) == Some(m),
{
    let h = two_digits(m / 60);
    let mm = two_digits(m % 60);
    lemma_two_digits_parse(m / 60);
    lemma_two_digits_parse(m % 60);
    let t = hhmm_text(m);
    assert(t =~= h + seq![':'] + mm);
    assert(t.len() == 5);
    assert(is_first(t, ':', 2));
    assert forall|i: int| is_first(t, ':', i) implies i == 2 by {
        if i < 2 {
            assert(t[i] == h[i]);
        } else if i > 2 {
            assert(t[2] == ':');
        }
    }
    let i = choose|i: int| is_first(t, ':', i);
    assert(i == 2);
    assert(split_once(t, ':') == Some((t.take(2), t.skip(3))));
    assert(t.take(2) =~= h);
    assert(t.skip(3) =~= mm);
}

/// Formats a count of minutes as "HH:MM".
pub fn format_hhmm(total_minutes: u32) -> (r: String)
    ensures
        r@ == hhmm_text(total_minutes as nat),
{
    let mut s = String::new();
    push_two_digits(&mut s, (total_minutes / 60) as u64);
    s.push(':');
    push_two_digits(&mut s, (total_minutes % 60) as u64);
    assert(s@ =~= hhmm_text(total_minutes as nat));
    s
}

/// Whether `now` is peak, with its status word and a countdown to the next
/// boundary.
pub struct PeakStatus {
    pub is_peak: bool,
    pub status_text: &'static str,
    pub countdown_text: String,
}

/// The countdown line: to the window's end while peak; to the next start on
/// a selected day otherwise (possibly days away, so the hours can exceed
/// 24); or "no peak set" when there is no such start.
pub open spec fn countdown_spec(schedule: PeakSchedule, now: LocalTime) -> Seq<char> {
    if is_peak_spec(schedule, now) {
        "ends in "@ + hhmm_text(
            minutes_until_spec(
                now.minute_of_day as int,
                schedule.window.end_minutes as int,
            ) as nat,
        )
    } else {
        match next_start_spec(schedule, now) {
            Some(until) => "peak in "@ + hhmm_text(until as nat),
            None => "no peak set"@,
        }
    }
}

/// Computes whether `now` falls inside `schedule`, plus a countdown to
/// whichever boundary comes next: the end if currently peak, the next start
/// on a selected day if currently off-peak.
pub fn peak_status(schedule: PeakSchedule, now: LocalTime) -> (r: PeakStatus)
    requires
        now.wf(),
        schedule.window.start_minutes + 7 * 1440 <= u32::MAX,
        schedule.window.end_minutes + 1440 <= u32::MAX,
    ensures
        r.is_peak == is_peak_spec(schedule, now),
        r.status_text@ == (if r.is_peak {
            "Peak"@
        } else {
            "Off-peak"@
        }),
        r.countdown_text@ == countdown_spec(schedule, now),
{
    let now_minutes = now.minute_of_day;
    let is_peak = schedule.is_peak(now);
    if is_peak {
        let until = minutes_until(now_minutes, schedule.window.end_minutes);
        let mut countdown = String::from_str("ends in ");
        countdown.append(format_hhmm(until).as_str());
        PeakStatus { is_peak, status_text: "Peak", countdown_text: countdown }
    } else {
        let countdown = match schedule.minutes_until_next_start(now) {
            Some(until) => {
                let mut c = String::from_str("peak in ");
                c.append(format_hhmm(until).as_str());
                c
            },
            None => String::from_str("no peak set"),
        };
        PeakStatus { is_peak, status_text: "Off-peak", countdown_text: countdown }
    }
}


/// A zero-length window contains no minute, so it is never peak.
pub proof fn lemma_zero_length_window_is_never_peak(schedule: PeakSchedule, now: LocalTime)
    requires
        schedule.window.start_minutes == schedule.window.end_minutes,
    ensures
        !is_peak_spec(schedule, now),
{
}

/// With no day selected it is never peak.
pub proof fn lemma_no_day_selected_is_never_peak(schedule: PeakSchedule, now: LocalTime)
    requires
        schedule.days.none_selected(),
    ensures
        !is_peak_spec(schedule, now),
{
    let today = now.weekday.index() as int;
    assert(!schedule.days.0@[today % 7]);
    assert(!schedule.days.0@[(today + 6) % 7]);
}

/// The window that starts on a day lasts from its start minute for
/// `(end - start) mod 1440` minutes; it is peak exactly when `now` lies in
/// the window that started today or yesterday on a selected day. An
/// overnight window therefore belongs to the day it starts on.
pub proof fn lemma_peak_is_inside_a_selected_days_window(schedule: PeakSchedule, now: LocalTime)
    requires
        schedule.window.wf(),
        now.wf(),
    ensures
        ({
            let start = schedule.window.start_minutes as int;
            let len = (schedule.window.end_minutes as int - start + 1440) % 1440;
            let minute = now.minute_of_day as int;
            let today = now.weekday.index() as int;
            is_peak_spec(schedule, now) <==> ((schedule.days.selected(today) && 0 <= minute
                - start < len) || (schedule.days.selected(today + 6) && 0 <= 1440 + minute - start
                < len))
        }),
{
}

/// A window that is peak now ends exactly `minutes_until(now, end)` minutes
/// from now, and that countdown is positive and no longer than the window.
pub proof fn lemma_peak_countdown_reaches_the_end(schedule: PeakSchedule, now: LocalTime)
    requires
        schedule.window.wf(),
        now.wf(),
        is_peak_spec(schedule, now),
    ensures
        ({
            let start = schedule.window.start_minutes as int;
            let end = schedule.window.end_minutes as int;
            let until = minutes_until_spec(now.minute_of_day as int, end);
            &&& 0 < until <= (end - start + 1440) % 1440
            &&& (now.minute_of_day + until) % 1440 == end
        }),
{
}

/// While peak, the countdown reads "ends in" the number of minutes `u` after
/// which the clock shows the window's end (`now + u` is the end minute, mod
/// a day), and that `u` is positive and no longer than the window: an
/// overnight window past midnight counts only the minutes left until its end.
pub proof fn lemma_peak_countdown_text(schedule: PeakSchedule, now: LocalTime, u: nat)
    requires
        schedule.window.wf(),
        now.wf(),
        is_peak_spec(schedule, now),
        0 < u <= 1440,
        (now.minute_of_day + u) % 1440 == schedule.window.end_minutes,
    ensures
        countdown_spec(schedule, now) == "ends in "@ + hhmm_text(u),
        u <= (schedule.window.end_minutes - schedule.window.start_minutes + 1440) % 1440,
{
    lemma_peak_countdown_reaches_the_end(schedule, now);
    let until = minutes_until_spec(now.minute_of_day as int, schedule.window.end_minutes as int);
    let m = now.minute_of_day as int;
    let e = schedule.window.end_minutes as int;
    assert(0 <= m < 1440 && 0 <= e < 1440);
    assert(0 < until < 1440);
    assert(u == until) by {
        if m + u < 1440 {
            assert((m + u) % 1440 == m + u);
        } else {
            assert((m + u) % 1440 == m + u - 1440);
        }
        if m + until < 1440 {
            assert((m + until) % 1440 == m + until);
        } else {
            assert((m + until) % 1440 == m + until - 1440);
        }
    }
}

proof fn lemma_next_start_from_is_earliest(schedule: PeakSchedule, now: LocalTime, offset: nat)
    requires
        offset <= 8,
        next_start_from(schedule, now, offset) is Some,
    ensures
        ({
            let until = next_start_from(schedule, now, offset).unwrap();
            let start = schedule.window.start_minutes as int;
            let minute = now.minute_of_day as int;
            let today = now.weekday.index() as int;
            &&& until > 0
            &&& exists|k: int|
                offset <= k <= 7 && until == k * 1440 + start - minute
                    && #[trigger] schedule.days.selected(today + k)
            &&& forall|k: int|
                offset <= k && k * 1440 + start - minute > 0 && k * 1440 + start - minute < until
                    ==> !#[trigger] schedule.days.selected(today + k)
        }),
    decreases 8 - offset,
{
    let start = schedule.window.start_minutes as int;
    let minute = now.minute_of_day as int;
    let today = now.weekday.index() as int;
    let here = offset * 1440 + start - minute;
    if here > 0 && schedule.days.selected(today + offset) {
        assert(offset <= offset <= 7 && here == offset * 1440 + start - minute
            && schedule.days.selected(today + offset));
    } else {
        lemma_next_start_from_is_earliest(schedule, now, offset + 1);
        let until = next_start_from(schedule, now, offset).unwrap();
        assert forall|k: int|
            offset <= k && k * 1440 + start - minute > 0 && k * 1440 + start - minute
                < until implies !#[trigger] schedule.days.selected(today + k) by {
            if k == offset {
            } else {
                assert(offset + 1 <= k);
            }
        }
    }
}

/// The next start is on a selected day, at the window's start minute some
/// whole number of days ahead, and no start on a selected day lies strictly
/// between now and it.
pub proof fn lemma_next_start_is_the_earliest_selected_start(
    schedule: PeakSchedule,
    now: LocalTime,
)
    requires
        next_start_spec(schedule, now) is Some,
    ensures
        ({
            let until = next_start_spec(schedule, now).unwrap();
            let start = schedule.window.start_minutes as int;
            let minute = now.minute_of_day as int;
            let today = now.weekday.index() as int;
            &&& until > 0
            &&& exists|k: int|
                0 <= k <= 7 && until == k * 1440 + start - minute && #[trigger] schedule.days.selected(
                    today + k,
                )
            &&& forall|k: int|
                0 <= k && k * 1440 + start - minute > 0 && k * 1440 + start - minute < until
                    ==> !#[trigger] schedule.days.selected(today + k)
        }),
{
    lemma_next_start_from_is_earliest(schedule, now, 0);
}

/// While off-peak, the countdown reads "peak in" the minutes `u` to the
/// window's start `k` days ahead on a selected day, when no start on a
/// selected day comes sooner; with no day selected or an empty window it
/// reads "no peak set".
pub proof fn lemma_off_peak_countdown_text(schedule: PeakSchedule, now: LocalTime, k: int, u: int)
    requires
        schedule.window.wf(),
        now.wf(),
        !is_peak_spec(schedule, now),
        schedule.window.start_minutes != schedule.window.end_minutes,
        0 <= k,
        u == k * 1440 + schedule.window.start_minutes - now.minute_of_day,
        u > 0,
        schedule.days.selected(now.weekday.index() + k),
        forall|j: int|
            0 <= j && 0 < j * 1440 + schedule.window.start_minutes - now.minute_of_day < u
                ==> !#[trigger] schedule.days.selected(now.weekday.index() + j),
    ensures
        countdown_spec(schedule, now) == "peak in "@ + hhmm_text(u as nat),
{
    let today = now.weekday.index() as int;
    assert(!schedule.days.none_selected()) by {
        assert(schedule.days.0@[(today + k) % 7]);
    }
    lemma_next_start_exists(schedule, now);
    lemma_next_start_is_the_earliest_selected_start(schedule, now);
    let until = next_start_spec(schedule, now).unwrap();
    let k0 = choose|k0: int|
        0 <= k0 <= 7 && until == k0 * 1440 + schedule.window.start_minutes - now.minute_of_day
            && #[trigger] schedule.days.selected(today + k0);
    if until < u {
        assert(!schedule.days.selected(today + k0));
    }
    if u < until {
        assert(!schedule.days.selected(today + k));
    }
    assert(u == until);
}

/// With no day selected, or a window of zero length, the countdown reads
/// "no peak set".
pub proof fn lemma_no_peak_set(schedule: PeakSchedule, now: LocalTime)
    requires
        schedule.days.none_selected() || schedule.window.start_minutes
            == schedule.window.end_minutes,
    ensures
        countdown_spec(schedule, now) == "no peak set"@,
{
    if schedule.days.none_selected() {
        lemma_no_day_selected_is_never_peak(schedule, now);
    } else {
        lemma_zero_length_window_is_never_peak(schedule, now);
    }
}

proof fn lemma_next_start_from_finds(schedule: PeakSchedule, now: LocalTime, offset: nat, k: nat)
    requires
        offset <= k <= 7,
        k * 1440 + schedule.window.start_minutes - now.minute_of_day > 0,
        schedule.days.selected((now.weekday.index() + k) as int),
    ensures
        next_start_from(schedule, now, offset) is Some,
    decreases k - offset,
{
    if offset < k {
        lemma_next_start_from_finds(schedule, now, offset + 1, k);
    }
}

/// With some day selected and a window of non-zero length, a next start
/// always exists (at most a week ahead).
pub proof fn lemma_next_start_exists(schedule: PeakSchedule, now: LocalTime)
    requires
        schedule.window.wf(),
        now.wf(),
        !schedule.days.none_selected(),
        schedule.window.start_minutes != schedule.window.end_minutes,
    ensures
        next_start_spec(schedule, now) is Some,
{
    let d = choose|d: int| 0 <= d < 7 && schedule.days.0@[d];
    let today = now.weekday.index() as int;
    let k0 = (d - today + 7) % 7;
    assert((today + k0) % 7 == d);
    let start = schedule.window.start_minutes as int;
    let minute = now.minute_of_day as int;
    if k0 * 1440 + start - minute > 0 {
        lemma_next_start_from_finds(schedule, now, 0, k0 as nat);
    } else {
        assert(k0 == 0);
        assert((today + 7) % 7 == d);
        lemma_next_start_from_finds(schedule, now, 0, 7);
    }
}

} // verus!
