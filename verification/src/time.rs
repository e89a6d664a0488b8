//! Instants on the UTC time line, with the arithmetic the displays need.
use vstd::prelude::*;

verus! {

/// Earliest representable instant: -262143-01-01T00:00:00Z, in seconds
/// since the Unix epoch.
pub const MIN_TIMESTAMP_SECS: i64 = -8334601315200;

/// Latest representable instant: 262142-12-31T23:59:59Z, in seconds since
/// the Unix epoch.
pub const MAX_TIMESTAMP_SECS: i64 = 8210266876799;

/// Nanoseconds per second.
pub const NANOS_PER_SEC: u32 = 1_000_000_000;

/// An instant in UTC: whole seconds since the Unix epoch and nanoseconds
/// into that second. `nanos` reaches past one second only while a leap
/// second is being inserted (23:59:60).
#[derive(Debug, Clone, Copy, PartialEq, Eq, Structural)]
pub struct Timestamp {
    pub secs: i64,
    pub nanos: u32,
}

/// `a` is at or before `b`: instants are ordered by second, then by the
/// nanoseconds into it (a leap second sorts after the second it extends and
/// before the next day).
pub open spec fn at_or_before(a: Timestamp, b: Timestamp) -> bool {
    a.secs < b.secs || (a.secs == b.secs && a.nanos <= b.nanos)
}

/// The second of the day (0..86399) of `t`.
pub open spec fn second_of_day(t: Timestamp) -> int {
    (t.secs - MIN_TIMESTAMP_SECS) % 86400
}

/// Signed nanoseconds from `earlier` to `later`. Outside leap seconds this
/// is the plain difference; a leap second counts as a second of its own
/// when the span crosses it.
pub open spec fn nanos_between(later: Timestamp, earlier: Timestamp) -> int {
    let base = (later.secs - earlier.secs) * 1_000_000_000 + later.nanos - earlier.nanos;
    if second_of_day(later) > second_of_day(earlier) && earlier.nanos >= 1_000_000_000 {
        base + 1_000_000_000
    } else if second_of_day(later) < second_of_day(earlier) && later.nanos >= 1_000_000_000 {
        base - 1_000_000_000
    } else {
        base
    }
}

/// `t` moved back by `seconds` whole seconds (`seconds > 0`); a leap second
/// is first folded into the second that follows it.
pub open spec fn minus_seconds_spec(t: Timestamp, seconds: int) -> Timestamp {
    if t.nanos >= 1_000_000_000 {
        Timestamp { secs: (t.secs + 1 - seconds) as i64, nanos: (t.nanos - 1_000_000_000) as u32 }
    } else {
        Timestamp { secs: (t.secs - seconds) as i64, nanos: t.nanos }
    }
}

impl Timestamp {
    /// Within the representable range, with at most one extra (leap) second.
    pub open spec fn wf(self) -> bool {
        &&& MIN_TIMESTAMP_SECS <= self.secs <= MAX_TIMESTAMP_SECS
        &&& self.nanos < 2_000_000_000
    }

    /// The instant `secs` seconds and `nanos` nanoseconds after the epoch.
    pub fn new(secs: i64, nanos: u32) -> (r: Self)
        requires
            MIN_TIMESTAMP_SECS <= secs <= MAX_TIMESTAMP_SECS,
            nanos < 2_000_000_000,
        ensures
            r.secs == secs,
            r.nanos == nanos,
            r.wf(),
    {
        Timestamp { secs, nanos }
    }

    /// Whether `self` is at or before `other`.
    pub fn is_at_or_before(&self, other: &Timestamp) -> (r: bool)
        ensures
            r == at_or_before(*self, *other),
    {
        self.secs < other.secs || (self.secs == other.secs && self.nanos <= other.nanos)
    }

    fn second_of_day(&self) -> (r: u64)
        requires
            self.wf(),
        ensures
            r == second_of_day(*self),
    {
        ((self.secs - MIN_TIMESTAMP_SECS) as u64) % 86400
    }

    /// Signed nanoseconds from `earlier` to `self`.
    pub fn nanos_since(&self, earlier: &Timestamp) -> (r: i128)
        requires
            self.wf(),
            earlier.wf(),
        ensures
            r == nanos_between(*self, *earlier),
    {
        let base = (self.secs as i128 - earlier.secs as i128) * 1_000_000_000 + self.nanos as i128
            - earlier.nanos as i128;
        let later_sod = self.second_of_day();
        let earlier_sod = earlier.second_of_day();
        if later_sod > earlier_sod && earlier.nanos >= NANOS_PER_SEC {
            base + 1_000_000_000
        } else if later_sod < earlier_sod && self.nanos >= NANOS_PER_SEC {
            base - 1_000_000_000
        } else {
            base
        }
    }

    /// `self` moved back by `seconds` whole seconds.
    pub fn minus_seconds(&self, seconds: i64) -> (r: Timestamp)
        requires
            self.wf(),
            0 < seconds <= 604800,
            MIN_TIMESTAMP_SECS <= minus_seconds_spec(*self, seconds as int).secs,
        ensures
            r == minus_seconds_spec(*self, seconds as int),
            r.wf(),
    {
        if self.nanos >= NANOS_PER_SEC {
            Timestamp { secs: self.secs + 1 - seconds, nanos: self.nanos - NANOS_PER_SEC }
        } else {
            Timestamp { secs: self.secs - seconds, nanos: self.nanos }
        }
    }
}

/// The instant that an RFC 3339 text denotes, as seconds since the epoch and
/// nanoseconds into the second, or `None` when the text is not RFC 3339.
pub uninterp spec fn rfc3339_instant(text: Seq<char>) -> Option<(i64, u32)>;

/// Calls `chrono::DateTime::parse_from_rfc3339` and converts the instant to
/// UTC seconds and nanoseconds. Claims only that the result is a function of
/// the text, and that a parsed instant lies within chrono's range with at
/// most one leap second of nanoseconds (chrono's documented bounds).
#[verifier::external_body]
pub(crate) fn parse_rfc3339(text: &str) -> (r: Option<Timestamp>)
    ensures
        match rfc3339_instant(text@) {
            Some((secs, nanos)) => r == Some(Timestamp { secs, nanos }),
            None => r is None,
        },
        r matches Some(t) ==> t.wf(),
{
    match chrono::DateTime::parse_from_rfc3339(text) {
        Ok(dt) => {
            let utc = dt.with_timezone(&chrono::Utc);
            Some(Timestamp { secs: utc.timestamp(), nanos: utc.timestamp_subsec_nanos() })
        },
        Err(_) => None,
    }
}

/// Reads an optional reset time: a missing or malformed timestamp is "no
/// reset info" (`None`), not an error, so the rest of a snapshot stays
/// usable.
pub fn reset_time(raw: Option<&str>) -> (r: Option<Timestamp>)
    ensures
        r == match raw {
            Some(text) => match rfc3339_instant(text@) {
                Some((secs, nanos)) => Some(Timestamp { secs, nanos }),
                None => None,
            },
            None => None,
        },
        r matches Some(t) ==> t.wf(),
{
    match raw {
        Some(text) => parse_rfc3339(text),
        None => None,
    }
}

} // verus!
