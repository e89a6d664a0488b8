//! The Metric Tile: which log entries fall in the selected range, and what
//! the tile shows for them.
use vstd::prelude::*;
use vstd::string::*;
use crate::pricing::{ModelFamily, family_of_lowercase_spec, unicode_lowercase, model_family};
use crate::source::logs::LogEntry;
use crate::time::{Timestamp, at_or_before, minus_seconds_spec, nanos_between, MIN_TIMESTAMP_SECS};

verus! {

/// Accent of a Tokens tile.
pub const TOKENS_ACCENT: &'static str = "#38bdf8";

/// Accent of a Cost tile.
pub const COST_ACCENT: &'static str = "#fb923c";

/// Accent of the "no data" state.
pub const NO_DATA_ACCENT: &'static str = "#6b7280";

/// What a Metric Tile totals.
#[derive(Debug, Clone, Copy, PartialEq, Eq, Structural)]
pub enum MetricKind {
    Tokens,
    Cost,
}

impl Default for MetricKind {
    fn default() -> (r: Self)
        ensures
            r == MetricKind::Tokens,
    {
        MetricKind::Tokens
    }
}

/// Over which span of time a Metric Tile totals.
#[derive(Debug, Clone, Copy, PartialEq, Eq, Structural)]
pub enum RangeKind {
    Today,
    SevenDay,
    Session,
}

impl Default for RangeKind {
    fn default() -> (r: Self)
        ensures
            r == RangeKind::Today,
    {
        RangeKind::Today
    }
}

/// What one Metric Tile shows: a label, the value, a subtitle naming the
/// range, and a fixed accent color per metric.
pub struct MetricDisplay {
    pub label: &'static str,
    pub value_text: String,
    pub subtitle: &'static str,
    pub accent_color: &'static str,
}

/// `[start, end]` of `range`: the last 24 hours or the last 168 hours up to
/// `now`; for `Session`, the 5 hours up to the session's reset time when it
/// is known, else the last 5 hours up to `now`.
pub open spec fn range_bounds_spec(
    range: RangeKind,
    now: Timestamp,
    session_resets_at: Option<Timestamp>,
) -> (Timestamp, Timestamp) {
    match range {
        RangeKind::Today => (minus_seconds_spec(now, 86400int), now),
        RangeKind::SevenDay => (minus_seconds_spec(now, 604800int), now),
        RangeKind::Session => {
            let end = match session_resets_at {
                Some(t) => t,
                None => now,
            };
            (minus_seconds_spec(end, 18000int), end)
        },
    }
}

/// The bounds stay within the representable range.
pub open spec fn range_bounds_fit(
    range: RangeKind,
    now: Timestamp,
    session_resets_at: Option<Timestamp>,
) -> bool {
    MIN_TIMESTAMP_SECS <= range_bounds_spec(range, now, session_resets_at).0.secs
}

/// `[start, end]` bounds for `range`. `Today`/`SevenDay` are rolling
/// windows ending at `now` (not calendar-aligned); `Session` mirrors the
/// 5-hour rate-limit window, `[resets_at - 5h, resets_at]` when the reset
/// time is known, falling back to a rolling last-5h window when it is not.
pub fn range_bounds(range: RangeKind, now: Timestamp, session_resets_at: Option<Timestamp>) -> (r: (
    Timestamp,
    Timestamp,
))
    requires
        now.wf(),
        session_resets_at matches Some(t) ==> t.wf(),
        range_bounds_fit(range, now, session_resets_at),
    ensures
        r == range_bounds_spec(range, now, session_resets_at),
        r.0.wf(),
        r.1.wf(),
{
    match range {
        RangeKind::Today => (now.minus_seconds(24 * 3600), now),
        RangeKind::SevenDay => (now.minus_seconds(24 * 7 * 3600), now),
        RangeKind::Session => {
            let end = match session_resets_at {
                Some(t) => t,
                None => now,
            };
            (end.minus_seconds(5 * 3600), end)
        },
    }
}

/// The nominal length of a range in seconds.
pub open spec fn range_seconds(range: RangeKind) -> int {
    match range {
        RangeKind::Today => 86400,
        RangeKind::SevenDay => 604800,
        RangeKind::Session => 18000,
    }
}

/// Away from leap seconds, each range spans exactly its nominal length (24
/// hours, 168 hours or 5 hours) and ends at `now`, or for a session at its
/// reset time when that is known.
pub proof fn lemma_range_spans_its_length(
    range: RangeKind,
    now: Timestamp,
    session_resets_at: Option<Timestamp>,
)
    requires
        now.wf(),
        session_resets_at matches Some(t) ==> t.wf(),
        range_bounds_fit(range, now, session_resets_at),
        now.nanos < 1_000_000_000,
        session_resets_at matches Some(t) ==> t.nanos < 1_000_000_000,
    ensures
        ({
            let (start, end) = range_bounds_spec(range, now, session_resets_at);
            &&& nanos_between(end, start) == range_seconds(range) * 1_000_000_000
            &&& at_or_before(start, end)
            &&& end == (if range == RangeKind::Session {
                match session_resets_at {
                    Some(t) => t,
                    None => now,
                }
            } else {
                now
            })
        }),
{
    let (start, end) = range_bounds_spec(range, now, session_resets_at);
    assert(start.secs == end.secs - range_seconds(range));
    assert(start.nanos == end.nanos);
}

/// Whether `e` happened within `[start, end]`, both ends included.
pub open spec fn in_range(e: LogEntry, start: Timestamp, end: Timestamp) -> bool {
    at_or_before(start, e.timestamp) && at_or_before(e.timestamp, end)
}

/// Total tokens of the first `n` entries that fall in `[start, end]`.
pub open spec fn tokens_in_range(entries: Seq<LogEntry>, start: Timestamp, end: Timestamp, n: nat) -> int
    decreases n,
{
    if n == 0 {
        0
    } else {
        let e = entries[n - 1];
        tokens_in_range(entries, start, end, (n - 1) as nat) + if in_range(e, start, end) {
            e.token_sum()
        } else {
            0
        }
    }
}

proof fn lemma_tokens_same_prefix(x: Seq<LogEntry>, y: Seq<LogEntry>, start: Timestamp, end: Timestamp, n: nat)
    requires
        n <= x.len(),
        n <= y.len(),
        forall|i: int| 0 <= i < n ==> x[i] == y[i],
    ensures
        tokens_in_range(x, start, end, n) == tokens_in_range(y, start, end, n),
    decreases n,
{
    if n > 0 {
        lemma_tokens_same_prefix(x, y, start, end, (n - 1) as nat);
    }
}

proof fn lemma_tokens_concat_prefix(
    a: Seq<LogEntry>,
    b: Seq<LogEntry>,
    start: Timestamp,
    end: Timestamp,
    k: nat,
)
    requires
        k <= b.len(),
    ensures
        tokens_in_range(a + b, start, end, a.len() + k) == tokens_in_range(a, start, end, a.len())
            + tokens_in_range(b, start, end, k),
    decreases k,
{
    if k == 0 {
        lemma_tokens_same_prefix(a + b, a, start, end, a.len());
    } else {
        lemma_tokens_concat_prefix(a, b, start, end, (k - 1) as nat);
        assert((a + b)[a.len() + k - 1] == b[k - 1]);
    }
}

/// One entry counts toward the total with all four of its token categories
/// (input, output, cache creation and cache read) when it lies in
/// `[start, end]`, and not at all otherwise.
pub proof fn lemma_tokens_of_one_entry(e: LogEntry, start: Timestamp, end: Timestamp)
    ensures
        tokens_in_range(seq![e], start, end, 1) == if at_or_before(start, e.timestamp)
            && at_or_before(e.timestamp, end) {
            e.input_tokens + e.output_tokens + e.cache_creation_input_tokens
                + e.cache_read_input_tokens
        } else {
            0int
        },
{
    assert(seq![e][0] == e);
    assert(tokens_in_range(seq![e], start, end, 0) == 0);
}

/// The total over two lists one after the other is the sum of their totals,
/// so the total of a list is the sum of what each entry counts.
pub proof fn lemma_tokens_add_up(a: Seq<LogEntry>, b: Seq<LogEntry>, start: Timestamp, end: Timestamp)
    ensures
        tokens_in_range(a + b, start, end, (a + b).len()) == tokens_in_range(
            a,
            start,
            end,
            a.len(),
        ) + tokens_in_range(b, start, end, b.len()),
{
    lemma_tokens_concat_prefix(a, b, start, end, b.len());
}

/// The family of an entry's model, if it is priced.
pub open spec fn entry_family(e: LogEntry) -> Option<ModelFamily> {
    family_of_lowercase_spec(unicode_lowercase(e.model@))
}

/// Among the first `n` entries, those in `[start, end]` whose model is
/// priced, as (position, family), in order.
pub open spec fn priced_in_range(
    entries: Seq<LogEntry>,
    start: Timestamp,
    end: Timestamp,
    n: nat,
) -> Seq<(usize, ModelFamily)>
    decreases n,
{
    if n == 0 {
        seq![]
    } else {
        let prev = priced_in_range(entries, start, end, (n - 1) as nat);
        let e = entries[n - 1];
        if in_range(e, start, end) {
            match entry_family(e) {
                Some(f) => prev.push(((n - 1) as usize, f)),
                None => prev,
            }
        } else {
            prev
        }
    }
}

/// What a tile totals: tokens as a count, or cost as the priced entries
/// (position in the entry list and model family) whose estimated prices are
/// then added up. Entries of an unrecognized model count toward tokens but
/// not toward cost.
#[derive(Debug, Clone, PartialEq, Eq)]
pub enum MetricTotal {
    Tokens(u64),
    Cost(Vec<(usize, ModelFamily)>),
}

/// Everything a Metric Tile shows except the formatted value.
#[derive(Debug, Clone, PartialEq, Eq)]
pub struct MetricSummary {
    pub label: &'static str,
    pub subtitle: &'static str,
    pub accent_color: &'static str,
    pub total: MetricTotal,
}

/// The subtitle naming a range.
pub open spec fn subtitle_spec(range: RangeKind) -> Seq<char> {
    match range {
        RangeKind::Today => "today"@,
        RangeKind::SevenDay => "7 days"@,
        RangeKind::Session => "session"@,
    }
}

/// Totals the entries that fall in the selected range, for the selected
/// metric, with the tile's label, subtitle and accent. Always a real total
/// (possibly zero): whether "no entries at all" calls for `error_display`
/// is the caller's decision, since a quiet range is not missing data.
/// `None` only when a token total does not fit in a `u64`.
pub fn summarize_metric(
    entries: &[LogEntry],
    metric: MetricKind,
    range: RangeKind,
    now: Timestamp,
    session_resets_at: Option<Timestamp>,
) -> (r: Option<MetricSummary>)
    requires
        now.wf(),
        session_resets_at matches Some(t) ==> t.wf(),
        range_bounds_fit(range, now, session_resets_at),
    ensures
        ({
            let (start, end) = range_bounds_spec(range, now, session_resets_at);
            match r {
                None => metric == MetricKind::Tokens && tokens_in_range(
                    entries@,
                    start,
                    end,
                    entries@.len(),
                ) > u64::MAX,
                Some(summary) => {
                    &&& summary.subtitle@ == subtitle_spec(range)
                    &&& match metric {
                        MetricKind::Tokens => {
                            &&& summary.label@ == "Tokens"@
                            &&& summary.accent_color@ == TOKENS_ACCENT@
                            &&& summary.total matches MetricTotal::Tokens(t) && t
                                == tokens_in_range(entries@, start, end, entries@.len())
                        },
                        MetricKind::Cost => {
                            &&& summary.label@ == "Cost"@
                            &&& summary.accent_color@ == COST_ACCENT@
                            &&& summary.total matches MetricTotal::Cost(priced) && priced@
                                == priced_in_range(entries@, start, end, entries@.len())
                        },
                    }
                },
            }
        }),
{
    let (start, end) = range_bounds(range, now, session_resets_at);
    let subtitle = match range {
        RangeKind::Today => "today",
        RangeKind::SevenDay => "7 days",
        RangeKind::Session => "session",
    };
    match metric {
        MetricKind::Tokens => {
            let mut total: u64 = 0;
            let mut i: usize = 0;
            while i < entries.len()
                invariant
                    i <= entries@.len(),
                    total == tokens_in_range(entries@, start, end, i as nat),
                    (start, end) == range_bounds_spec(range, now, session_resets_at),
                    metric == MetricKind::Tokens,
                decreases entries@.len() - i,
            {
                let e = &entries[i];
                if start.is_at_or_before(&e.timestamp) && e.timestamp.is_at_or_before(&end) {
                    let sum = total.checked_add(e.input_tokens);
                    let sum = match sum {
                        Some(t) => t.checked_add(e.output_tokens),
                        None => None,
                    };
                    let sum = match sum {
                        Some(t) => t.checked_add(e.cache_creation_input_tokens),
                        None => None,
                    };
                    let sum = match sum {
                        Some(t) => t.checked_add(e.cache_read_input_tokens),
                        None => None,
                    };
                    match sum {
                        Some(t) => {
                            total = t;
                        },
                        None => {
                            proof {
                                assert(in_range(entries@[i as int], start, end));
                                assert(tokens_in_range(entries@, start, end, (i + 1) as nat)
                                    == total + entries@[i as int].token_sum());
                                lemma_tokens_in_range_monotone(
                                    entries@,
                                    start,
                                    end,
                                    (i + 1) as nat,
                                    entries@.len(),
                                );
                            }
                            return None;
                        },
                    }
                }
                i = i + 1;
            }
            Some(
                MetricSummary {
                    label: "Tokens",
                    subtitle,
                    accent_color: TOKENS_ACCENT,
                    total: MetricTotal::Tokens(total),
                },
            )
        },
        MetricKind::Cost => {
            let mut priced: Vec<(usize, ModelFamily)> = Vec::new();
            let mut i: usize = 0;
            while i < entries.len()
                invariant
                    i <= entries@.len(),
                    priced@ == priced_in_range(entries@, start, end, i as nat),
                decreases entries@.len() - i,
            {
                let e = &entries[i];
                if start.is_at_or_before(&e.timestamp) && e.timestamp.is_at_or_before(&end) {
                    match model_family(e.model.as_str()) {
                        Some(f) => priced.push((i, f)),
                        None => {},
                    }
                }
                i = i + 1;
            }
            Some(
                MetricSummary {
                    label: "Cost",
                    subtitle,
                    accent_color: COST_ACCENT,
                    total: MetricTotal::Cost(priced),
                },
            )
        },
    }
}

/// Taking more entries never lowers the token total.
proof fn lemma_tokens_in_range_monotone(
    entries: Seq<LogEntry>,
    start: Timestamp,
    end: Timestamp,
    i: nat,
    j: nat,
)
    requires
        i <= j,
    ensures
        tokens_in_range(entries, start, end, i) <= tokens_in_range(entries, start, end, j),
    decreases j - i,
{
    if i < j {
        lemma_tokens_in_range_monotone(entries, start, end, i, (j - 1) as nat);
    }
}

/// No log data anywhere (a fresh install, or the projects directory missing
/// or unreadable): a clearly labeled "no data" state.
pub fn error_display() -> (r: MetricDisplay)
    ensures
        r.label@ == "\u{2014}"@,
        r.value_text@ == "\u{2014}"@,
        r.subtitle@ == "no data"@,
        r.accent_color@ == NO_DATA_ACCENT@,
{
    MetricDisplay {
        label: "\u{2014}",
        value_text: String::from_str("\u{2014}"),
        subtitle: "no data",
        accent_color: NO_DATA_ACCENT,
    }
}


/// The tile's title: label, value and subtitle on three lines.
pub fn metric_title(d: &MetricDisplay) -> (r: String)
    ensures
        r@ == d.label@ + "\n"@ + d.value_text@ + "\n"@ + d.subtitle@,
{
    let mut s = String::from_str(d.label);
    s.append("\n");
    s.append(d.value_text.as_str());
    s.append("\n");
    s.append(d.subtitle);
    s
}

/// What a Metric Tile does with the entries it read.
#[derive(Debug, Clone, Copy, PartialEq, Eq, Structural)]
pub enum MetricStep {
    /// No log data at all (a fresh install, or no readable transcripts):
    /// show `error_display`. This is not an error, and nothing more is read.
    NoData,
    /// Read the session's reset time (for the Session range), then
    /// summarize the entries.
    Summarize,
}

/// The step for a tile whose transcripts gave `entries`: no entries at all
/// means the "no data" state; otherwise the entries are summarized (a quiet
/// range still shows a real total, possibly zero).
pub fn metric_step(entries: &[LogEntry]) -> (r: MetricStep)
    ensures
        r == MetricStep::NoData <==> entries@.len() == 0,
{
    if entries.len() == 0 {
        MetricStep::NoData
    } else {
        MetricStep::Summarize
    }
}

} // verus!
