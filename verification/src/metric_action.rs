//! The Metric Tile's settings and refresh schedule.
use vstd::prelude::*;
use crate::metric::{MetricKind, RangeKind};
use crate::source::cached::MAX_DURATION_NANOS;

verus! {

/// What one Metric Tile shows and how often it refreshes.
#[derive(Debug, Clone, Copy, PartialEq, Eq, Structural)]
pub struct MetricTileSettings {
    pub metric: MetricKind,
    pub range: RangeKind,
    pub refresh_seconds: u64,
}

impl Default for MetricTileSettings {
    fn default() -> (r: Self)
        ensures
            r.metric == MetricKind::Tokens,
            r.range == RangeKind::Today,
            r.refresh_seconds == 60,
    {
        MetricTileSettings { metric: MetricKind::Tokens, range: RangeKind::Today, refresh_seconds: 60 }
    }
}

/// Among the first `n` scheduled instances, the ids of those due at `now`
/// (their due time has come, or is exactly now), in order.
pub open spec fn due_ids(schedule: Seq<(String, u128)>, now: u128, n: nat) -> Seq<String>
    decreases n,
{
    if n == 0 {
        seq![]
    } else {
        let prev = due_ids(schedule, now, (n - 1) as nat);
        if schedule[n - 1].1 <= now {
            prev.push(schedule[n - 1].0)
        } else {
            prev
        }
    }
}

/// The ids of the scheduled instances that are due at `now`. Times are
/// nanoseconds on a monotonic clock.
pub fn due_instance_ids(schedule: &[(String, u128)], now: u128) -> (r: Vec<String>)
    ensures
        r@ == due_ids(schedule@, now, schedule@.len()),
{
    let mut out: Vec<String> = Vec::new();
    let mut i: usize = 0;
    while i < schedule.len()
        invariant
            i <= schedule@.len(),
            out@ == due_ids(schedule@, now, i as nat),
        decreases schedule@.len() - i,
    {
        if schedule[i].1 <= now {
            out.push(schedule[i].0.clone());
        }
        i = i + 1;
    }
    out
}

/// When an instance refreshed at `now` is next due: `refresh_seconds`
/// later, at least one second.
pub fn next_due_at(now: u128, refresh_seconds: u64) -> (r: u128)
    requires
        now <= MAX_DURATION_NANOS,
    ensures
        r == now + (if refresh_seconds >= 1 {
            refresh_seconds as int
        } else {
            1
        }) * 1_000_000_000,
{
    let seconds = if refresh_seconds >= 1 {
        refresh_seconds
    } else {
        1
    };
    now + (seconds as u128) * 1_000_000_000
}

} // verus!
