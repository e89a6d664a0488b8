//! The Usage Gauge's settings, and when its poll loop logs.
use vstd::prelude::*;
use crate::source::WindowKind;

verus! {

/// What one Usage Gauge shows.
#[derive(Debug, Clone, Copy, PartialEq, Eq, Structural)]
pub struct UsageGaugeSettings {
    pub window: WindowKind,
}

impl Default for UsageGaugeSettings {
    fn default() -> (r: Self)
        ensures
            r.window == WindowKind::Session,
    {
        UsageGaugeSettings { window: WindowKind::Session }
    }
}

/// What the poll loop logs about a read.
#[derive(Debug, Clone, Copy, PartialEq, Eq, Structural)]
pub enum PollLog {
    /// Nothing: the outcome is the same as last time.
    Quiet,
    /// A warning: the first failure after a success.
    Warn,
    /// A notice: the first success after a failure.
    Recovered,
}

/// The poll loop logs a read's outcome only on a transition (the first
/// failure after a success, or the recovery back to success), not on every
/// tick, which would otherwise warn forever while the source stays down.
/// The last outcome starts out as a success, so the very first failure is
/// logged.
pub fn poll_read_transition(was_ok: bool, read_ok: bool) -> (r: PollLog)
    ensures
        r == (if was_ok && !read_ok {
            PollLog::Warn
        } else if !was_ok && read_ok {
            PollLog::Recovered
        } else {
            PollLog::Quiet
        }),
{
    if was_ok && !read_ok {
        PollLog::Warn
    } else if !was_ok && read_ok {
        PollLog::Recovered
    } else {
        PollLog::Quiet
    }
}

} // verus!
