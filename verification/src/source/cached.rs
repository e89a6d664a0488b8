//! Throttling a usage source in memory: after a success it is not asked
//! again for `min_interval`; after `n` consecutive failures the next
//! attempt waits `min_interval * 2^n`, capped at `max_backoff`; and while it
//! fails, callers keep getting the last good snapshot until it is older than
//! `stale_after`.
//!
//! Times are nanoseconds on a monotonic clock, measured from any fixed
//! origin; durations are nanoseconds too.
use vstd::prelude::*;
use vstd::arithmetic::power2::{pow2, lemma_pow2_unfold, lemma_pow2_strictly_increases, lemma_pow2_pos};
use vstd::arithmetic::mul::{lemma_mul_inequality, lemma_mul_is_associative, lemma_mul_is_commutative};
use vstd::bits::{lemma_u32_shl_is_mul, lemma_u32_pow2_no_overflow};

verus! {

/// The longest duration: `u64::MAX` seconds plus 999,999,999 nanoseconds.
pub const MAX_DURATION_NANOS: u128 = 18446744073709551615999999999;

/// How long to wait before retrying, and how long a last good snapshot may
/// stand in for a failing source. All three are nanoseconds.
#[derive(Debug, Clone, Copy, PartialEq, Eq, Structural)]
pub struct CachePolicy {
    /// Minimum time between requests after a success, and the base delay
    /// that doubles with each consecutive failure.
    pub min_interval: u128,
    /// Upper bound on the doubling retry delay.
    pub max_backoff: u128,
    /// How old the last successful snapshot may get while it is still shown
    /// in place of a failure.
    pub stale_after: u128,
}

impl CachePolicy {
    /// Every field is a duration.
    pub open spec fn wf(self) -> bool {
        &&& self.min_interval <= MAX_DURATION_NANOS
        &&& self.max_backoff <= MAX_DURATION_NANOS
        &&& self.stale_after <= MAX_DURATION_NANOS
    }
}

/// `2^n` for a shift that fits a `u32`, else `u32::MAX` (a saturated
/// shift).
pub open spec fn doubling_factor(n: nat) -> nat {
    if n < 32 {
        pow2(n)
    } else {
        u32::MAX as nat
    }
}

/// `min_interval * factor`, saturating at the longest duration.
pub open spec fn saturating_delay(policy: CachePolicy, factor: nat) -> int {
    let raw = policy.min_interval * factor;
    if raw > MAX_DURATION_NANOS {
        MAX_DURATION_NANOS as int
    } else {
        raw
    }
}

/// The retry delay after `n` consecutive failures: `min_interval * 2^n`
/// (saturating), capped at `max_backoff`.
pub open spec fn backoff_spec(policy: CachePolicy, n: nat) -> int {
    let delay = saturating_delay(policy, doubling_factor(n));
    if delay <= policy.max_backoff {
        delay
    } else {
        policy.max_backoff as int
    }
}

/// The retry delay after `consecutive_failures` failures in a row.
pub fn backoff(policy: &CachePolicy, consecutive_failures: u32) -> (r: u128)
    requires
        policy.wf(),
    ensures
        r == backoff_spec(*policy, consecutive_failures as nat),
{
    let factor: u32 = if consecutive_failures < 32 {
        proof {
            lemma_u32_pow2_no_overflow(consecutive_failures as nat);
            lemma_u32_shl_is_mul(1, consecutive_failures);
        }
        1u32 << consecutive_failures
    } else {
        u32::MAX
    };
    assert(factor == doubling_factor(consecutive_failures as nat));
    proof {
        lemma_mul_inequality(
            policy.min_interval as int,
            MAX_DURATION_NANOS as int,
            factor as int,
        );
    }
    let raw = policy.min_interval * (factor as u128);
    let delay = if raw > MAX_DURATION_NANOS {
        MAX_DURATION_NANOS
    } else {
        raw
    };
    if delay <= policy.max_backoff {
        delay
    } else {
        policy.max_backoff
    }
}

/// The retry delay never exceeds `max_backoff`.
pub proof fn lemma_backoff_is_capped(policy: CachePolicy, n: nat)
    requires
        policy.wf(),
    ensures
        0 <= backoff_spec(policy, n) <= policy.max_backoff,
{
}

/// Below the cap, the retry delay doubles with each further failure.
pub proof fn lemma_backoff_doubles(policy: CachePolicy, n: nat)
    requires
        policy.wf(),
        n + 1 < 32,
        policy.min_interval * pow2(n + 1) <= policy.max_backoff,
    ensures
        backoff_spec(policy, n + 1) == 2 * backoff_spec(policy, n),
{
    lemma_pow2_unfold(n + 1);
    lemma_mul_is_associative(policy.min_interval as int, 2, pow2(n) as int);
    lemma_mul_is_commutative(policy.min_interval as int, 2);
    lemma_mul_is_associative(2, policy.min_interval as int, pow2(n) as int);
    lemma_pow2_pos(n);
    lemma_mul_inequality(pow2(n) as int, pow2(n + 1) as int, policy.min_interval as int);
    lemma_pow2_strictly_increases(n, n + 1);
    lemma_mul_is_commutative(pow2(n) as int, policy.min_interval as int);
    lemma_mul_is_commutative(pow2(n + 1) as int, policy.min_interval as int);
}

/// More consecutive failures never shorten the retry delay.
pub proof fn lemma_backoff_is_monotone(policy: CachePolicy, n: nat, m: nat)
    requires
        policy.wf(),
        n <= m,
    ensures
        backoff_spec(policy, n) <= backoff_spec(policy, m),
{
    let fnn = doubling_factor(n);
    let fm = doubling_factor(m);
    if n < 32 {
        lemma_u32_pow2_no_overflow(n);
    }
    if m < 32 {
        lemma_u32_pow2_no_overflow(m);
        if n < m {
            lemma_pow2_strictly_increases(n, m);
        }
    }
    assert(fnn <= fm);
    lemma_mul_inequality(fnn as int, fm as int, policy.min_interval as int);
    lemma_mul_is_commutative(fnn as int, policy.min_interval as int);
    lemma_mul_is_commutative(fm as int, policy.min_interval as int);
}

/// What the throttle remembers between reads: the last good snapshot and
/// when it was taken, the most recent error, how many reads in a row have
/// failed, and when the source may be asked next (`None` until the first
/// read, which always goes to the source).
pub struct CacheState<T, E> {
    pub last_good: Option<(u128, T)>,
    pub last_error: Option<E>,
    pub consecutive_failures: u32,
    pub next_attempt: Option<u128>,
}

/// Whether the source may be asked at `now`.
pub open spec fn attempt_due<T, E>(s: CacheState<T, E>, now: u128) -> bool {
    !(s.next_attempt matches Some(at) && now < at)
}

/// How long ago `at` was, seen from `now` (zero if `at` is later).
pub open spec fn age(now: u128, at: u128) -> int {
    if now >= at {
        now - at
    } else {
        0
    }
}

/// Whether a read served from memory at `now` gives the last good snapshot
/// (rather than the most recent error): while it is younger than
/// `stale_after`, or when there is no error to give.
pub open spec fn serves_snapshot<T, E>(s: CacheState<T, E>, now: u128, stale_after: u128) -> bool {
    match s.last_good {
        Some((at, _)) => age(now, at) < stale_after || s.last_error is None,
        None => false,
    }
}

/// There is something to serve from memory.
pub open spec fn has_outcome<T, E>(s: CacheState<T, E>) -> bool {
    s.last_good is Some || s.last_error is Some
}

/// The state after a successful read at `now`.
pub open spec fn after_success<T, E>(
    s: CacheState<T, E>,
    now: u128,
    snapshot: T,
    policy: CachePolicy,
) -> CacheState<T, E> {
    CacheState {
        last_good: Some((now, snapshot)),
        last_error: None,
        consecutive_failures: 0,
        next_attempt: Some((now + policy.min_interval) as u128),
    }
}

/// The state after a failed read at `now`.
pub open spec fn after_failure<T, E>(
    s: CacheState<T, E>,
    now: u128,
    error: E,
    policy: CachePolicy,
) -> CacheState<T, E> {
    CacheState {
        last_good: s.last_good,
        last_error: Some(error),
        consecutive_failures: (s.consecutive_failures + 1) as u32,
        next_attempt: Some(
            (now + backoff_spec(policy, (s.consecutive_failures + 1) as nat)) as u128,
        ),
    }
}

impl<T, E> CacheState<T, E> {
    /// The state before any read: nothing remembered, the source due.
    pub fn new() -> (r: Self)
        ensures
            r.last_good is None,
            r.last_error is None,
            r.consecutive_failures == 0,
            r.next_attempt is None,
    {
        CacheState { last_good: None, last_error: None, consecutive_failures: 0, next_attempt: None }
    }

    /// Whether the source may be asked at `now`.
    pub fn attempt_due(&self, now: u128) -> (r: bool)
        ensures
            r == attempt_due(*self, now),
    {
        match self.next_attempt {
            Some(at) => !(now < at),
            None => true,
        }
    }

    /// What callers see between attempts: the last good snapshot while it is
    /// fresh enough, otherwise the most recent error.
    pub fn served(&self, now: u128, stale_after: u128) -> (r: Result<&T, &E>)
        requires
            has_outcome(*self),
        ensures
            serves_snapshot(*self, now, stale_after) ==> r == Ok::<&T, &E>(
                &self.last_good.unwrap().1,
            ),
            !serves_snapshot(*self, now, stale_after) ==> r == Err::<&T, &E>(
                &self.last_error.unwrap(),
            ),
    {
        if let Some((at, snapshot)) = &self.last_good {
            let age = if now >= *at {
                now - *at
            } else {
                0
            };
            if age < stale_after {
                return Ok(snapshot);
            }
        }
        match &self.last_error {
            Some(error) => Err(error),
            None => Ok(&self.last_good.as_ref().unwrap().1),
        }
    }

    /// Records the outcome of asking the source at `now`; the caller then
    /// serves `served(now, ..)`, which after a success is that snapshot.
    pub fn finish_read(&mut self, now: u128, outcome: Result<T, E>, policy: &CachePolicy)
        requires
            now <= MAX_DURATION_NANOS,
            policy.wf(),
            outcome is Err ==> old(self).consecutive_failures < u32::MAX,
        ensures
            match outcome {
                Ok(snapshot) => *final(self) == after_success(*old(self), now, snapshot, *policy),
                Err(error) => *final(self) == after_failure(*old(self), now, error, *policy),
            },
            has_outcome(*final(self)),
    {
        match outcome {
            Ok(snapshot) => self.record_success(now, snapshot, policy),
            Err(error) => self.record_failure(now, error, policy),
        }
    }

    /// Records a successful read at `now`: the snapshot becomes the last good
    /// one, the error and the failure count are cleared, and the source is
    /// not asked again for `min_interval`.
    pub fn record_success(&mut self, now: u128, snapshot: T, policy: &CachePolicy)
        requires
            now <= MAX_DURATION_NANOS,
            policy.wf(),
        ensures
            *final(self) == after_success(*old(self), now, snapshot, *policy),
    {
        self.last_good = Some((now, snapshot));
        self.last_error = None;
        self.consecutive_failures = 0;
        self.next_attempt = Some(now + policy.min_interval);
    }

    /// Records a failed read at `now`: one more failure in a row, the error
    /// kept, and the next attempt put off by the doubling delay.
    pub fn record_failure(&mut self, now: u128, error: E, policy: &CachePolicy)
        requires
            now <= MAX_DURATION_NANOS,
            policy.wf(),
            old(self).consecutive_failures < u32::MAX,
        ensures
            *final(self) == after_failure(*old(self), now, error, *policy),
    {
        self.consecutive_failures = self.consecutive_failures + 1;
        let delay = backoff(policy, self.consecutive_failures);
        self.last_error = Some(error);
        self.next_attempt = Some(now + delay);
    }
}

/// The first read always goes to the source.
pub proof fn lemma_first_read_is_due<T, E>(s: CacheState<T, E>, now: u128)
    requires
        s.next_attempt is None,
    ensures
        attempt_due(s, now),
{
}

/// After a success at `t0`, reads before `t0 + min_interval` do not ask the
/// source and get that snapshot; from `t0 + min_interval` on the source is
/// due again.
pub proof fn lemma_success_is_reused_for_min_interval<T, E>(
    s: CacheState<T, E>,
    t0: u128,
    snapshot: T,
    policy: CachePolicy,
    now: u128,
)
    requires
        policy.wf(),
        t0 <= MAX_DURATION_NANOS,
        t0 <= now,
    ensures
        ({
            let s2 = after_success(s, t0, snapshot, policy);
            &&& attempt_due(s2, now) <==> now >= t0 + policy.min_interval
            &&& serves_snapshot(s2, now, policy.stale_after)
            &&& s2.last_good == Some((t0, snapshot))
        }),
{
}

/// After the `n`th failure in a row at `t0`, the source is not asked again
/// until `t0 + backoff(n)`.
pub proof fn lemma_failure_defers_the_next_attempt<T, E>(
    s: CacheState<T, E>,
    t0: u128,
    error: E,
    policy: CachePolicy,
    now: u128,
)
    requires
        policy.wf(),
        t0 <= MAX_DURATION_NANOS,
        s.consecutive_failures < u32::MAX,
    ensures
        ({
            let s2 = after_failure(s, t0, error, policy);
            &&& s2.consecutive_failures == s.consecutive_failures + 1
            &&& attempt_due(s2, now) <==> now >= t0 + backoff_spec(
                policy,
                s2.consecutive_failures as nat,
            )
        }),
{
}

/// A success resets the failure count, so the next failure waits only
/// `backoff(1)`.
pub proof fn lemma_success_resets_the_backoff<T, E>(
    s: CacheState<T, E>,
    t0: u128,
    snapshot: T,
    t1: u128,
    error: E,
    policy: CachePolicy,
)
    requires
        policy.wf(),
        t0 <= MAX_DURATION_NANOS,
        t1 <= MAX_DURATION_NANOS,
    ensures
        after_failure(after_success(s, t0, snapshot, policy), t1, error, policy).next_attempt
            == Some((t1 + backoff_spec(policy, 1)) as u128),
{
}

/// While reads fail, the last good snapshot is served as long as it is
/// younger than `stale_after`; from then on the error is served instead.
pub proof fn lemma_failure_serves_the_last_good_snapshot_until_stale<T, E>(
    s: CacheState<T, E>,
    t0: u128,
    error: E,
    policy: CachePolicy,
    now: u128,
)
    requires
        s.last_good is Some,
    ensures
        ({
            let s2 = after_failure(s, t0, error, policy);
            let at = s.last_good.unwrap().0;
            &&& serves_snapshot(s2, now, policy.stale_after) <==> age(now, at) < policy.stale_after
            &&& s2.last_good == s.last_good
            &&& s2.last_error == Some(error)
        }),
{
}

/// Through a failure, a snapshot taken at `at` is served exactly while less
/// than `stale_after` has passed since it was taken (`now - at`), whatever
/// time the clock started from.
pub proof fn lemma_snapshot_served_while_younger_than_stale_after<T, E>(
    s: CacheState<T, E>,
    now: u128,
    stale_after: u128,
)
    requires
        s.last_good matches Some((at, _)) && at <= now,
        s.last_error is Some,
    ensures
        serves_snapshot(s, now, stale_after) <==> now - s.last_good.unwrap().0 < stale_after,
{
}

/// A failure with nothing cached serves the error.
pub proof fn lemma_failure_without_snapshot_serves_the_error<T, E>(
    s: CacheState<T, E>,
    t0: u128,
    error: E,
    policy: CachePolicy,
    now: u128,
)
    requires
        s.last_good is None,
    ensures
        !serves_snapshot(after_failure(s, t0, error, policy), now, policy.stale_after),
        has_outcome(after_failure(s, t0, error, policy)),
{
}

/// Whenever the source is not due, there is something to serve: the next
/// attempt is only ever scheduled by a recorded success or failure.
pub open spec fn consistent<T, E>(s: CacheState<T, E>) -> bool {
    s.next_attempt is Some ==> has_outcome(s)
}

/// Every state the throttle passes through is consistent, so a read that
/// does not ask the source always has something to serve.
pub proof fn lemma_states_stay_consistent<T, E>(
    s: CacheState<T, E>,
    now: u128,
    snapshot: T,
    error: E,
    policy: CachePolicy,
)
    requires
        consistent(s),
    ensures
        consistent(after_success(s, now, snapshot, policy)),
        consistent(after_failure(s, now, error, policy)),
        !attempt_due(s, now) ==> has_outcome(s),
{
}

} // verus!
