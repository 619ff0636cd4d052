//! Global bandwidth pacing: every worker reports the bytes it moved, and waits
//! until the wall time since the limiter started covers all bytes at the set rate.
use vstd::prelude::*;

verus! {

/// Milliseconds after the limiter's start by which `total` bytes may have moved at
/// `rate` bytes per second (rounded up).
pub open spec fn due_ms(rate: u64, total: u64) -> int
    recommends
        rate > 0,
{
    (total * 1000 + rate - 1) / (rate as int)
}

/// The wait owed after `total` bytes, `elapsed_ms` after the start: the time by which
/// the bytes are due, less what has elapsed, never negative and capped at `u64::MAX`.
pub open spec fn pacing_delay_spec(rate: u64, total: u64, elapsed_ms: u64) -> u64 {
    if rate == 0 || due_ms(rate, total) <= elapsed_ms {
        0
    } else if due_ms(rate, total) - elapsed_ms > u64::MAX {
        u64::MAX
    } else {
        (due_ms(rate, total) - elapsed_ms) as u64
    }
}

/// Computes how long a caller must wait, in milliseconds, so that `total` bytes moved
/// since the start do not exceed `rate` bytes per second; a rate of 0 never waits.
pub fn pacing_delay_ms(rate: u64, total: u64, elapsed_ms: u64) -> (r: u64)
    ensures
        r == pacing_delay_spec(rate, total, elapsed_ms),
{
    if rate == 0 {
        return 0;
    }
    let due: u128 = ((total as u128) * 1000 + (rate as u128) - 1) / (rate as u128);
    assert(due == due_ms(rate, total));
    if due <= elapsed_ms as u128 {
        0
    } else if due - (elapsed_ms as u128) > u64::MAX as u128 {
        u64::MAX
    } else {
        (due - (elapsed_ms as u128)) as u64
    }
}

/// After waiting the delay it was given, a caller has spent since the limiter's start
/// at least `total / rate` seconds, whatever sizes the bytes came in: the wait depends
/// on the running total alone (short of waits beyond `u64::MAX` milliseconds).
pub proof fn lemma_pacing_meets_rate(rate: u64, total: u64, elapsed_ms: u64)
    requires
        rate > 0,
    ensures
        elapsed_ms + pacing_delay_spec(rate, total, elapsed_ms) >= u64::MAX
            || (elapsed_ms + pacing_delay_spec(rate, total, elapsed_ms)) * rate >= total * 1000,
{
    let due = due_ms(rate, total);
    let t = total * 1000;
    assert(due * rate >= t) by (nonlinear_arith)
        requires
            due == (t + rate - 1) / (rate as int),
            rate > 0,
            t >= 0,
    ;
    let d = pacing_delay_spec(rate, total, elapsed_ms);
    if due <= elapsed_ms {
        assert(elapsed_ms * rate >= due * rate) by (nonlinear_arith)
            requires
                elapsed_ms >= due,
                rate > 0,
        ;
    }
}

/// Total of the byte counts in `chunks`.
pub open spec fn sum_bytes(chunks: Seq<u64>) -> int
    decreases chunks.len(),
{
    if chunks.len() == 0 {
        0
    } else {
        sum_bytes(chunks.drop_last()) + chunks.last()
    }
}

/// `a + b`, saturating at `u64::MAX`.
pub open spec fn saturating_sum(a: int, b: int) -> u64 {
    if a + b > u64::MAX {
        u64::MAX
    } else {
        (a + b) as u64
    }
}

/// The running total that a limited limiter holds after starting at `start` and
/// recording `chunks` in order.
pub open spec fn recorded_total(start: u64, chunks: Seq<u64>) -> u64
    decreases chunks.len(),
{
    if chunks.len() == 0 {
        start
    } else {
        saturating_sum(recorded_total(start, chunks.drop_last()) as int, chunks.last() as int)
    }
}

proof fn lemma_recorded_total_is_sum(start: u64, chunks: Seq<u64>)
    ensures
        recorded_total(start, chunks) == saturating_sum(start as int, sum_bytes(chunks)),
        sum_bytes(chunks) >= 0,
    decreases chunks.len(),
{
    if chunks.len() > 0 {
        lemma_recorded_total_is_sum(start, chunks.drop_last());
    }
}

/// How the bytes were cut into calls does not matter: two runs of calls that move
/// the same number of bytes end with the same running total and the same wait, and
/// after that wait the time since the start covers all bytes at the rate.
pub proof fn lemma_pacing_ignores_granularity(
    rate: u64,
    a: Seq<u64>,
    b: Seq<u64>,
    elapsed_ms: u64,
)
    requires
        sum_bytes(a) == sum_bytes(b),
    ensures
        recorded_total(0, a) == recorded_total(0, b),
        pacing_delay_spec(rate, recorded_total(0, a), elapsed_ms) == pacing_delay_spec(
            rate,
            recorded_total(0, b),
            elapsed_ms,
        ),
        rate > 0 && sum_bytes(a) <= u64::MAX ==> ({
            let wait = pacing_delay_spec(rate, recorded_total(0, a), elapsed_ms);
            elapsed_ms + wait >= u64::MAX || (elapsed_ms + wait) * rate >= sum_bytes(a) * 1000
        }),
{
    lemma_recorded_total_is_sum(0, a);
    lemma_recorded_total_is_sum(0, b);
    if rate > 0 {
        lemma_pacing_meets_rate(rate, recorded_total(0, a), elapsed_ms);
    }
}

/// Shared pacing state: the configured rate (0 means unlimited) and the bytes that
/// all workers have reported since the start.
#[derive(Debug)]
pub struct BandwidthLimiter {
    pub rate_bytes_per_sec: u64,
    pub total_bytes_transferred: u64,
}

impl BandwidthLimiter {
    /// A limiter for `rate_bytes_per_sec` that has seen no bytes yet.
    pub fn new(rate_bytes_per_sec: u64) -> (r: Self)
        ensures
            r.rate_bytes_per_sec == rate_bytes_per_sec,
            r.total_bytes_transferred == 0,
    {
        BandwidthLimiter { rate_bytes_per_sec, total_bytes_transferred: 0 }
    }

    /// Records `bytes` moved at `elapsed_ms` after the start and returns the wait, in
    /// milliseconds, that keeps the running total within the rate. Unlimited: nothing
    /// is recorded and no wait. The running total saturates at `u64::MAX`.
    pub fn throttle(&mut self, bytes: u64, elapsed_ms: u64) -> (delay_ms: u64)
        ensures
            final(self).rate_bytes_per_sec == old(self).rate_bytes_per_sec,
            old(self).rate_bytes_per_sec == 0 ==> final(self).total_bytes_transferred
                == old(self).total_bytes_transferred && delay_ms == 0,
            old(self).rate_bytes_per_sec > 0 ==> final(self).total_bytes_transferred
                == saturating_sum(old(self).total_bytes_transferred as int, bytes as int),
            delay_ms == pacing_delay_spec(
                final(self).rate_bytes_per_sec,
                final(self).total_bytes_transferred,
                elapsed_ms,
            ),
    {
        if self.rate_bytes_per_sec == 0 {
            return 0;
        }
        self.total_bytes_transferred = self.total_bytes_transferred.saturating_add(bytes);
        pacing_delay_ms(self.rate_bytes_per_sec, self.total_bytes_transferred, elapsed_ms)
    }
}

} // verus!
