//! The burst half of the dual-rate admission gate: a counting permit pool
//! capped at 4, topped back up to its maximum periodically.
use vstd::prelude::*;

verus! {

/// The burst pool's permit cap.
pub const BURST_MAX: u8 = 4;

/// A counting permit pool. A lookup is issued only after taking a permit;
/// a periodic top-up restores the pool to its cap.
pub struct RateLimiter {
    pub permits: u8,
}

impl RateLimiter {
    /// The pool never holds more than its cap.
    pub open spec fn wf(self) -> bool {
        self.permits <= BURST_MAX
    }

    /// A full pool.
    pub fn new() -> (r: Self)
        ensures
            r.permits == BURST_MAX,
            r.wf(),
    {
        RateLimiter { permits: BURST_MAX }
    }

    /// Take one permit if any is available.
    pub fn try_acquire(&mut self) -> (ok: bool)
        ensures
            old(self).permits > 0 ==> ok && final(self).permits == old(self).permits - 1,
            old(self).permits == 0 ==> !ok && final(self).permits == 0,
            old(self).wf() ==> final(self).wf(),
    {
        if self.permits > 0 {
            self.permits = self.permits - 1;
            true
        } else {
            false
        }
    }

    /// The periodic top-up: restore the pool to its cap.
    pub fn refill(&mut self)
        ensures
            final(self).permits == BURST_MAX,
            final(self).wf(),
    {
        self.permits = BURST_MAX;
    }
}

/// Permits granted by a pool of `p` permits over `attempts` consecutive
/// acquisitions with no top-up in between, as `try_acquire` behaves: each
/// grant takes a permit, an empty pool grants nothing.
pub open spec fn spec_grants(p: int, attempts: int) -> int
    decreases attempts,
{
    if attempts <= 0 {
        0
    } else if p > 0 {
        1 + spec_grants(p - 1, attempts - 1)
    } else {
        spec_grants(p, attempts - 1)
    }
}

/// Between two top-ups the pool grants at most as many permits as it held,
/// and it never holds more than 4. Top-ups come once per 60 seconds, so in
/// any span from one top-up to the next, at most 4 external calls pass the
/// burst gate, however long the queue is.
pub proof fn lemma_burst_window(p: int, attempts: int)
    requires
        0 <= p <= BURST_MAX,
    ensures
        0 <= spec_grants(p, attempts) <= p,
        spec_grants(p, attempts) <= BURST_MAX,
    decreases attempts,
{
    if attempts > 0 {
        if p > 0 {
            lemma_burst_window(p - 1, attempts - 1);
        } else {
            lemma_burst_window(p, attempts - 1);
        }
    }
}

proof fn lemma_tick_gaps(ticks: Seq<int>, i: int, j: int)
    requires
        forall|k: int| 0 <= k < ticks.len() - 1 ==> (#[trigger] ticks[k]) + 216 <= ticks[k + 1],
        0 <= i <= j < ticks.len(),
    ensures
        ticks[i] + 216 * (j - i) <= ticks[j],
    decreases j - i,
{
    if i < j {
        lemma_tick_gaps(ticks, i, j - 1);
    }
}

/// The steady gate alone already bounds any 60-second window: its ticks
/// come at least 216 seconds apart (one per 216 s, from the daily quota of
/// 400), so no 60-second window holds two of them. With at most one lookup
/// issued per tick, the calls in any such window stay within the burst pool
/// maximum of 4, however long the queue is.
pub proof fn lemma_steady_window(ticks: Seq<int>, w: int, i: int, j: int)
    requires
        forall|k: int| 0 <= k < ticks.len() - 1 ==> (#[trigger] ticks[k]) + 216 <= ticks[k + 1],
        0 <= i <= j < ticks.len(),
        w <= ticks[i] < w + 60,
        w <= ticks[j] < w + 60,
    ensures
        i == j,
{
    if i < j {
        lemma_tick_gaps(ticks, i, j);
        assert(216 * (j - i) >= 216) by (nonlinear_arith)
            requires
                j - i >= 1,
        ;
    }
}

} // verus!
