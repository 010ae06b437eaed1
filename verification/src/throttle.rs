//! Token-bucket rate limiting.
//!
//! Tokens are held in thousandths so that fractional refill rates need no
//! floating point: one acquisition costs 1000 milli-tokens, and a refill
//! rate of half a token per second is 500 milli-tokens per second.

use vstd::prelude::*;

verus! {

/// A token bucket: capacity and refill rate, plus the current fill and
/// the time it was last brought up to date.
#[derive(Clone, Copy, Debug, PartialEq, Eq, Structural)]
pub struct TokenBucket {
    /// Capacity in milli-tokens.
    pub capacity_milli: u64,
    /// Refill rate in milli-tokens per second.
    pub refill_milli_per_sec: u64,
    /// Current fill in milli-tokens.
    pub tokens_milli: u64,
    /// The time (milliseconds) of the last refill.
    pub last_refill_ms: u64,
}

impl TokenBucket {
    /// The fill never exceeds the capacity.
    pub open spec fn wf(self) -> bool {
        self.tokens_milli <= self.capacity_milli
    }

    /// The fill after refilling at time `now`: the elapsed refill, capped
    /// at the capacity.
    pub open spec fn spec_refilled(self, now_ms: u64) -> int
        recommends
            now_ms >= self.last_refill_ms,
    {
        let earned = (now_ms - self.last_refill_ms) * self.refill_milli_per_sec / 1000;
        if self.tokens_milli + earned >= self.capacity_milli {
            self.capacity_milli as int
        } else {
            self.tokens_milli + earned
        }
    }

    /// A full bucket at time `now`.
    pub fn new(capacity_milli: u64, refill_milli_per_sec: u64, now_ms: u64) -> (r: TokenBucket)
        ensures
            r.wf(),
            r.capacity_milli == capacity_milli,
            r.refill_milli_per_sec == refill_milli_per_sec,
            r.tokens_milli == capacity_milli,
            r.last_refill_ms == now_ms,
    {
        TokenBucket {
            capacity_milli,
            refill_milli_per_sec,
            tokens_milli: capacity_milli,
            last_refill_ms: now_ms,
        }
    }

    /// Try to take one token at time `now`.  Returns whether the request
    /// is allowed and, when it is refused, for how many milliseconds to
    /// wait before retrying (`u64::MAX` when the bucket never refills).
    ///
    /// A bucket of capacity zero never admits a request.
    pub fn check(&mut self, now_ms: u64) -> (r: (bool, u64))
        requires
            old(self).wf(),
            now_ms >= old(self).last_refill_ms,
        ensures
            final(self).wf(),
            final(self).capacity_milli == old(self).capacity_milli,
            final(self).refill_milli_per_sec == old(self).refill_milli_per_sec,
            final(self).last_refill_ms == now_ms,
            r.0 <==> old(self).spec_refilled(now_ms) >= 1000,
            r.0 ==> final(self).tokens_milli == old(self).spec_refilled(now_ms) - 1000,
            !r.0 ==> final(self).tokens_milli == old(self).spec_refilled(now_ms),
            old(self).capacity_milli == 0 ==> !r.0,
            !r.0 && old(self).refill_milli_per_sec > 0 ==> r.1 == ((1000 - old(
                self).spec_refilled(now_ms)) * 1000 + old(self).refill_milli_per_sec - 1) / (
            old(self).refill_milli_per_sec as int),
            !r.0 && old(self).refill_milli_per_sec == 0 ==> r.1 == u64::MAX,
    {
        let elapsed = now_ms - self.last_refill_ms;
        proof {
            assert((elapsed as int) * (self.refill_milli_per_sec as int) <= (u64::MAX as int)
                * (u64::MAX as int)) by (nonlinear_arith)
                requires
                    0 <= elapsed <= u64::MAX,
                    0 <= self.refill_milli_per_sec <= u64::MAX,
            {
            }
        }
        let earned_wide = (elapsed as u128) * (self.refill_milli_per_sec as u128) / 1000;
        let filled: u64 = if earned_wide >= self.capacity_milli as u128 {
            self.capacity_milli
        } else if self.tokens_milli as u128 + earned_wide >= self.capacity_milli as u128 {
            self.capacity_milli
        } else {
            self.tokens_milli + (earned_wide as u64)
        };
        self.last_refill_ms = now_ms;
        if filled >= 1000 {
            self.tokens_milli = filled - 1000;
            (true, 0)
        } else {
            self.tokens_milli = filled;
            let retry = if self.refill_milli_per_sec == 0 {
                u64::MAX
            } else {
                let deficit = 1000 - filled;
                let wide = ((deficit as u128) * 1000 + (self.refill_milli_per_sec as u128) - 1)
                    / (self.refill_milli_per_sec as u128);
                proof {
                    let dd = deficit as int;
                    let rr = self.refill_milli_per_sec as int;
                    assert((dd * 1000 + rr - 1) / rr <= dd * 1000) by (nonlinear_arith)
                        requires
                            rr >= 1,
                            0 <= dd,
                    {
                    }
                }
                wide as u64
            };
            (false, retry)
        }
    }
}

/// A bucket with capacity zero refuses every request, whatever its refill
/// rate and however much time has passed.
pub proof fn lemma_zero_capacity_never_allows(b: TokenBucket, now_ms: u64)
    requires
        b.wf(),
        b.capacity_milli == 0,
        now_ms >= b.last_refill_ms,
    ensures
        b.spec_refilled(now_ms) < 1000,
{
}

} // verus!
