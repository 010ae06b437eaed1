//! Exponential backoff with bounded jitter.
//!
//! Delays grow geometrically from a base, capped at a maximum, and a
//! jitter factor spreads each delay over an interval around it.  Factors
//! are held in thousandths (a multiplier of 2.0 is 2000) so that no
//! floating point is needed.  The random input that places a delay inside
//! its jitter window is taken as an argument.

use vstd::prelude::*;

verus! {

/// An exponential backoff policy.
#[derive(Clone, Copy, Debug, PartialEq, Eq, Structural)]
pub struct ExponentialBackoff {
    /// First delay, in milliseconds.
    pub base_delay_ms: u64,
    /// Cap on any delay, in milliseconds.
    pub max_delay_ms: u64,
    /// Growth factor per attempt, in thousandths.
    pub multiplier_permille: u64,
    /// Attempts after which no further delay is offered.
    pub max_attempts: u8,
    /// Width of the jitter window as a fraction of the delay, in
    /// thousandths.
    pub jitter_permille: u64,
}

impl ExponentialBackoff {
    /// Sane parameter ranges: delays fit comfortably, the multiplier does
    /// not shrink, the jitter is at most the whole delay.
    pub open spec fn wf(self) -> bool {
        &&& self.base_delay_ms <= self.max_delay_ms
        &&& self.max_delay_ms <= 0x1_0000_0000
        &&& 1000 <= self.multiplier_permille <= 1_000_000
        &&& self.jitter_permille <= 1000
    }

    /// The un-jittered delay before retry `attempt` (counted from zero):
    /// the base delay grown `attempt` times, capped at the maximum.
    pub open spec fn spec_raw_delay(self, attempt: nat) -> nat
        decreases attempt,
    {
        if attempt == 0 {
            self.base_delay_ms as nat
        } else {
            let prev = self.spec_raw_delay((attempt - 1) as nat);
            let grown = prev * self.multiplier_permille / 1000;
            if grown >= self.max_delay_ms {
                self.max_delay_ms as nat
            } else {
                grown as nat
            }
        }
    }

    /// Every raw delay stays at or below the cap.
    pub proof fn lemma_raw_delay_bounded(self, attempt: nat)
        requires
            self.wf(),
        ensures
            self.spec_raw_delay(attempt) <= self.max_delay_ms,
        decreases attempt,
    {
        if attempt > 0 {
            self.lemma_raw_delay_bounded((attempt - 1) as nat);
        }
    }

    /// Whether another retry is offered after `attempt` attempts.
    pub open spec fn spec_should_retry(self, attempt: u8) -> bool {
        attempt < self.max_attempts
    }

    /// Whether another retry is offered after `attempt` attempts.
    pub fn should_retry(&self, attempt: u8) -> (r: bool)
        ensures
            r == self.spec_should_retry(attempt),
    {
        attempt < self.max_attempts
    }

    /// The jittered delay before retry `attempt`: the raw delay shifted
    /// inside its jitter window by `jitter_unit` thousandths.
    pub open spec fn spec_delay(self, attempt: u8, jitter_unit: u64) -> u64 {
        let d = self.spec_raw_delay(attempt as nat);
        let window = d * self.jitter_permille / 1000;
        (d - window / 2 + window * jitter_unit / 1000) as u64
    }

    /// The delay before retry `attempt`, jittered by `jitter_unit` (a
    /// position in thousandths inside the jitter window).  `None` exactly
    /// when the attempts are used up.  The jittered delay lies within
    /// half a jitter width of the raw delay on either side.
    pub fn delay_ms(&self, attempt: u8, jitter_unit: u64) -> (r: Option<u64>)
        requires
            self.wf(),
            jitter_unit <= 1000,
        ensures
            r is Some <==> self.spec_should_retry(attempt),
            r matches Some(v) ==> v == self.spec_delay(attempt, jitter_unit),
            r matches Some(v) ==> {
                let d = self.spec_raw_delay(attempt as nat);
                let window = d * self.jitter_permille / 1000;
                &&& v == d - window / 2 + window * jitter_unit / 1000
                &&& d - window / 2 <= v <= d + window
            },
    {
        if attempt >= self.max_attempts {
            return None;
        }
        let mut d: u64 = self.base_delay_ms;
        let mut k: u8 = 0;
        while k < attempt
            invariant
                self.wf(),
                k <= attempt,
                d == self.spec_raw_delay(k as nat),
                d <= self.max_delay_ms,
            decreases attempt - k,
        {
            proof {
                assert((d as int) * (self.multiplier_permille as int) <= 0x1_0000_0000int
                    * 1_000_000) by (nonlinear_arith)
                    requires
                        0 <= d <= 0x1_0000_0000,
                        0 <= self.multiplier_permille <= 1_000_000,
                {
                }
            }
            let grown_wide = (d as u128) * (self.multiplier_permille as u128) / 1000;
            d = if grown_wide >= self.max_delay_ms as u128 {
                self.max_delay_ms
            } else {
                grown_wide as u64
            };
            k = k + 1;
        }
        proof {
            assert((d as int) * (self.jitter_permille as int) <= 0x1_0000_0000int * 1000)
                by (nonlinear_arith)
                requires
                    0 <= d <= 0x1_0000_0000,
                    0 <= self.jitter_permille <= 1000,
            {
            }
        }
        let window = d * self.jitter_permille / 1000;
        proof {
            assert(window <= d) by (nonlinear_arith)
                requires
                    window == d * self.jitter_permille / 1000,
                    self.jitter_permille <= 1000,
                    d >= 0,
            {
            }
            assert(window * jitter_unit / 1000 <= window) by (nonlinear_arith)
                requires
                    jitter_unit <= 1000,
                    window >= 0,
            {
            }
        }
        let v = d - window / 2 + window * jitter_unit / 1000;
        Some(v)
    }
}

} // verus!
