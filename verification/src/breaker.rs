//! A circuit breaker with failure and success thresholds and a half-open
//! cool-down.
//!
//! The breaker opens after a run of consecutive failures, stays open for
//! its cool-down period, then admits trial requests half-open; enough
//! consecutive successes close it again, and any failure while half-open
//! reopens it.

use vstd::prelude::*;

verus! {

/// The three breaker states.
#[derive(Clone, Copy, Debug, PartialEq, Eq, Structural)]
pub enum BreakerState {
    /// Requests flow; failures are counted.
    Closed,
    /// Requests are refused until the cool-down has passed.
    Open,
    /// Trial requests flow; successes are counted.
    HalfOpen,
}

/// A circuit breaker.
#[derive(Clone, Copy, Debug, PartialEq, Eq, Structural)]
pub struct CircuitBreaker {
    /// Consecutive failures that open the breaker.
    pub failure_threshold: u32,
    /// Consecutive half-open successes that close it again.
    pub success_threshold: u32,
    /// Cool-down before an open breaker turns half-open, in milliseconds.
    pub half_open_after_ms: u64,
    /// Current state.
    pub state: BreakerState,
    /// Consecutive failures seen while closed.
    pub failures: u32,
    /// Consecutive successes seen while half-open.
    pub successes: u32,
    /// When the breaker last opened (milliseconds).
    pub opened_at_ms: u64,
}

impl CircuitBreaker {
    /// A closed breaker with the given thresholds.
    pub fn new(failure_threshold: u32, success_threshold: u32, half_open_after_ms: u64) -> (r:
        CircuitBreaker)
        ensures
            r == (CircuitBreaker {
                failure_threshold,
                success_threshold,
                half_open_after_ms,
                state: BreakerState::Closed,
                failures: 0,
                successes: 0,
                opened_at_ms: 0,
            }),
    {
        CircuitBreaker {
            failure_threshold,
            success_threshold,
            half_open_after_ms,
            state: BreakerState::Closed,
            failures: 0,
            successes: 0,
            opened_at_ms: 0,
        }
    }

    /// Whether the breaker is closed.
    pub fn is_closed(&self) -> (r: bool)
        ensures
            r == (self.state == BreakerState::Closed),
    {
        matches!(self.state, BreakerState::Closed)
    }

    /// Consult the breaker before a request at time `now`.  An open
    /// breaker whose cool-down has passed turns half-open and admits the
    /// request; a cooling breaker refuses it; closed and half-open
    /// breakers admit it.
    pub fn allow_request(&mut self, now_ms: u64) -> (r: bool)
        ensures
            r <==> (old(self).state != BreakerState::Open || now_ms >= old(self).opened_at_ms
                + old(self).half_open_after_ms),
            old(self).state == BreakerState::Open && r ==> *final(self) == (CircuitBreaker {
                state: BreakerState::HalfOpen,
                successes: 0,
                ..*old(self)
            }),
            old(self).state != BreakerState::Open || !r ==> *final(self) == *old(self),
    {
        match self.state {
            BreakerState::Closed => true,
            BreakerState::HalfOpen => true,
            BreakerState::Open => {
                if now_ms >= self.opened_at_ms && now_ms - self.opened_at_ms
                    >= self.half_open_after_ms {
                    self.state = BreakerState::HalfOpen;
                    self.successes = 0;
                    true
                } else {
                    false
                }
            }
        }
    }

    /// Record a successful request.  While half-open, enough consecutive
    /// successes close the breaker; while closed, the failure run resets.
    pub fn record_success(&mut self)
        ensures
            *final(self) == spec_after_success(*old(self)),
    {
        match self.state {
            BreakerState::Closed => {
                self.failures = 0;
            }
            BreakerState::HalfOpen => {
                if self.successes as u64 + 1 >= self.success_threshold as u64 {
                    self.state = BreakerState::Closed;
                    self.failures = 0;
                    self.successes = 0;
                } else {
                    self.successes = self.successes + 1;
                }
            }
            BreakerState::Open => {}
        }
    }

    /// Record a failed request at time `now`.  A half-open breaker
    /// reopens at once; a closed one opens when the failure run reaches
    /// the threshold.
    pub fn record_failure(&mut self, now_ms: u64)
        ensures
            *final(self) == spec_after_failure(*old(self), now_ms),
    {
        match self.state {
            BreakerState::Closed => {
                if self.failures as u64 + 1 >= self.failure_threshold as u64 {
                    self.state = BreakerState::Open;
                    self.opened_at_ms = now_ms;
                    self.failures = 0;
                    self.successes = 0;
                } else {
                    self.failures = self.failures + 1;
                }
            }
            BreakerState::HalfOpen => {
                self.state = BreakerState::Open;
                self.opened_at_ms = now_ms;
                self.failures = 0;
                self.successes = 0;
            }
            BreakerState::Open => {}
        }
    }
}

/// The breaker after one recorded success: a closed breaker's failure
/// run resets; a half-open breaker counts the success and closes at its
/// threshold; an open breaker is unchanged.
pub open spec fn spec_after_success(b: CircuitBreaker) -> CircuitBreaker {
    match b.state {
        BreakerState::Closed => CircuitBreaker { failures: 0, ..b },
        BreakerState::HalfOpen => {
            if b.successes + 1 >= b.success_threshold {
                CircuitBreaker { state: BreakerState::Closed, failures: 0, successes: 0, ..b }
            } else {
                CircuitBreaker { successes: (b.successes + 1) as u32, ..b }
            }
        }
        BreakerState::Open => b,
    }
}

/// The breaker after one recorded failure at time `now`: a half-open
/// breaker reopens at once; a closed one counts the failure and opens at
/// its threshold; an open breaker is unchanged.
pub open spec fn spec_after_failure(b: CircuitBreaker, now_ms: u64) -> CircuitBreaker {
    match b.state {
        BreakerState::Closed => {
            if b.failures + 1 >= b.failure_threshold {
                CircuitBreaker {
                    state: BreakerState::Open,
                    opened_at_ms: now_ms,
                    failures: 0,
                    successes: 0,
                    ..b
                }
            } else {
                CircuitBreaker { failures: (b.failures + 1) as u32, ..b }
            }
        }
        BreakerState::HalfOpen => CircuitBreaker {
            state: BreakerState::Open,
            opened_at_ms: now_ms,
            failures: 0,
            successes: 0,
            ..b
        },
        BreakerState::Open => b,
    }
}

} // verus!
