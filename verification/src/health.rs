//! The health monitor of one jail: an ordered list of checks, each with
//! its failure counter, token bucket and circuit breaker.
//!
//! One monitoring iteration has two halves.  First the monitor decides,
//! per check, whether its command may run at all: a check whose breaker
//! is open is suspended, one whose bucket is empty is skipped and keeps
//! its previous result.  The caller executes the commands of the checks
//! that may run and hands the outcomes back; the monitor then updates
//! counters and breakers, computes the overall status, and names the
//! recoveries that have become due.

use vstd::prelude::*;
use vstd::string::*;
use crate::breaker::{BreakerState, CircuitBreaker};
use crate::recovery::RecoveryConfig;
use crate::throttle::TokenBucket;

verus! {

/// The overall health of a jail.
#[derive(Clone, Copy, Debug, PartialEq, Eq, Structural)]
pub enum HealthStatus {
    /// Waiting for the start period to pass.
    Starting,
    /// All checks passing.
    Healthy,
    /// Some checks failing, within their retry budget.
    Unhealthy,
    /// Some check has failed at least its retry count in a row.
    Failing,
    /// Some check is suspended by its breaker and none is failing.
    Suspended,
    /// Not checked yet.
    Unknown,
}

impl HealthStatus {
    /// The lowercase label of the status.
    pub fn label(&self) -> (r: String)
        ensures
            *self == HealthStatus::Starting ==> r@ == "starting"@,
            *self == HealthStatus::Healthy ==> r@ == "healthy"@,
            *self == HealthStatus::Unhealthy ==> r@ == "unhealthy"@,
            *self == HealthStatus::Failing ==> r@ == "failing"@,
            *self == HealthStatus::Suspended ==> r@ == "suspended"@,
            *self == HealthStatus::Unknown ==> r@ == "unknown"@,
    {
        match self {
            HealthStatus::Starting => String::from_str("starting"),
            HealthStatus::Healthy => String::from_str("healthy"),
            HealthStatus::Unhealthy => String::from_str("unhealthy"),
            HealthStatus::Failing => String::from_str("failing"),
            HealthStatus::Suspended => String::from_str("suspended"),
            HealthStatus::Unknown => String::from_str("unknown"),
        }
    }
}

/// Where a check command runs.
#[derive(Clone, Copy, Debug, PartialEq, Eq, Structural)]
pub enum CheckTarget {
    /// On the host.
    Host,
    /// Inside the jail.
    Jail,
}

/// One health check definition.  An interval shorter than the timeout is
/// legitimate: iterations then overlap the command's worst case, and the
/// scheduler still runs every iteration.
#[derive(Clone, Debug)]
pub struct HealthCheck {
    /// Name for reporting.
    pub name: String,
    /// Command to run; exit zero means healthy.
    pub command: String,
    /// Where to run it.
    pub target: CheckTarget,
    /// Seconds between iterations.
    pub interval: u64,
    /// Seconds before a run counts as timed out.
    pub timeout: u64,
    /// Grace seconds after the checker starts.
    pub start_period: u64,
    /// Consecutive failures before the check counts as failing.
    pub retries: u32,
    /// What to do when it does.
    pub recovery: Option<RecoveryConfig>,
}

impl HealthCheck {
    /// A jail-side check with the default timing: thirty-second
    /// interval, ten-second timeout, one-minute start period, three
    /// retries.  Any combination of interval and timeout is accepted.
    pub fn new(name: &str, command: &str) -> (r: HealthCheck)
        ensures
            r.name@ == name@,
            r.command@ == command@,
            r.target == CheckTarget::Jail,
            r.interval == 30,
            r.timeout == 10,
            r.start_period == 60,
            r.retries == 3,
            r.recovery is None,
    {
        HealthCheck {
            name: name.to_owned(),
            command: command.to_owned(),
            target: CheckTarget::Jail,
            interval: 30,
            timeout: 10,
            start_period: 60,
            retries: 3,
            recovery: None,
        }
    }

    /// The same check with another target.
    pub fn with_target(self, target: CheckTarget) -> (r: HealthCheck)
        ensures
            r.target == target,
            r.name == self.name,
            r.command == self.command,
            r.interval == self.interval,
            r.timeout == self.timeout,
            r.start_period == self.start_period,
            r.retries == self.retries,
            r.recovery == self.recovery,
    {
        HealthCheck { target, ..self }
    }

    /// The same check with another interval; an interval below the
    /// timeout is accepted unchanged.
    pub fn with_interval(self, interval: u64) -> (r: HealthCheck)
        ensures
            r.interval == interval,
            r.timeout == self.timeout,
            r.name == self.name,
            r.command == self.command,
            r.target == self.target,
            r.start_period == self.start_period,
            r.retries == self.retries,
            r.recovery == self.recovery,
    {
        HealthCheck { interval, ..self }
    }

    /// The same check with another timeout.
    pub fn with_timeout(self, timeout: u64) -> (r: HealthCheck)
        ensures
            r.timeout == timeout,
            r.interval == self.interval,
            r.name == self.name,
            r.command == self.command,
            r.target == self.target,
            r.start_period == self.start_period,
            r.retries == self.retries,
            r.recovery == self.recovery,
    {
        HealthCheck { timeout, ..self }
    }

    /// The same check with another retry count.
    pub fn with_retries(self, retries: u32) -> (r: HealthCheck)
        ensures
            r.retries == retries,
            r.interval == self.interval,
            r.timeout == self.timeout,
            r.name == self.name,
            r.command == self.command,
            r.target == self.target,
            r.start_period == self.start_period,
            r.recovery == self.recovery,
    {
        HealthCheck { retries, ..self }
    }
}

/// The outcome of one check execution.
#[derive(Debug)]
pub struct CheckResult {
    /// The check's name.
    pub name: String,
    /// Whether it passed.
    pub passed: bool,
    /// How long it ran, in milliseconds.
    pub duration_ms: u64,
    /// Combined output.
    pub output: String,
    /// When it finished, in milliseconds.
    pub timestamp_ms: u64,
}

impl CheckResult {
    /// A one-line summary: name, outcome and duration.
    pub fn summary(&self) -> (r: String)
        ensures
            self.output@.len() == 0 ==> r@ == self.name@ + ":"@ + (if self.passed {
                "ok"@
            } else {
                "fail"@
            }) + " ("@ + crate::text::dec_digits(self.duration_ms as nat) + "ms)"@,
    {
        proof {
            reveal_strlit(":");
            reveal_strlit("ok");
            reveal_strlit("fail");
            reveal_strlit(" (");
            reveal_strlit("ms)");
            reveal_strlit(" - ");
        }
        let mut s = self.name.clone();
        s.append(":");
        if self.passed {
            s.append("ok");
        } else {
            s.append("fail");
        }
        s.append(" (");
        crate::text::push_dec(&mut s, self.duration_ms);
        s.append("ms)");
        if self.output.unicode_len() > 0 {
            s.append(" - ");
            s.append(self.output.as_str());
        }
        proof {
            if self.output@.len() == 0 {
                assert(s@ =~= self.name@ + ":"@ + (if self.passed {
                    "ok"@
                } else {
                    "fail"@
                }) + " ("@ + crate::text::dec_digits(self.duration_ms as nat) + "ms)"@);
            }
        }
        s
    }

    /// Milliseconds since the check ran.
    pub fn age_ms(&self, now_ms: u64) -> (r: u64)
        requires
            now_ms >= self.timestamp_ms,
        ensures
            r == now_ms - self.timestamp_ms,
    {
        now_ms - self.timestamp_ms
    }
}

/// A jail's health-check configuration.
#[derive(Clone, Debug)]
pub struct HealthCheckConfig {
    /// Whether monitoring is on.
    pub enabled: bool,
    /// The checks, in order.
    pub checks: Vec<HealthCheck>,
}

impl HealthCheckConfig {
    /// A configuration with monitoring off and no checks.
    pub fn new() -> (r: HealthCheckConfig)
        ensures
            !r.enabled,
            r.checks@.len() == 0,
    {
        HealthCheckConfig { enabled: false, checks: Vec::new() }
    }

    /// A configuration with monitoring on and no checks yet.
    pub fn enabled() -> (r: HealthCheckConfig)
        ensures
            r.enabled,
            r.checks@.len() == 0,
    {
        HealthCheckConfig { enabled: true, checks: Vec::new() }
    }

    /// The same configuration with one more check.
    pub fn with_check(self, check: HealthCheck) -> (r: HealthCheckConfig)
        ensures
            r.enabled == self.enabled,
            r.checks@ == self.checks@.push(check),
    {
        let mut c = self;
        c.checks.push(check);
        c
    }
}

/// The monitor's per-check state.
pub struct CheckState {
    /// Consecutive failures.
    pub failures: u32,
    /// The most recent result, kept across rate-limited iterations.
    pub last_result: Option<CheckResult>,
    /// Recoveries attempted so far.
    pub recovery_attempts: u32,
    /// The check's token bucket.
    pub bucket: TokenBucket,
    /// The check's circuit breaker.
    pub breaker: CircuitBreaker,
}

/// The decision for one check in one iteration.
#[derive(Clone, Copy, Debug, PartialEq, Eq, Structural)]
pub enum CheckDecision {
    /// Run the command.
    Execute,
    /// The breaker is open: record a suspension, run nothing.
    Suspended,
    /// The bucket is empty: keep the previous result, run nothing.
    RateLimited,
}

/// What one iteration begins with.
#[derive(Debug)]
pub enum PlanOutcome {
    /// Some check's start period has not passed: no check runs.
    Starting,
    /// The per-check decisions, in check order.
    Proceed(Vec<CheckDecision>),
}

/// The health monitor of one jail.
pub struct HealthChecker {
    /// The jail's name.
    pub jail_name: String,
    /// The kernel jail id, when known.
    pub jid: Option<i32>,
    /// The configuration.
    pub config: HealthCheckConfig,
    /// The most recent overall status.
    pub status: HealthStatus,
    /// When the checker was created, in milliseconds.
    pub started_at_ms: u64,
    /// Per-check state, parallel to the configured checks.
    pub check_states: Vec<CheckState>,
    /// Whether the monitor loop was asked to stop.
    pub stop_requested: bool,
}

/// The overall status computed from one iteration's observations.
pub open spec fn spec_overall_status(
    any_suspended: bool,
    any_failing: bool,
    all_healthy: bool,
) -> HealthStatus {
    if any_suspended && !any_failing {
        HealthStatus::Suspended
    } else if any_failing {
        HealthStatus::Failing
    } else if all_healthy {
        HealthStatus::Healthy
    } else {
        HealthStatus::Unhealthy
    }
}

impl HealthChecker {
    /// States and checks run in parallel.
    pub open spec fn wf(self) -> bool {
        &&& self.check_states@.len() == self.config.checks@.len()
        &&& forall|i: int|
            0 <= i < self.check_states@.len() ==> (#[trigger] self.check_states@[i]).bucket.wf()
    }

    /// A monitor for the named jail with the given rate-limit settings:
    /// each check gets a bucket of the given capacity and refill rate
    /// (in milli-tokens) and a breaker that opens after its retry count,
    /// closes after two successes and cools down for a minute.
    pub fn with_rate_limit(
        jail_name: &str,
        config: HealthCheckConfig,
        rate_capacity_milli: u64,
        rate_refill_milli_per_sec: u64,
        now_ms: u64,
    ) -> (r: HealthChecker)
        ensures
            r.wf(),
            r.jail_name@ == jail_name@,
            r.jid is None,
            r.status == HealthStatus::Unknown,
            r.started_at_ms == now_ms,
            r.config.enabled == config.enabled,
            r.config.checks == config.checks,
            !r.stop_requested,
            forall|i: int|
                0 <= i < r.check_states@.len() ==> {
                    let st = #[trigger] r.check_states@[i];
                    &&& st.failures == 0
                    &&& st.last_result is None
                    &&& st.recovery_attempts == 0
                    &&& st.bucket == crate::throttle::TokenBucket {
                        capacity_milli: rate_capacity_milli,
                        refill_milli_per_sec: rate_refill_milli_per_sec,
                        tokens_milli: rate_capacity_milli,
                        last_refill_ms: now_ms,
                    }
                    &&& st.breaker == crate::breaker::CircuitBreaker {
                        failure_threshold: config.checks@[i].retries,
                        success_threshold: 2,
                        half_open_after_ms: 60_000,
                        state: BreakerState::Closed,
                        failures: 0,
                        successes: 0,
                        opened_at_ms: 0,
                    }
                },
    {
        let n = config.checks.len();
        let mut check_states: Vec<CheckState> = Vec::new();
        let mut i: usize = 0;
        while i < n
            invariant
                i <= n,
                n == config.checks@.len(),
                check_states@.len() == i,
                forall|k: int|
                    0 <= k < i ==> {
                        let st = #[trigger] check_states@[k];
                        &&& st.failures == 0
                        &&& st.last_result is None
                        &&& st.recovery_attempts == 0
                        &&& st.bucket.wf()
                        &&& st.bucket == crate::throttle::TokenBucket {
                            capacity_milli: rate_capacity_milli,
                            refill_milli_per_sec: rate_refill_milli_per_sec,
                            tokens_milli: rate_capacity_milli,
                            last_refill_ms: now_ms,
                        }
                        &&& st.breaker == crate::breaker::CircuitBreaker {
                            failure_threshold: config.checks@[k].retries,
                            success_threshold: 2,
                            half_open_after_ms: 60_000,
                            state: BreakerState::Closed,
                            failures: 0,
                            successes: 0,
                            opened_at_ms: 0,
                        }
                    },
            decreases n - i,
        {
            let retries = config.checks[i].retries;
            check_states.push(CheckState {
                failures: 0,
                last_result: None,
                recovery_attempts: 0,
                bucket: TokenBucket::new(rate_capacity_milli, rate_refill_milli_per_sec, now_ms),
                breaker: CircuitBreaker::new(retries, 2, 60_000),
            });
            i = i + 1;
        }
        HealthChecker {
            jail_name: jail_name.to_owned(),
            jid: None,
            config,
            status: HealthStatus::Unknown,
            started_at_ms: now_ms,
            check_states,
            stop_requested: false,
        }
    }

    /// The same monitor with the kernel jail id set.
    pub fn with_jid(self, jid: i32) -> (r: HealthChecker)
        ensures
            r.jid == Some(jid),
            r.wf() == self.wf(),
            r.config.checks == self.config.checks,
            r.check_states == self.check_states,
            r.jail_name == self.jail_name,
            r.status == self.status,
    {
        HealthChecker { jid: Some(jid), ..self }
    }

    /// The most recent overall status.
    pub fn status(&self) -> (r: HealthStatus)
        ensures
            r == self.status,
    {
        self.status
    }

    /// The jail's name.
    pub fn jail_name(&self) -> (r: &str)
        ensures
            r@ == self.jail_name@,
    {
        self.jail_name.as_str()
    }

    /// Ask the monitor loop to stop.
    pub fn stop_signal(&mut self)
        ensures
            final(self).stop_requested,
            final(self).check_states == old(self).check_states,
            final(self).config.checks == old(self).config.checks,
    {
        self.stop_requested = true;
    }

    /// Whether the monitor loop was asked to stop.
    pub fn is_stopped(&self) -> (r: bool)
        ensures
            r == self.stop_requested,
    {
        self.stop_requested
    }

    /// Milliseconds between iterations: the first check's interval, or
    /// thirty seconds without checks.
    pub fn interval_ms(&self) -> (r: u64)
        requires
            forall|i: int|
                0 <= i < self.config.checks@.len() ==> (
                #[trigger] self.config.checks@[i]).interval <= 0xffff_ffff,
        ensures
            self.config.checks@.len() == 0 ==> r == 30_000,
            self.config.checks@.len() > 0 ==> r == self.config.checks@[0].interval * 1000,
    {
        if self.config.checks.len() == 0 {
            30_000
        } else {
            self.config.checks[0].interval * 1000
        }
    }

    /// Whether monitoring is on and there is a check to run.
    pub fn is_enabled(&self) -> (r: bool)
        ensures
            r == (self.config.enabled && self.config.checks@.len() > 0),
    {
        self.config.enabled && self.config.checks.len() > 0
    }

    /// Begin one iteration at time `now`.  While any check's start
    /// period has not passed, the status is `Starting` and nothing runs.
    /// Otherwise each check is admitted, suspended by its open breaker,
    /// or rate-limited by its empty bucket; buckets and breakers advance
    /// accordingly.
    pub fn plan_checks(&mut self, now_ms: u64) -> (r: PlanOutcome)
        requires
            old(self).wf(),
            now_ms >= old(self).started_at_ms,
            forall|i: int|
                0 <= i < old(self).check_states@.len() ==> now_ms >= (
                #[trigger] old(self).check_states@[i]).bucket.last_refill_ms,
            forall|i: int|
                0 <= i < old(self).config.checks@.len() ==> (
                #[trigger] old(self).config.checks@[i]).start_period <= 0xffff_ffff,
        ensures
            final(self).wf(),
            final(self).config.checks == old(self).config.checks,
            final(self).jail_name == old(self).jail_name,
            match r {
                PlanOutcome::Starting => {
                    &&& final(self).status == HealthStatus::Starting
                    &&& exists|i: int|
                        0 <= i < old(self).config.checks@.len() && now_ms - old(
                        self).started_at_ms < (#[trigger] old(
                        self).config.checks@[i]).start_period * 1000
                    &&& final(self).check_states == old(self).check_states
                }
                PlanOutcome::Proceed(ds) => {
                    &&& ds@.len() == old(self).config.checks@.len()
                    &&& final(self).status == old(self).status
                    &&& forall|i: int|
                        0 <= i < old(self).config.checks@.len() ==> now_ms - old(
                        self).started_at_ms >= (#[trigger] old(
                        self).config.checks@[i]).start_period * 1000
                    &&& forall|i: int|
                        0 <= i < ds@.len() ==> ((#[trigger] ds@[i]) == CheckDecision::Suspended
                            <==> (old(self).check_states@[i].breaker.state
                            == BreakerState::Open && now_ms < old(
                        self).check_states@[i].breaker.opened_at_ms + old(
                        self).check_states@[i].breaker.half_open_after_ms))
                    &&& forall|i: int|
                        0 <= i < ds@.len() && (#[trigger] ds@[i]) != CheckDecision::Suspended
                            ==> (ds@[i] == CheckDecision::Execute <==> old(
                        self).check_states@[i].bucket.spec_refilled(now_ms) >= 1000)
                    // planning only consults gates: counters and results
                    // are untouched, a suspended check is untouched
                    // entirely, and the admitted checks' buckets and
                    // breakers advance exactly as their gates say
                    &&& forall|i: int|
                        0 <= i < ds@.len() ==> {
                            let st0 = old(self).check_states@[i];
                            let st1 = #[trigger] final(self).check_states@[i];
                            &&& st1.failures == st0.failures
                            &&& st1.last_result == st0.last_result
                            &&& st1.recovery_attempts == st0.recovery_attempts
                            &&& (ds@[i] == CheckDecision::Suspended ==> st1 == st0)
                            &&& (ds@[i] != CheckDecision::Suspended ==> {
                                &&& st1.bucket.capacity_milli == st0.bucket.capacity_milli
                                &&& st1.bucket.refill_milli_per_sec
                                    == st0.bucket.refill_milli_per_sec
                                &&& st1.bucket.last_refill_ms == now_ms
                                &&& (ds@[i] == CheckDecision::Execute ==> st1
                                    .bucket.tokens_milli == st0.bucket.spec_refilled(now_ms)
                                    - 1000)
                                &&& (ds@[i] == CheckDecision::RateLimited ==> st1
                                    .bucket.tokens_milli == st0.bucket.spec_refilled(now_ms))
                                &&& st1.breaker == (if st0.breaker.state
                                    == BreakerState::Open {
                                    crate::breaker::CircuitBreaker {
                                        state: BreakerState::HalfOpen,
                                        successes: 0,
                                        ..st0.breaker
                                    }
                                } else {
                                    st0.breaker
                                })
                            })
                        }
                }
            },
    {
        let n = self.config.checks.len();
        let mut i: usize = 0;
        while i < n
            invariant
                old(self).wf(),
                n == self.config.checks@.len(),
                i <= n,
                *self == *old(self),
                now_ms >= self.started_at_ms,
                forall|k: int|
                    0 <= k < n ==> (#[trigger] self.config.checks@[k]).start_period
                        <= 0xffff_ffff,
                forall|k: int|
                    0 <= k < i ==> now_ms - self.started_at_ms >= (
                    #[trigger] self.config.checks@[k]).start_period * 1000,
            decreases n - i,
        {
            let elapsed = now_ms - self.started_at_ms;
            if elapsed < self.config.checks[i].start_period * 1000 {
                self.status = HealthStatus::Starting;
                return PlanOutcome::Starting;
            }
            i = i + 1;
        }
        let mut ds: Vec<CheckDecision> = Vec::new();
        let mut k: usize = 0;
        while k < n
            invariant
                old(self).wf(),
                n == self.config.checks@.len(),
                n == self.check_states@.len(),
                k <= n,
                ds@.len() == k,
                self.wf(),
                self.config.checks == old(self).config.checks,
                self.jail_name == old(self).jail_name,
                self.status == old(self).status,
                self.check_states@.len() == old(self).check_states@.len(),
                forall|j: int|
                    0 <= j < old(self).check_states@.len() ==> now_ms >= (
                    #[trigger] old(self).check_states@[j]).bucket.last_refill_ms,
                forall|j: int|
                    k <= j < n ==> #[trigger] self.check_states@[j] == old(
                    self).check_states@[j],
                forall|j: int|
                    0 <= j < k ==> ((#[trigger] ds@[j]) == CheckDecision::Suspended <==> (old(
                    self).check_states@[j].breaker.state == BreakerState::Open && now_ms < old(
                    self).check_states@[j].breaker.opened_at_ms + old(
                    self).check_states@[j].breaker.half_open_after_ms)),
                forall|j: int|
                    0 <= j < k && (#[trigger] ds@[j]) != CheckDecision::Suspended ==> (ds@[j]
                        == CheckDecision::Execute <==> old(
                    self).check_states@[j].bucket.spec_refilled(now_ms) >= 1000),
                forall|j: int|
                    0 <= j < k ==> {
                        let st0 = old(self).check_states@[j];
                        let st1 = #[trigger] self.check_states@[j];
                        &&& st1.failures == st0.failures
                        &&& st1.last_result == st0.last_result
                        &&& st1.recovery_attempts == st0.recovery_attempts
                        &&& (ds@[j] == CheckDecision::Suspended ==> st1 == st0)
                        &&& (ds@[j] != CheckDecision::Suspended ==> {
                            &&& st1.bucket.capacity_milli == st0.bucket.capacity_milli
                            &&& st1.bucket.refill_milli_per_sec
                                == st0.bucket.refill_milli_per_sec
                            &&& st1.bucket.last_refill_ms == now_ms
                            &&& (ds@[j] == CheckDecision::Execute ==> st1.bucket.tokens_milli
                                == st0.bucket.spec_refilled(now_ms) - 1000)
                            &&& (ds@[j] == CheckDecision::RateLimited ==> st1
                                .bucket.tokens_milli == st0.bucket.spec_refilled(now_ms))
                            &&& st1.breaker == (if st0.breaker.state == BreakerState::Open {
                                crate::breaker::CircuitBreaker {
                                    state: BreakerState::HalfOpen,
                                    successes: 0,
                                    ..st0.breaker
                                }
                            } else {
                                st0.breaker
                            })
                        })
                    },
            decreases n - k,
        {
            let ghost pre = self.check_states@;
            let mut st = self.check_states.remove(k);
            let admitted = st.breaker.allow_request(now_ms);
            let decision: CheckDecision;
            if !admitted {
                decision = CheckDecision::Suspended;
            } else {
                let (allowed, _retry) = st.bucket.check(now_ms);
                if allowed {
                    decision = CheckDecision::Execute;
                } else {
                    decision = CheckDecision::RateLimited;
                }
            }
            self.check_states.insert(k, st);
            ds.push(decision);
            proof {
                assert forall|j: int|
                    0 <= j < self.check_states@.len() && j != k
                    implies #[trigger] self.check_states@[j] == pre[j] by {
                    if j < k {
                        assert(pre.remove(k as int)[j] == pre[j]);
                    } else {
                        assert(pre.remove(k as int)[j - 1] == pre[j]);
                    }
                }
            }
            k = k + 1;
        }
        PlanOutcome::Proceed(ds)
    }

    /// Finish one iteration: record the outcomes the caller observed,
    /// advance failure counters and breakers, store results, compute the
    /// overall status, and name the checks whose recovery is now due.
    pub fn apply_results(
        &mut self,
        now_ms: u64,
        decisions: &Vec<CheckDecision>,
        results: Vec<Option<CheckOutcome>>,
    ) -> (r: (HealthStatus, Vec<usize>))
        requires
            old(self).wf(),
            decisions@.len() == old(self).config.checks@.len(),
            results@.len() == old(self).config.checks@.len(),
            forall|i: int|
                0 <= i < decisions@.len() ==> ((#[trigger] decisions@[i])
                    == CheckDecision::Execute <==> results@[i] is Some),
        ensures
            final(self).wf(),
            final(self).config.checks == old(self).config.checks,
            final(self).jail_name == old(self).jail_name,
            final(self).check_states@.len() == old(self).check_states@.len(),
            forall|i: int|
                0 <= i < results@.len() ==> (match #[trigger] results@[i] {
                    Some(o) => {
                        if o.passed {
                            final(self).check_states@[i].failures == 0 && final(
                                self).check_states@[i].recovery_attempts == 0
                        } else {
                            final(self).check_states@[i].failures == sat_inc32(
                                old(self).check_states@[i].failures)
                        }
                    }
                    None => final(self).check_states@[i].failures == old(
                        self).check_states@[i].failures && final(
                        self).check_states@[i].recovery_attempts == old(
                        self).check_states@[i].recovery_attempts,
                }),
            forall|i: int|
                0 <= i < decisions@.len() && (#[trigger] decisions@[i])
                    == CheckDecision::RateLimited ==> final(self).check_states@[i].last_result
                    == old(self).check_states@[i].last_result,
            // buckets rest in this half; breakers record exactly the
            // observed outcomes; an executed check stores its result, a
            // suspended one stores the synthetic suspension result, and
            // a rate-limited one is untouched entirely
            forall|i: int|
                0 <= i < results@.len() ==> {
                    let st0 = old(self).check_states@[i];
                    let st1 = #[trigger] final(self).check_states@[i];
                    &&& st1.bucket == st0.bucket
                    &&& (match results@[i] {
                        Some(o) => st1.breaker == (if o.passed {
                            crate::breaker::spec_after_success(st0.breaker)
                        } else {
                            crate::breaker::spec_after_failure(st0.breaker, now_ms)
                        }) && (st1.last_result matches Some(cr) && cr.name@ == old(
                            self).config.checks@[i].name@ && cr.passed == o.passed
                            && cr.output@ == o.output@ && cr.duration_ms == o.duration_ms
                            && cr.timestamp_ms == now_ms),
                        None => st1.breaker == st0.breaker && (decisions@[i]
                            == CheckDecision::Suspended ==> (st1.last_result matches Some(cr)
                            && !cr.passed && cr.output@
                            == "Circuit breaker open - check suspended"@ && cr.name@ == old(
                            self).config.checks@[i].name@ && cr.duration_ms == 0
                            && cr.timestamp_ms == now_ms)) && (decisions@[i]
                            == CheckDecision::RateLimited ==> st1 == st0),
                    })
                },
            r.0 == final(self).status,
            r.0 == spec_overall_status(
                spec_any_suspended(decisions@),
                spec_any_failing(old(self).check_states@, old(self).config.checks@, results@),
                spec_all_healthy(decisions@, results@),
            ),
            r.1@ == spec_due_recoveries(
                old(self).check_states@,
                old(self).config.checks@,
                results@,
                results@.len() as int,
            ),
    {
        let n = self.config.checks.len();
        let mut due: Vec<usize> = Vec::new();
        let mut any_susp = false;
        let mut any_fail = false;
        let mut all_healthy = true;
        let mut i: usize = 0;
        let ghost orig_states = self.check_states@;
        let ghost checks0 = self.config.checks@;
        proof {
            assert(spec_due_recoveries(orig_states, checks0, results@, 0) =~= Seq::<
                usize>::empty());
        }
        while i < n
            invariant
                old(self).wf(),
                n == self.config.checks@.len(),
                n == self.check_states@.len(),
                i <= n,
                orig_states == old(self).check_states@,
                checks0 == old(self).config.checks@,
                decisions@.len() == n,
                results@.len() == n,
                forall|j: int|
                    0 <= j < decisions@.len() ==> ((#[trigger] decisions@[j])
                        == CheckDecision::Execute <==> results@[j] is Some),
                self.wf(),
                self.config.checks == old(self).config.checks,
                self.jail_name == old(self).jail_name,
                self.status == old(self).status,
                forall|j: int| i <= j < n ==> #[trigger] self.check_states@[j] == orig_states[j],
                forall|j: int|
                    0 <= j < i ==> (match #[trigger] results@[j] {
                        Some(o) => {
                            if o.passed {
                                self.check_states@[j].failures == 0
                                    && self.check_states@[j].recovery_attempts == 0
                            } else {
                                self.check_states@[j].failures == sat_inc32(
                                    orig_states[j].failures)
                            }
                        }
                        None => self.check_states@[j].failures == orig_states[j].failures
                            && self.check_states@[j].recovery_attempts
                            == orig_states[j].recovery_attempts,
                    }),
                forall|j: int|
                    0 <= j < i && (#[trigger] decisions@[j]) == CheckDecision::RateLimited
                        ==> self.check_states@[j].last_result == orig_states[j].last_result,
                forall|j: int|
                    0 <= j < i ==> {
                        let st0 = orig_states[j];
                        let st1 = #[trigger] self.check_states@[j];
                        &&& st1.bucket == st0.bucket
                        &&& (match results@[j] {
                            Some(o) => st1.breaker == (if o.passed {
                                crate::breaker::spec_after_success(st0.breaker)
                            } else {
                                crate::breaker::spec_after_failure(st0.breaker, now_ms)
                            }) && (st1.last_result matches Some(cr) && cr.name@
                                == checks0[j].name@ && cr.passed == o.passed && cr.output@
                                == o.output@ && cr.duration_ms == o.duration_ms
                                && cr.timestamp_ms == now_ms),
                            None => st1.breaker == st0.breaker && (decisions@[j]
                                == CheckDecision::Suspended ==> (st1.last_result
                                matches Some(cr) && !cr.passed && cr.output@
                                == "Circuit breaker open - check suspended"@ && cr.name@
                                == checks0[j].name@ && cr.duration_ms == 0 && cr.timestamp_ms
                                == now_ms)) && (decisions@[j] == CheckDecision::RateLimited
                                ==> st1 == st0),
                        })
                    },
                any_susp == exists|j: int|
                    0 <= j < i && (#[trigger] decisions@[j]) == CheckDecision::Suspended,
                any_fail == exists|j: int|
                    0 <= j < i && spec_fail_cond(orig_states, checks0, results@, j),
                all_healthy == ((forall|j: int|
                    0 <= j < i ==> (#[trigger] decisions@[j]) != CheckDecision::Suspended)
                    && (forall|j: int|
                    0 <= j < i ==> (match #[trigger] results@[j] {
                        Some(o) => o.passed,
                        None => true,
                    }))),
                due@ == spec_due_recoveries(orig_states, checks0, results@, i as int),
            decreases n - i,
        {
            let ghost pre = self.check_states@;
            let mut st = self.check_states.remove(i);
            let decision = decisions[i];
            match &results[i] {
                Some(o) => {
                    if o.passed {
                        st.failures = 0;
                        st.recovery_attempts = 0;
                        st.breaker.record_success();
                    } else {
                        if st.failures < 0xffff_ffff {
                            st.failures = st.failures + 1;
                        }
                        proof {
                            assert(st.failures == sat_inc32(orig_states[i as int].failures));
                        }
                        st.breaker.record_failure(now_ms);
                        all_healthy = false;
                        if st.failures >= self.config.checks[i].retries {
                            any_fail = true;
                            proof {
                                assert(spec_fail_cond(
                                    orig_states, checks0, results@, i as int));
                            }
                            if has_recovery(&self.config.checks[i]) {
                                due.push(i);
                            }
                        } else {
                            proof {
                                assert(!spec_fail_cond(
                                    orig_states, checks0, results@, i as int));
                            }
                        }
                    }
                    st.last_result = Some(CheckResult {
                        name: self.config.checks[i].name.clone(),
                        passed: o.passed,
                        duration_ms: o.duration_ms,
                        output: o.output.clone(),
                        timestamp_ms: now_ms,
                    });
                }
                None => {
                    if matches!(decision, CheckDecision::Suspended) {
                        any_susp = true;
                        all_healthy = false;
                        st.last_result = Some(CheckResult {
                            name: self.config.checks[i].name.clone(),
                            passed: false,
                            duration_ms: 0,
                            output: String::from_str(
                                "Circuit breaker open - check suspended"),
                            timestamp_ms: now_ms,
                        });
                    }
                }
            }
            self.check_states.insert(i, st);
            proof {
                assert forall|j: int|
                    0 <= j < self.check_states@.len() && j != i
                    implies #[trigger] self.check_states@[j] == pre[j] by {
                    if j < i {
                        assert(pre.remove(i as int)[j] == pre[j]);
                    } else {
                        assert(pre.remove(i as int)[j - 1] == pre[j]);
                    }
                }
                assert(spec_due_recoveries(orig_states, checks0, results@, i + 1) =~= (
                if spec_fail_cond(orig_states, checks0, results@, i as int) && checks0[
                    i as int].recovery is Some {
                    spec_due_recoveries(orig_states, checks0, results@, i as int).push(
                        i as usize)
                } else {
                    spec_due_recoveries(orig_states, checks0, results@, i as int)
                }));
            }
            i = i + 1;
        }
        let status = if any_susp && !any_fail {
            HealthStatus::Suspended
        } else if any_fail {
            HealthStatus::Failing
        } else if all_healthy {
            HealthStatus::Healthy
        } else {
            HealthStatus::Unhealthy
        };
        self.status = status;
        (status, due)
    }

    /// Gate one due recovery: when the attempt budget is spent, nothing
    /// happens; otherwise the attempt is counted and the policy to carry
    /// out is returned.
    pub fn note_recovery(&mut self, idx: usize) -> (r: Option<RecoveryConfig>)
        requires
            old(self).wf(),
            idx < old(self).config.checks@.len(),
            old(self).config.checks@[idx as int].recovery is Some,
        ensures
            final(self).wf(),
            final(self).config.checks == old(self).config.checks,
            ({
                let policy = old(self).config.checks@[idx as int].recovery->Some_0;
                if old(self).check_states@[idx as int].recovery_attempts >= policy.max_attempts {
                    r is None && final(self).check_states == old(self).check_states
                } else {
                    r is Some && final(self).check_states@[idx as int].recovery_attempts == old(
                        self).check_states@[idx as int].recovery_attempts + 1
                }
            }),
            // the policy handed out is the check's own recovery block
            r matches Some(p) ==> ({
                let q = old(self).config.checks@[idx as int].recovery->Some_0;
                &&& p.max_attempts == q.max_attempts
                &&& p.cooldown == q.cooldown
                &&& (match (p.action, q.action) {
                    (
                        crate::recovery::RecoveryAction::NoAction,
                        crate::recovery::RecoveryAction::NoAction,
                    ) => true,
                    (
                        crate::recovery::RecoveryAction::Restart,
                        crate::recovery::RecoveryAction::Restart,
                    ) => true,
                    (
                        crate::recovery::RecoveryAction::Stop,
                        crate::recovery::RecoveryAction::Stop,
                    ) => true,
                    (
                        crate::recovery::RecoveryAction::Command(a),
                        crate::recovery::RecoveryAction::Command(b),
                    ) => a@ == b@,
                    _ => false,
                })
            }),
    {
        let ghost pre = self.check_states@;
        let max_attempts = match &self.config.checks[idx].recovery {
            Some(p) => p.max_attempts,
            None => 0,
        };
        if self.check_states[idx].recovery_attempts >= max_attempts {
            return None;
        }
        let mut st = self.check_states.remove(idx);
        st.recovery_attempts = st.recovery_attempts + 1;
        self.check_states.insert(idx, st);
        proof {
            assert forall|j: int|
                0 <= j < self.check_states@.len() && j != idx
                implies #[trigger] self.check_states@[j] == pre[j] by {
                if j < idx {
                    assert(pre.remove(idx as int)[j] == pre[j]);
                } else {
                    assert(pre.remove(idx as int)[j - 1] == pre[j]);
                }
            }
        }
        let policy = match &self.config.checks[idx].recovery {
            Some(p) => p.duplicate(),
            None => RecoveryConfig::new(),
        };
        Some(policy)
    }

    /// The name and consecutive-failure count of every check, in order.
    pub fn get_check_results(&self) -> (r: Vec<(String, u32)>)
        requires
            self.wf(),
        ensures
            r@.len() == self.config.checks@.len(),
            forall|i: int|
                0 <= i < r@.len() ==> (#[trigger] r@[i]).0@ == self.config.checks@[i].name@
                    && r@[i].1 == self.check_states@[i].failures,
    {
        let mut out: Vec<(String, u32)> = Vec::new();
        let mut i: usize = 0;
        while i < self.config.checks.len()
            invariant
                self.wf(),
                i <= self.config.checks@.len(),
                out@.len() == i,
                forall|k: int|
                    0 <= k < i ==> (#[trigger] out@[k]).0@ == self.config.checks@[k].name@
                        && out@[k].1 == self.check_states@[k].failures,
            decreases self.config.checks@.len() - i,
        {
            out.push((self.config.checks[i].name.clone(), self.check_states[i].failures));
            i = i + 1;
        }
        out
    }
}

/// One check's outcome as the caller observed it.
#[derive(Debug)]
pub struct CheckOutcome {
    /// Whether the command exited successfully.
    pub passed: bool,
    /// Combined output (or the timeout message).
    pub output: String,
    /// How long the command ran, in milliseconds.
    pub duration_ms: u64,
}

/// A failure counter one higher, capped at its range.
pub open spec fn sat_inc32(a: u32) -> u32 {
    if a == 0xffff_ffff {
        a
    } else {
        (a + 1) as u32
    }
}

/// Whether any check was suspended this iteration.
pub open spec fn spec_any_suspended(decisions: Seq<CheckDecision>) -> bool {
    exists|j: int| 0 <= j < decisions.len() && (#[trigger] decisions[j])
        == CheckDecision::Suspended
}

/// Whether check `j` failed this iteration and its failure run reached
/// its retry count.
pub open spec fn spec_fail_cond(
    states: Seq<CheckState>,
    checks: Seq<HealthCheck>,
    results: Seq<Option<CheckOutcome>>,
    j: int,
) -> bool {
    &&& 0 <= j < results.len()
    &&& results[j] matches Some(o) && !o.passed
    &&& sat_inc32(states[j].failures) >= checks[j].retries
}

/// Whether some check's failure run reached its retry count this
/// iteration.
pub open spec fn spec_any_failing(
    states: Seq<CheckState>,
    checks: Seq<HealthCheck>,
    results: Seq<Option<CheckOutcome>>,
) -> bool {
    exists|j: int| spec_fail_cond(states, checks, results, j)
}

/// Whether nothing was suspended and every executed check passed.
pub open spec fn spec_all_healthy(
    decisions: Seq<CheckDecision>,
    results: Seq<Option<CheckOutcome>>,
) -> bool {
    &&& forall|j: int|
        0 <= j < decisions.len() ==> (#[trigger] decisions[j]) != CheckDecision::Suspended
    &&& forall|j: int|
        0 <= j < results.len() ==> (match #[trigger] results[j] {
            Some(o) => o.passed,
            None => true,
        })
}

/// The checks below `n` whose recovery became due this iteration, in
/// order: those that failed past their retry count and carry a recovery
/// policy.
pub open spec fn spec_due_recoveries(
    states: Seq<CheckState>,
    checks: Seq<HealthCheck>,
    results: Seq<Option<CheckOutcome>>,
    n: int,
) -> Seq<usize>
    decreases n,
{
    if n <= 0 {
        Seq::empty()
    } else {
        let rest = spec_due_recoveries(states, checks, results, n - 1);
        if spec_fail_cond(states, checks, results, n - 1) && checks[n - 1].recovery is Some {
            rest.push((n - 1) as usize)
        } else {
            rest
        }
    }
}

/// Whether a check carries a recovery policy.
fn has_recovery(check: &HealthCheck) -> (r: bool)
    ensures
        r == (check.recovery is Some),
{
    matches!(check.recovery, Some(_))
}

} // verus!
