//! Tests of the health-monitoring iteration: gating, status and
//! recovery escalation.

use blackship::health::{CheckDecision, CheckOutcome, HealthCheck, HealthCheckConfig,
    HealthChecker, HealthStatus, PlanOutcome};
use blackship::recovery::RecoveryConfig;

fn failing_outcome() -> CheckOutcome {
    CheckOutcome { passed: false, output: String::from("exit 1"), duration_ms: 5 }
}

fn passing_outcome() -> CheckOutcome {
    CheckOutcome { passed: true, output: String::new(), duration_ms: 5 }
}

fn run_iteration(checker: &mut HealthChecker, now: u64, passed: bool) -> (HealthStatus, Vec<
    usize>) {
    match checker.plan_checks(now) {
        PlanOutcome::Starting => panic!("still in the start period at {now}"),
        PlanOutcome::Proceed(ds) => {
            assert_eq!(ds.len(), 1);
            assert_eq!(ds[0], CheckDecision::Execute);
            let outcome = if passed { passing_outcome() } else { failing_outcome() };
            checker.apply_results(now, &ds, vec![Some(outcome)])
        }
    }
}

fn checker_with(retries: u32, recovery: Option<RecoveryConfig>) -> HealthChecker {
    let mut check = HealthCheck::new("svc", "check-svc").with_retries(retries);
    check.start_period = 0;
    check.recovery = recovery;
    let config = HealthCheckConfig::enabled().with_check(check);
    // a roomy bucket so rate limiting never interferes here
    HealthChecker::with_rate_limit("web", config, 1_000_000, 1_000_000, 0)
}

#[test]
fn start_period_reports_starting() {
    let check = HealthCheck::new("svc", "true"); // one-minute start period
    let config = HealthCheckConfig::enabled().with_check(check);
    let mut checker = HealthChecker::with_rate_limit("web", config, 1_000_000, 1_000_000, 0);
    match checker.plan_checks(10_000) {
        PlanOutcome::Starting => {}
        PlanOutcome::Proceed(_) => panic!("the start period must gate the first minute"),
    }
    assert_eq!(checker.status(), HealthStatus::Starting);
}

#[test]
fn third_failure_escalates_once() {
    let mut checker = checker_with(3, Some(RecoveryConfig::restart()));
    let (s1, r1) = run_iteration(&mut checker, 1_000, false);
    assert_eq!(s1, HealthStatus::Unhealthy);
    assert!(r1.is_empty());
    let (s2, r2) = run_iteration(&mut checker, 2_000, false);
    assert_eq!(s2, HealthStatus::Unhealthy);
    assert!(r2.is_empty());
    let (s3, r3) = run_iteration(&mut checker, 3_000, false);
    assert_eq!(s3, HealthStatus::Failing);
    assert_eq!(r3, vec![0]);
    // the recovery gate admits the first attempt and counts it
    let policy = checker.note_recovery(0);
    assert!(policy.is_some());
}

#[test]
fn success_resets_the_failure_run() {
    let mut checker = checker_with(3, None);
    let _ = run_iteration(&mut checker, 1_000, false);
    let _ = run_iteration(&mut checker, 2_000, false);
    let (s, _) = run_iteration(&mut checker, 3_000, true);
    assert_eq!(s, HealthStatus::Healthy);
    // two more failures stay under the threshold: the run restarted
    let _ = run_iteration(&mut checker, 4_000, false);
    let (s5, r5) = run_iteration(&mut checker, 5_000, false);
    assert_eq!(s5, HealthStatus::Unhealthy);
    assert!(r5.is_empty());
}

#[test]
fn short_interval_iterations_all_run() {
    // interval five seconds, timeout ten: consecutive iterations still
    // each execute the check rather than being collapsed
    let mut check = HealthCheck::new("svc", "true").with_interval(5).with_timeout(10);
    check.start_period = 0;
    let config = HealthCheckConfig::enabled().with_check(check);
    let mut checker = HealthChecker::with_rate_limit("web", config, 1_000_000, 1_000_000, 0);
    for k in 0..3u64 {
        let (s, _) = run_iteration(&mut checker, 1_000 + k * 5_000, true);
        assert_eq!(s, HealthStatus::Healthy);
    }
}

#[test]
fn recovery_attempts_are_bounded() {
    let mut checker = checker_with(2, Some(RecoveryConfig::restart().with_max_attempts(1)));
    let _ = run_iteration(&mut checker, 1_000, false);
    let (_, due) = run_iteration(&mut checker, 2_000, false);
    assert_eq!(due, vec![0]);
    assert!(checker.note_recovery(0).is_some());
    // the budget is one: the next recovery is refused
    assert!(checker.note_recovery(0).is_none());
}

#[test]
fn open_breaker_suspends_the_check() {
    // retries = 1: the first failure opens the check's breaker, and the
    // next iteration suspends the check instead of running it
    let mut checker = checker_with(1, None);
    let (s1, _) = run_iteration(&mut checker, 1_000, false);
    assert_eq!(s1, HealthStatus::Failing);
    match checker.plan_checks(2_000) {
        PlanOutcome::Proceed(ds) => {
            assert_eq!(ds[0], CheckDecision::Suspended);
            let (s2, _) = checker.apply_results(2_000, &ds, vec![None]);
            assert_eq!(s2, HealthStatus::Suspended);
        }
        PlanOutcome::Starting => panic!("past the start period"),
    }
}
