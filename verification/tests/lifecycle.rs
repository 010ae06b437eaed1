//! Tests of the jail lifecycle machine, the supervisor bookkeeping and
//! the rate-limiting primitives.

use blackship::backoff::ExponentialBackoff;
use blackship::breaker::{BreakerState, CircuitBreaker};
use blackship::state::{JailConfig, JailInstance, State};
use blackship::throttle::TokenBucket;
use blackship::warden::{RestartState, Warden, WardenDirective, WardenEvent};

fn instance() -> JailInstance {
    JailInstance::new(JailConfig::new("test", "/jails/test"))
}

#[test]
fn test_initial_state() {
    let machine = instance();
    assert_eq!(machine.state(), State::Stopped);
}

#[test]
fn test_start_transition() {
    let mut machine = instance();
    assert!(machine.start().is_ok());
    assert_eq!(machine.state(), State::Starting);
}

#[test]
fn test_full_lifecycle() {
    let mut machine = instance();

    machine.start().unwrap();
    assert_eq!(machine.state(), State::Starting);

    machine.started().unwrap();
    assert_eq!(machine.state(), State::Running);

    machine.stop().unwrap();
    assert_eq!(machine.state(), State::Stopping);

    machine.stopped().unwrap();
    assert_eq!(machine.state(), State::Stopped);
}

#[test]
fn test_fail_and_recover() {
    let mut machine = instance();

    machine.start().unwrap();
    machine.fail().unwrap();
    assert_eq!(machine.state(), State::Failed);

    machine.recover().unwrap();
    assert_eq!(machine.state(), State::Stopped);
}

#[test]
fn test_invalid_transition() {
    let mut machine = instance();
    // Can't stop from Stopped state
    assert!(machine.stop().is_err());
    // ... and the rejected event changes nothing
    assert_eq!(machine.state(), State::Stopped);
}

#[test]
fn test_jail_instance() {
    let config = JailConfig::new("test", "/jails/test");
    let mut instance = JailInstance::new(config);

    assert_eq!(instance.state(), State::Stopped);

    instance.start().unwrap();
    assert_eq!(instance.state(), State::Starting);

    instance.started().unwrap();
    assert!(instance.is_running());
}

#[test]
fn test_restart_state_backoff() {
    let state = RestartState::new();
    assert!(state.should_retry());
    let delay = state.backoff.delay_ms(state.attempts, 500);
    assert!(delay.is_some());
}

#[test]
fn test_restart_state_reset() {
    let mut state = RestartState::new();
    state.attempts = 5;
    state.reset();
    assert_eq!(state.attempts, 0);
}

#[test]
fn warden_started_resets_attempt_run() {
    // A failure schedules a restart with the first-attempt delay; after a
    // successful start, the next failure counts a fresh run and gets the
    // same first-attempt delay, not a longer one.
    let mut warden = Warden::new();
    let fail = WardenEvent::JailFailed { name: String::from("web") };
    let first = warden.handle_event(&fail, 0, 0);
    let first_delay = match first {
        WardenDirective::Restart { ref name, delay_ms } => {
            assert_eq!(name, "web");
            delay_ms
        }
        _ => panic!("a first failure must schedule a restart"),
    };
    // base delay 1000 ms, jitter window 500 ms, jitter input 0: 750 ms
    assert_eq!(first_delay, 750);

    let started = WardenEvent::JailStarted { name: String::from("web") };
    let d = warden.handle_event(&started, 1000, 0);
    assert!(matches!(d, WardenDirective::Continue));

    let fail2 = WardenEvent::JailFailed { name: String::from("web") };
    let second = warden.handle_event(&fail2, 2000, 0);
    match second {
        WardenDirective::Restart { delay_ms, .. } => assert_eq!(delay_ms, first_delay),
        _ => panic!("a failure after a reset must schedule a restart"),
    }
}

#[test]
fn warden_stop_drops_bookkeeping() {
    let mut warden = Warden::new();
    let fail = WardenEvent::JailFailed { name: String::from("db") };
    let _ = warden.handle_event(&fail, 0, 0);
    let stop = WardenEvent::JailStopped { name: String::from("db") };
    let d = warden.handle_event(&stop, 1, 0);
    assert!(matches!(d, WardenDirective::Continue));
    assert_eq!(warden.restart_states.len(), 0);
}

#[test]
fn warden_gives_up_after_the_attempt_budget() {
    // ten failures in a row exhaust the backoff's attempts; the breaker
    // (threshold five) opens even earlier — either way no restart is
    // scheduled any more
    let mut warden = Warden::new();
    let mut restarts = 0;
    for k in 0..12u64 {
        let fail = WardenEvent::JailFailed { name: String::from("db") };
        if matches!(
            warden.handle_event(&fail, k * 1000, 0),
            WardenDirective::Restart { .. }
        ) {
            restarts += 1;
        }
    }
    assert!(restarts <= 5);
    let fail = WardenEvent::JailFailed { name: String::from("db") };
    assert!(matches!(warden.handle_event(&fail, 20_000, 0), WardenDirective::Continue));
}

#[test]
fn warden_shutdown_quits() {
    let mut warden = Warden::new();
    let d = warden.handle_event(&WardenEvent::Shutdown, 0, 0);
    assert!(matches!(d, WardenDirective::Quit));
}

#[test]
fn token_bucket_zero_capacity_blocks() {
    // capacity zero: no token is ever granted, however long we wait
    let mut bucket = TokenBucket::new(0, 1000, 0);
    let (allowed, _) = bucket.check(0);
    assert!(!allowed);
    let (allowed, _) = bucket.check(1_000_000);
    assert!(!allowed);
}

#[test]
fn token_bucket_grants_and_refills() {
    let mut bucket = TokenBucket::new(2000, 1000, 0);
    let (a1, _) = bucket.check(0);
    let (a2, _) = bucket.check(0);
    let (a3, retry) = bucket.check(0);
    assert!(a1 && a2);
    assert!(!a3);
    assert!(retry > 0);
    // one second refills one token
    let (a4, _) = bucket.check(1000);
    assert!(a4);
}

#[test]
fn breaker_opens_and_recovers() {
    let mut b = CircuitBreaker::new(2, 1, 1000);
    assert!(b.is_closed());
    b.record_failure(0);
    assert!(b.is_closed());
    b.record_failure(10);
    assert_eq!(b.state, BreakerState::Open);
    // still cooling down
    let mut b2 = b;
    assert!(!b2.allow_request(500));
    // after the cool-down a trial request is admitted
    assert!(b2.allow_request(1500));
    assert_eq!(b2.state, BreakerState::HalfOpen);
    b2.record_success();
    assert_eq!(b2.state, BreakerState::Closed);
}

#[test]
fn backoff_caps_at_maximum() {
    let b = ExponentialBackoff {
        base_delay_ms: 1000,
        max_delay_ms: 4000,
        multiplier_permille: 2000,
        max_attempts: 10,
        jitter_permille: 0,
    };
    assert_eq!(b.delay_ms(0, 0), Some(1000));
    assert_eq!(b.delay_ms(1, 0), Some(2000));
    assert_eq!(b.delay_ms(2, 0), Some(4000));
    assert_eq!(b.delay_ms(3, 0), Some(4000));
    assert_eq!(b.delay_ms(10, 0), None);
}
