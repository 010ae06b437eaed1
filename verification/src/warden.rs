//! The supervisor: consumes jail lifecycle events in arrival order and
//! decides, one event at a time, whether to schedule a restart.
//!
//! Each jail carries a restart state: an attempt counter, an exponential
//! backoff and a circuit breaker.  A failure event asks for a restart
//! after the backoff delay unless the breaker is open or the attempts are
//! used up; a started event resets the counter; an intentional stop drops
//! the state so the jail is not restarted.  The event loop around this
//! module performs the sleeps and the restarts and feeds back the
//! outcome.

use vstd::prelude::*;
use crate::backoff::ExponentialBackoff;
use crate::breaker::{BreakerState, CircuitBreaker};

verus! {

/// Events the supervisor receives.
#[derive(Debug)]
pub enum WardenEvent {
    /// A jail failed (crashed or failed to start).
    JailFailed { name: String },
    /// A jail's health check failed.
    JailHealthFailed { name: String },
    /// A jail started successfully.
    JailStarted { name: String },
    /// A jail was stopped on purpose.
    JailStopped { name: String },
    /// Shut the supervisor down.
    Shutdown,
}

/// What the event loop must do after one event.
#[derive(Debug)]
pub enum WardenDirective {
    /// Wait for the delay, then restart the named jail.
    Restart { name: String, delay_ms: u64 },
    /// Nothing to do for this event.
    Continue,
    /// Drain and exit.
    Quit,
}

/// Restart bookkeeping for one jail.
pub struct RestartState {
    /// Restart attempts since the last successful start.
    pub attempts: u8,
    /// The backoff policy.
    pub backoff: ExponentialBackoff,
    /// The per-jail circuit breaker.
    pub breaker: CircuitBreaker,
}

/// The bookkeeping a jail starts with: zero attempts, a one-second base
/// delay doubling up to a minute over ten attempts with half-width
/// jitter, and a closed breaker that opens after five failures, closes
/// after two successes and cools down for five minutes.
pub open spec fn spec_fresh_restart() -> RestartState {
    RestartState {
        attempts: 0,
        backoff: ExponentialBackoff {
            base_delay_ms: 1000,
            max_delay_ms: 60000,
            multiplier_permille: 2000,
            max_attempts: 10,
            jitter_permille: 500,
        },
        breaker: CircuitBreaker {
            failure_threshold: 5,
            success_threshold: 2,
            half_open_after_ms: 300_000,
            state: BreakerState::Closed,
            failures: 0,
            successes: 0,
            opened_at_ms: 0,
        },
    }
}

impl RestartState {
    /// A fresh restart state, as `spec_fresh_restart` lays it out.
    pub fn new() -> (r: RestartState)
        ensures
            r == spec_fresh_restart(),
            r.backoff.wf(),
    {
        RestartState {
            attempts: 0,
            backoff: ExponentialBackoff {
                base_delay_ms: 1000,
                max_delay_ms: 60000,
                multiplier_permille: 2000,
                max_attempts: 10,
                jitter_permille: 500,
            },
            breaker: CircuitBreaker::new(5, 2, 300_000),
        }
    }

    /// A successful start: the attempt run ends and the breaker records
    /// the success.
    pub fn reset(&mut self)
        ensures
            final(self).attempts == 0,
            final(self).backoff == old(self).backoff,
            final(self).breaker == crate::breaker::spec_after_success(old(self).breaker),
    {
        self.attempts = 0;
        self.breaker.record_success();
    }

    /// A failed restart: one more attempt, recorded on the breaker.
    pub fn record_failure(&mut self, now_ms: u64)
        ensures
            final(self).attempts == saturating_inc(old(self).attempts),
            final(self).backoff == old(self).backoff,
            final(self).breaker == crate::breaker::spec_after_failure(
                old(self).breaker, now_ms),
    {
        if self.attempts < 255 {
            self.attempts = self.attempts + 1;
        }
        self.breaker.record_failure(now_ms);
    }

    /// Whether a restart may be attempted: the breaker is closed and the
    /// backoff still offers attempts.
    pub fn should_retry(&self) -> (r: bool)
        ensures
            r == (self.breaker.state == BreakerState::Closed && self.attempts
                < self.backoff.max_attempts),
    {
        self.breaker.is_closed() && self.backoff.should_retry(self.attempts)
    }
}

/// An attempt counter one higher, capped at its range.
pub open spec fn saturating_inc(a: u8) -> u8 {
    if a == 255 {
        255u8
    } else {
        (a + 1) as u8
    }
}

/// How the attempt counter of one jail evolves when the supervisor
/// handles one event concerning it.  `retry_granted` says whether a
/// failure event led to a scheduled restart.
pub open spec fn spec_attempts_step(
    cur: Option<u8>,
    started: bool,
    stopped: bool,
    retry_granted: bool,
) -> Option<u8> {
    if started {
        match cur {
            Some(_) => Some(0u8),
            None => None,
        }
    } else if stopped {
        None
    } else {
        // a failure event
        let a0 = match cur {
            Some(a) => a,
            None => 0u8,
        };
        if retry_granted {
            Some(saturating_inc(a0))
        } else {
            Some(a0)
        }
    }
}

/// A started event wipes the attempt count, whatever failures came
/// before, so a later failure counts a fresh run: after
/// failure, started, failure the counter reads one, not the old run plus
/// one.
pub proof fn lemma_started_resets_attempts(cur: Option<u8>, g1: bool)
    requires
        cur is Some,
    ensures
        spec_attempts_step(
            spec_attempts_step(spec_attempts_step(cur, false, false, g1), true, false, false),
            false,
            false,
            true,
        ) == Some(1u8),
{
}

/// The tracked entries of the supervisor.
pub type Entries = Seq<(String, RestartState)>;

/// Entries carry distinct names.
pub open spec fn entries_wf(entries: Entries) -> bool {
    &&& forall|i: int, j: int|
        0 <= i < j < entries.len() ==> (#[trigger] entries[i]).0@ != (
        #[trigger] entries[j]).0@
    &&& forall|i: int| 0 <= i < entries.len() ==> (#[trigger] entries[i]).1.backoff.wf()
}

/// The attempt counter recorded for `name`, if it is tracked.
pub open spec fn attempts_in(entries: Entries, name: Seq<char>) -> Option<u8> {
    if exists|i: int| 0 <= i < entries.len() && (#[trigger] entries[i]).0@ == name {
        let i = choose|i: int| 0 <= i < entries.len() && (#[trigger] entries[i]).0@ == name;
        Some(entries[i].1.attempts)
    } else {
        None
    }
}

/// The whole restart state recorded for `name`, if it is tracked.
pub open spec fn state_in(entries: Entries, name: Seq<char>) -> Option<RestartState> {
    if exists|i: int| 0 <= i < entries.len() && (#[trigger] entries[i]).0@ == name {
        let i = choose|i: int| 0 <= i < entries.len() && (#[trigger] entries[i]).0@ == name;
        Some(entries[i].1)
    } else {
        None
    }
}

/// The restart state a failure event starts from: the tracked one, or a
/// fresh one for a jail seen failing for the first time.
pub open spec fn effective_state(entries: Entries, name: Seq<char>) -> RestartState {
    match state_in(entries, name) {
        Some(s) => s,
        None => spec_fresh_restart(),
    }
}

/// Whether a failure of this jail may schedule a restart: its breaker
/// is closed and its attempt budget is not spent.
pub open spec fn spec_retry_granted(s: RestartState) -> bool {
    s.breaker.state == BreakerState::Closed && s.attempts < s.backoff.max_attempts
}

/// When an entry for `name` stands at index `i` and names are distinct,
/// the state read for `name` is that entry's.
proof fn lemma_state_in_at(entries: Entries, name: Seq<char>, i: int)
    requires
        entries_wf(entries),
        0 <= i < entries.len(),
        entries[i].0@ == name,
    ensures
        state_in(entries, name) == Some(entries[i].1),
{
    let j = choose|j: int| 0 <= j < entries.len() && (#[trigger] entries[j]).0@ == name;
    if j != i {
        if j < i {
            assert(entries[j].0@ != entries[i].0@);
        } else {
            assert(entries[i].0@ != entries[j].0@);
        }
    }
}

/// When an entry for `name` stands at index `i` and names are distinct,
/// the attempt counter read for `name` is that entry's.
proof fn lemma_attempts_in_at(entries: Entries, name: Seq<char>, i: int)
    requires
        entries_wf(entries),
        0 <= i < entries.len(),
        entries[i].0@ == name,
    ensures
        attempts_in(entries, name) == Some(entries[i].1.attempts),
{
    let j = choose|j: int| 0 <= j < entries.len() && (#[trigger] entries[j]).0@ == name;
    if j != i {
        if j < i {
            assert(entries[j].0@ != entries[i].0@);
        } else {
            assert(entries[i].0@ != entries[j].0@);
        }
    }
}

/// Replacing the entry at `i` by one with the same name leaves every
/// other jail's attempt counter unchanged.
proof fn lemma_attempts_frame_update(e1: Entries, e2: Entries, i: int, n: Seq<char>)
    requires
        entries_wf(e1),
        entries_wf(e2),
        e1.len() == e2.len(),
        0 <= i < e1.len(),
        forall|j: int| 0 <= j < e1.len() && j != i ==> #[trigger] e2[j] == e1[j],
        e2[i].0@ == e1[i].0@,
        n != e1[i].0@,
    ensures
        attempts_in(e2, n) == attempts_in(e1, n),
{
    if exists|j: int| 0 <= j < e1.len() && (#[trigger] e1[j]).0@ == n {
        let j = choose|j: int| 0 <= j < e1.len() && (#[trigger] e1[j]).0@ == n;
        assert(j != i);
        assert(e2[j].0@ == n);
        lemma_attempts_in_at(e1, n, j);
        lemma_attempts_in_at(e2, n, j);
    } else {
        if exists|k: int| 0 <= k < e2.len() && (#[trigger] e2[k]).0@ == n {
            let k = choose|k: int| 0 <= k < e2.len() && (#[trigger] e2[k]).0@ == n;
            assert(k != i);
            assert(e1[k].0@ == n);
        }
    }
}

/// Removing the entry at `i` leaves every other jail's attempt counter
/// unchanged.
proof fn lemma_attempts_frame_remove(e1: Entries, e2: Entries, i: int, n: Seq<char>)
    requires
        entries_wf(e1),
        entries_wf(e2),
        0 <= i < e1.len(),
        e2 == e1.remove(i),
        n != e1[i].0@,
    ensures
        attempts_in(e2, n) == attempts_in(e1, n),
{
    e1.remove_ensures(i);
    if exists|j: int| 0 <= j < e1.len() && (#[trigger] e1[j]).0@ == n {
        let j = choose|j: int| 0 <= j < e1.len() && (#[trigger] e1[j]).0@ == n;
        assert(j != i);
        lemma_attempts_in_at(e1, n, j);
        if j < i {
            assert(e2[j] == e1[j]);
            lemma_attempts_in_at(e2, n, j);
        } else {
            assert(e2[j - 1] == e1[j]);
            lemma_attempts_in_at(e2, n, j - 1);
        }
    } else {
        if exists|k: int| 0 <= k < e2.len() && (#[trigger] e2[k]).0@ == n {
            let k = choose|k: int| 0 <= k < e2.len() && (#[trigger] e2[k]).0@ == n;
            if k < i {
                assert(e1[k].0@ == n);
            } else {
                assert(e1[k + 1].0@ == n);
            }
        }
    }
}

/// Appending an entry with a new name leaves every other jail's attempt
/// counter unchanged.
proof fn lemma_attempts_frame_push(e1: Entries, e2: Entries, n: Seq<char>)
    requires
        entries_wf(e1),
        entries_wf(e2),
        e2.len() == e1.len() + 1,
        forall|j: int| 0 <= j < e1.len() ==> #[trigger] e2[j] == e1[j],
        n != e2[e1.len() as int].0@,
    ensures
        attempts_in(e2, n) == attempts_in(e1, n),
{
    if exists|j: int| 0 <= j < e1.len() && (#[trigger] e1[j]).0@ == n {
        let j = choose|j: int| 0 <= j < e1.len() && (#[trigger] e1[j]).0@ == n;
        assert(e2[j].0@ == n);
        lemma_attempts_in_at(e1, n, j);
        lemma_attempts_in_at(e2, n, j);
    } else {
        if exists|k: int| 0 <= k < e2.len() && (#[trigger] e2[k]).0@ == n {
            let k = choose|k: int| 0 <= k < e2.len() && (#[trigger] e2[k]).0@ == n;
            assert(k < e1.len());
            assert(e1[k].0@ == n);
        }
    }
}

/// What handling one failure event guarantees: a restart is scheduled
/// exactly when the jail's breaker is closed and attempts remain, the
/// directive carries the jail's name and the backoff delay of the
/// current attempt, and the bookkeeping advances by exactly one
/// recorded failure — or, when no restart is granted, not at all.
pub open spec fn spec_failure_outcome(
    before: Entries,
    after: Entries,
    name: Seq<char>,
    now_ms: u64,
    jitter_unit: u64,
    r: &WardenDirective,
) -> bool {
    let e0 = effective_state(before, name);
    &&& (r is Restart <==> spec_retry_granted(e0))
    &&& (r matches WardenDirective::Restart { name: rn, delay_ms: d } ==> rn@ == name && d
        == e0.backoff.spec_delay(e0.attempts, jitter_unit))
    &&& state_in(after, name) matches Some(s1) && s1.backoff == e0.backoff && (
    if spec_retry_granted(e0) {
        s1.attempts == saturating_inc(e0.attempts) && s1.breaker
            == crate::breaker::spec_after_failure(e0.breaker, now_ms)
    } else {
        s1 == e0
    })
}

/// The supervisor's state: the restart bookkeeping of every jail that
/// has failed since its last intentional stop.
pub struct Warden {
    /// One entry per supervised jail, under its name.
    pub restart_states: Vec<(String, RestartState)>,
}

impl Warden {
    /// Entries carry distinct names and well-formed backoffs.
    pub open spec fn wf(self) -> bool {
        entries_wf(self.restart_states@)
    }

    /// The attempt counter of the named jail, if it is tracked.
    pub open spec fn attempts_of(self, name: Seq<char>) -> Option<u8> {
        attempts_in(self.restart_states@, name)
    }

    /// A supervisor that tracks nothing yet.
    pub fn new() -> (r: Warden)
        ensures
            r.wf(),
            r.restart_states@.len() == 0,
    {
        Warden { restart_states: Vec::new() }
    }

    /// The index of the named entry.
    fn find(&self, name: &str) -> (r: Option<usize>)
        ensures
            r matches Some(i) ==> i < self.restart_states@.len()
                && self.restart_states@[i as int].0@ == name@,
            r is None ==> forall|i: int|
                0 <= i < self.restart_states@.len() ==> (#[trigger] self.restart_states@[i]).0@
                    != name@,
    {
        let mut i: usize = 0;
        while i < self.restart_states.len()
            invariant
                i <= self.restart_states@.len(),
                forall|j: int| 0 <= j < i ==> (#[trigger] self.restart_states@[j]).0@ != name@,
            decreases self.restart_states@.len() - i,
        {
            if crate::text::str_eq(self.restart_states[i].0.as_str(), name) {
                return Some(i);
            }
            i = i + 1;
        }
        None
    }

    /// Handle a failure event for `name` at time `now`: create the
    /// bookkeeping if needed, and either schedule a restart after the
    /// backoff delay or drop the event when the breaker or the attempt
    /// budget forbids one.
    fn handle_failure(&mut self, name: &str, now_ms: u64, jitter_unit: u64) -> (r:
        WardenDirective)
        requires
            old(self).wf(),
            jitter_unit <= 1000,
        ensures
            final(self).wf(),
            !(r is Quit),
            final(self).attempts_of(name@) == spec_attempts_step(
                old(self).attempts_of(name@), false, false, r is Restart),
            forall|n: Seq<char>|
                n != name@ ==> final(self).attempts_of(n) == old(self).attempts_of(n),
            // a restart is scheduled exactly when the jail's breaker is
            // closed and attempts remain, with the event's name and the
            // backoff's delay for the current attempt; the bookkeeping
            // advances by exactly one recorded failure, or not at all
            spec_failure_outcome(
                old(self).restart_states@, final(self).restart_states@, name@, now_ms,
                jitter_unit, &r),
    {
        let ghost orig = self.restart_states@;
        let found = self.find(name);
        let i = match found {
            Some(i) => i,
            None => {
                self.restart_states.push((name.to_owned(), RestartState::new()));
                proof {
                    let cur = self.restart_states@;
                    let last = cur.len() - 1;
                    assert((cur[last]).0@ == name@);
                    assert forall|j: int| 0 <= j < last implies #[trigger] cur[j] == orig[j] by {
                    }
                    assert(entries_wf(cur)) by {
                        assert forall|p: int, q: int| 0 <= p < q < cur.len() implies (
                        #[trigger] cur[p]).0@ != (#[trigger] cur[q]).0@ by {
                            if q == last {
                                assert(cur[p] == orig[p]);
                            }
                        }
                    }
                    assert(attempts_in(orig, name@) is None);
                }
                self.restart_states.len() - 1
            }
        };
        let ghost before = self.restart_states@;
        proof {
            lemma_attempts_in_at(before, name@, i as int);
            lemma_state_in_at(before, name@, i as int);
            if orig.len() == before.len() {
                lemma_state_in_at(orig, name@, i as int);
            } else {
                assert(state_in(orig, name@) is None);
            }
        }
        let mut entry = self.restart_states.remove(i);
        let retry = entry.1.should_retry();
        let directive: WardenDirective;
        if retry {
            let delay = entry.1.backoff.delay_ms(entry.1.attempts, jitter_unit);
            match delay {
                Some(d) => {
                    entry.1.record_failure(now_ms);
                    directive = WardenDirective::Restart { name: name.to_owned(), delay_ms: d };
                }
                None => {
                    directive = WardenDirective::Continue;
                }
            }
        } else {
            directive = WardenDirective::Continue;
        }
        self.restart_states.insert(i, entry);
        proof {
            let cur = self.restart_states@;
            assert forall|j: int|
                0 <= j < cur.len() && j != i implies #[trigger] cur[j] == before[j] by {
                if j < i {
                    assert(before.remove(i as int)[j] == before[j]);
                } else {
                    assert(before.remove(i as int)[j - 1] == before[j]);
                }
            }
            assert(cur[i as int].0@ == name@);
            assert(entries_wf(cur)) by {
                assert forall|p: int, q: int| 0 <= p < q < cur.len() implies (
                #[trigger] cur[p]).0@ != (#[trigger] cur[q]).0@ by {
                    assert(cur[p].0@ == before[p].0@);
                    assert(cur[q].0@ == before[q].0@);
                }
            }
            lemma_attempts_in_at(cur, name@, i as int);
            lemma_state_in_at(cur, name@, i as int);
            assert forall|n: Seq<char>| n != name@ implies attempts_in(cur, n) == attempts_in(
                orig, n) by {
                lemma_attempts_frame_update(before, cur, i as int, n);
                if before.len() > orig.len() {
                    lemma_attempts_frame_push(orig, before, n);
                }
            }
        }
        directive
    }

    /// Handle one event.  Failure events may schedule a restart; a
    /// started event resets the jail's attempt run; an intentional stop
    /// drops the bookkeeping; shutdown asks the loop to quit.
    pub fn handle_event(&mut self, event: &WardenEvent, now_ms: u64, jitter_unit: u64) -> (r:
        WardenDirective)
        requires
            old(self).wf(),
            jitter_unit <= 1000,
        ensures
            final(self).wf(),
            match event {
                WardenEvent::JailFailed { name } => !(r is Quit) && final(self).attempts_of(
                    name@) == spec_attempts_step(
                    old(self).attempts_of(name@), false, false, r is Restart)
                    && spec_failure_outcome(
                    old(self).restart_states@, final(self).restart_states@, name@, now_ms,
                    jitter_unit, &r),
                WardenEvent::JailHealthFailed { name } => !(r is Quit) && final(
                    self).attempts_of(name@) == spec_attempts_step(
                    old(self).attempts_of(name@), false, false, r is Restart)
                    && spec_failure_outcome(
                    old(self).restart_states@, final(self).restart_states@, name@, now_ms,
                    jitter_unit, &r),
                WardenEvent::JailStarted { name } => r is Continue && final(self).attempts_of(
                    name@) == spec_attempts_step(
                    old(self).attempts_of(name@), true, false, false) && (state_in(
                    old(self).restart_states@, name@) matches Some(s0) ==> (state_in(
                    final(self).restart_states@, name@) matches Some(s1) && s1.attempts == 0
                    && s1.backoff == s0.backoff && s1.breaker
                    == crate::breaker::spec_after_success(s0.breaker))),
                WardenEvent::JailStopped { name } => r is Continue && final(self).attempts_of(
                    name@) is None,
                WardenEvent::Shutdown => r is Quit && *final(self) == *old(self),
            },
            forall|n: Seq<char>|
                (match event {
                    WardenEvent::JailFailed { name } => n != name@,
                    WardenEvent::JailHealthFailed { name } => n != name@,
                    WardenEvent::JailStarted { name } => n != name@,
                    WardenEvent::JailStopped { name } => n != name@,
                    WardenEvent::Shutdown => true,
                }) ==> final(self).attempts_of(n) == old(self).attempts_of(n),
    {
        match event {
            WardenEvent::JailFailed { name } => self.handle_failure(
                name.as_str(), now_ms, jitter_unit),
            WardenEvent::JailHealthFailed { name } => self.handle_failure(
                name.as_str(), now_ms, jitter_unit),
            WardenEvent::JailStarted { name } => {
                let found = self.find(name.as_str());
                match found {
                    Some(i) => {
                        let ghost before = self.restart_states@;
                        let mut entry = self.restart_states.remove(i);
                        entry.1.reset();
                        self.restart_states.insert(i, entry);
                        proof {
                            let cur = self.restart_states@;
                            assert forall|j: int|
                                0 <= j < cur.len() && j != i implies #[trigger] cur[j]
                                == before[j] by {
                                if j < i {
                                    assert(before.remove(i as int)[j] == before[j]);
                                } else {
                                    assert(before.remove(i as int)[j - 1] == before[j]);
                                }
                            }
                            assert(cur[i as int].0@ == name@);
                            assert(entries_wf(cur)) by {
                                assert forall|p: int, q: int|
                                    0 <= p < q < cur.len() implies (#[trigger] cur[p]).0@ != (
                                #[trigger] cur[q]).0@ by {
                                    assert(cur[p].0@ == before[p].0@);
                                    assert(cur[q].0@ == before[q].0@);
                                }
                            }
                            lemma_attempts_in_at(before, name@, i as int);
                            lemma_attempts_in_at(cur, name@, i as int);
                            lemma_state_in_at(before, name@, i as int);
                            lemma_state_in_at(cur, name@, i as int);
                            assert forall|n: Seq<char>| n != name@ implies attempts_in(cur, n)
                                == attempts_in(before, n) by {
                                lemma_attempts_frame_update(before, cur, i as int, n);
                            }
                        }
                        WardenDirective::Continue
                    }
                    None => WardenDirective::Continue,
                }
            }
            WardenEvent::JailStopped { name } => {
                let found = self.find(name.as_str());
                match found {
                    Some(i) => {
                        let ghost before = self.restart_states@;
                        self.restart_states.remove(i);
                        proof {
                            let cur = self.restart_states@;
                            before.remove_ensures(i as int);
                            assert(entries_wf(cur)) by {
                                assert forall|p: int, q: int|
                                    0 <= p < q < cur.len() implies (#[trigger] cur[p]).0@ != (
                                #[trigger] cur[q]).0@ by {
                                    let sp: int = if p < i {
                                        p
                                    } else {
                                        p + 1
                                    };
                                    let sq: int = if q < i {
                                        q
                                    } else {
                                        q + 1
                                    };
                                    assert(cur[p] == before[sp]);
                                    assert(cur[q] == before[sq]);
                                }
                            }
                            assert(attempts_in(cur, name@) is None) by {
                                if exists|k: int|
                                    0 <= k < cur.len() && (#[trigger] cur[k]).0@ == name@ {
                                    let k = choose|k: int|
                                        0 <= k < cur.len() && (#[trigger] cur[k]).0@ == name@;
                                    if k < i {
                                        assert(before[k].0@ == name@);
                                        assert(before[k].0@ != before[i as int].0@);
                                    } else {
                                        assert(before[k + 1].0@ == name@);
                                        assert(before[i as int].0@ != before[k + 1].0@);
                                    }
                                }
                            }
                            assert forall|n: Seq<char>| n != name@ implies attempts_in(cur, n)
                                == attempts_in(before, n) by {
                                lemma_attempts_frame_remove(before, cur, i as int, n);
                            }
                        }
                        WardenDirective::Continue
                    }
                    None => {
                        proof {
                            assert(attempts_in(self.restart_states@, name@) is None);
                        }
                        WardenDirective::Continue
                    }
                }
            }
            WardenEvent::Shutdown => WardenDirective::Quit,
        }
    }
}

} // verus!
