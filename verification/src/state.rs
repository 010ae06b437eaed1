//! Lifecycle state machine for a jail instance.
//!
//! A jail moves through five states.  Exactly six transitions are allowed;
//! every other (state, event) pair is rejected and leaves the state
//! unchanged.

use vstd::prelude::*;

verus! {

/// The lifecycle state of a jail instance.
#[derive(Clone, Copy, Debug, PartialEq, Eq, Structural)]
pub enum State {
    Stopped,
    Starting,
    Running,
    Stopping,
    Failed,
}

/// The events that drive the lifecycle machine.
#[derive(Clone, Copy, Debug, PartialEq, Eq, Structural)]
pub enum Event {
    Start,
    Started,
    Stop,
    Stopped,
    Fail,
    Recover,
}

/// The transition relation of the machine: the next state for an allowed
/// (state, event) pair, `None` for every other pair.
pub open spec fn next_state(s: State, e: Event) -> Option<State> {
    match (s, e) {
        (State::Stopped, Event::Start) => Some(State::Starting),
        (State::Starting, Event::Started) => Some(State::Running),
        (State::Running, Event::Stop) => Some(State::Stopping),
        (State::Stopping, Event::Stopped) => Some(State::Stopped),
        (State::Starting, Event::Fail) => Some(State::Failed),
        (State::Running, Event::Fail) => Some(State::Failed),
        (State::Stopping, Event::Fail) => Some(State::Failed),
        (State::Failed, Event::Recover) => Some(State::Stopped),
        _ => None,
    }
}

/// The state an event drives the machine to, with a rejected event
/// leaving it in place.
pub open spec fn step_or_stay(s: State, e: Event) -> State {
    match next_state(s, e) {
        Some(t) => t,
        None => s,
    }
}

/// Only the six kinds of transition are observable: whenever an event is
/// accepted, the pair (old state, event, new state) is one of the six rows
/// of the transition table, and a rejected event changes nothing.
pub proof fn lemma_only_six_transitions(s: State, e: Event)
    ensures
        next_state(s, e) is Some ==> {
            let t = next_state(s, e)->Some_0;
            ||| (s == State::Stopped && e == Event::Start && t == State::Starting)
            ||| (s == State::Starting && e == Event::Started && t == State::Running)
            ||| (s == State::Running && e == Event::Stop && t == State::Stopping)
            ||| (s == State::Stopping && e == Event::Stopped && t == State::Stopped)
            ||| (s matches (State::Starting | State::Running | State::Stopping)
                    && e == Event::Fail && t == State::Failed)
            ||| (s == State::Failed && e == Event::Recover && t == State::Stopped)
        },
{
}

impl State {
    /// Parse a state from its debug-style name; unknown names fall back to
    /// `Stopped`, as the external machine representation does.
    pub fn from_str(s: &str) -> (r: State)
        ensures
            s@ == "Stopped"@ ==> r == State::Stopped,
            s@ == "Starting"@ ==> r == State::Starting,
            s@ == "Running"@ ==> r == State::Running,
            s@ == "Stopping"@ ==> r == State::Stopping,
            s@ == "Failed"@ ==> r == State::Failed,
    {
        proof {
            reveal_strlit("Stopped");
            reveal_strlit("Starting");
            reveal_strlit("Running");
            reveal_strlit("Stopping");
            reveal_strlit("Failed");
            assert("Stopped"@.len() == 7);
            assert("Starting"@.len() == 8);
            assert("Running"@.len() == 7);
            assert("Stopping"@.len() == 8);
            assert("Failed"@.len() == 6);
            assert("Stopped"@[0] != "Running"@[0]);
            assert("Stopping"@[2] != "Starting"@[2]);
        }
        if crate::text::str_eq(s, "Starting") {
            State::Starting
        } else if crate::text::str_eq(s, "Running") {
            State::Running
        } else if crate::text::str_eq(s, "Stopping") {
            State::Stopping
        } else if crate::text::str_eq(s, "Failed") {
            State::Failed
        } else {
            State::Stopped
        }
    }
}

/// Configuration captured for a jail instance when it is created.
#[derive(Clone, Debug)]
pub struct JailConfig {
    /// Kernel-visible name of the jail.
    pub name: String,
    /// Root filesystem path of the jail.
    pub path: String,
    /// Optional hostname.
    pub hostname: Option<String>,
    /// IP addresses assigned to the jail.
    pub ips: Vec<crate::ip::IpAddress>,
}

impl JailConfig {
    pub fn new(name: &str, path: &str) -> (r: JailConfig)
        ensures
            r.name@ == name@,
            r.path@ == path@,
            r.hostname is None,
            r.ips@.len() == 0,
    {
        JailConfig {
            name: name.to_owned(),
            path: path.to_owned(),
            hostname: None,
            ips: Vec::new(),
        }
    }

    pub fn hostname(self, hostname: &str) -> (r: JailConfig)
        ensures
            r.hostname matches Some(h) && h@ == hostname@,
            r.name == self.name,
            r.path == self.path,
            r.ips == self.ips,
    {
        JailConfig { hostname: Some(hostname.to_owned()), ..self }
    }

    pub fn ip(self, addr: crate::ip::IpAddress) -> (r: JailConfig)
        ensures
            r.ips@ == self.ips@.push(addr),
            r.name == self.name,
            r.path == self.path,
            r.hostname == self.hostname,
    {
        let mut c = self;
        c.ips.push(addr);
        c
    }
}

/// A jail instance: its configuration, its machine state, and the kernel
/// jail id while one exists.
pub struct JailInstance {
    /// Current machine state.
    pub state: State,
    /// Captured configuration.
    pub config: JailConfig,
    /// Kernel jail id, present while the jail exists in the kernel.
    pub jid: Option<i32>,
}

impl JailInstance {
    /// A fresh instance starts in `Stopped` with no jail id.
    pub fn new(config: JailConfig) -> (r: JailInstance)
        ensures
            r.state == State::Stopped,
            r.jid is None,
            r.config == config,
    {
        JailInstance { state: State::Stopped, config, jid: None }
    }

    /// Current machine state.
    pub fn state(&self) -> (r: State)
        ensures
            r == self.state,
    {
        self.state
    }

    /// Whether the instance is in the `Running` state.
    pub fn is_running(&self) -> (r: bool)
        ensures
            r == (self.state == State::Running),
    {
        matches!(self.state, State::Running)
    }

    /// Apply one event.  The event is accepted exactly when the transition
    /// table allows it; a rejected event leaves the state unchanged.
    pub fn handle(&mut self, e: Event) -> (r: Result<(), crate::errors::Error>)
        ensures
            r is Ok <==> next_state(old(self).state, e) is Some,
            r is Ok ==> final(self).state == next_state(old(self).state, e)->Some_0,
            r is Err ==> final(self).state == old(self).state,
            final(self).config == old(self).config,
            final(self).jid == old(self).jid,
    {
        let next = match (self.state, e) {
            (State::Stopped, Event::Start) => Some(State::Starting),
            (State::Starting, Event::Started) => Some(State::Running),
            (State::Running, Event::Stop) => Some(State::Stopping),
            (State::Stopping, Event::Stopped) => Some(State::Stopped),
            (State::Starting, Event::Fail) => Some(State::Failed),
            (State::Running, Event::Fail) => Some(State::Failed),
            (State::Stopping, Event::Fail) => Some(State::Failed),
            (State::Failed, Event::Recover) => Some(State::Stopped),
            _ => None,
        };
        match next {
            Some(t) => {
                self.state = t;
                Ok(())
            }
            None => Err(crate::errors::Error::InvalidTransition),
        }
    }

    /// Trigger the `start` event: `Stopped -> Starting`.
    pub fn start(&mut self) -> (r: Result<(), crate::errors::Error>)
        ensures
            r is Ok <==> old(self).state == State::Stopped,
            r is Ok ==> final(self).state == State::Starting,
            r is Err ==> final(self).state == old(self).state,
            final(self).config == old(self).config,
            final(self).jid == old(self).jid,
    {
        self.handle(Event::Start)
    }

    /// Trigger the `started` event: `Starting -> Running`.
    pub fn started(&mut self) -> (r: Result<(), crate::errors::Error>)
        ensures
            r is Ok <==> old(self).state == State::Starting,
            r is Ok ==> final(self).state == State::Running,
            r is Err ==> final(self).state == old(self).state,
            final(self).config == old(self).config,
            final(self).jid == old(self).jid,
    {
        self.handle(Event::Started)
    }

    /// Trigger the `stop` event: `Running -> Stopping`.
    pub fn stop(&mut self) -> (r: Result<(), crate::errors::Error>)
        ensures
            r is Ok <==> old(self).state == State::Running,
            r is Ok ==> final(self).state == State::Stopping,
            r is Err ==> final(self).state == old(self).state,
            final(self).config == old(self).config,
            final(self).jid == old(self).jid,
    {
        self.handle(Event::Stop)
    }

    /// Trigger the `stopped` event: `Stopping -> Stopped`.
    pub fn stopped(&mut self) -> (r: Result<(), crate::errors::Error>)
        ensures
            r is Ok <==> old(self).state == State::Stopping,
            r is Ok ==> final(self).state == State::Stopped,
            r is Err ==> final(self).state == old(self).state,
            final(self).config == old(self).config,
            final(self).jid == old(self).jid,
    {
        self.handle(Event::Stopped)
    }

    /// Trigger the `fail` event: `{Starting, Running, Stopping} -> Failed`.
    pub fn fail(&mut self) -> (r: Result<(), crate::errors::Error>)
        ensures
            r is Ok <==> old(self).state matches (State::Starting
                | State::Running
                | State::Stopping),
            r is Ok ==> final(self).state == State::Failed,
            r is Err ==> final(self).state == old(self).state,
            final(self).config == old(self).config,
            final(self).jid == old(self).jid,
    {
        self.handle(Event::Fail)
    }

    /// Trigger the `recover` event: `Failed -> Stopped`.
    pub fn recover(&mut self) -> (r: Result<(), crate::errors::Error>)
        ensures
            r is Ok <==> old(self).state == State::Failed,
            r is Ok ==> final(self).state == State::Stopped,
            r is Err ==> final(self).state == old(self).state,
            final(self).config == old(self).config,
            final(self).jid == old(self).jid,
    {
        self.handle(Event::Recover)
    }
}

} // verus!
