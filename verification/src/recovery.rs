//! Recovery actions taken when a health check keeps failing.

use vstd::prelude::*;
use vstd::string::*;

verus! {

/// What to do when a check has failed often enough.
#[derive(Clone, Debug)]
pub enum RecoveryAction {
    /// Do nothing.
    NoAction,
    /// Restart the jail.
    Restart,
    /// Stop the jail.
    Stop,
    /// Run a command on the host.
    Command(String),
}

/// A check's recovery policy.
#[derive(Clone, Debug)]
pub struct RecoveryConfig {
    /// The action to take.
    pub action: RecoveryAction,
    /// How many recoveries to attempt before giving up.
    pub max_attempts: u32,
    /// Cool-down between attempts, in seconds.
    pub cooldown: u64,
}

impl RecoveryConfig {
    /// The default policy: no action, three attempts, one-minute
    /// cool-down.
    pub fn new() -> (r: RecoveryConfig)
        ensures
            r.action is NoAction,
            r.max_attempts == 3,
            r.cooldown == 60,
    {
        RecoveryConfig { action: RecoveryAction::NoAction, max_attempts: 3, cooldown: 60 }
    }

    /// A policy that restarts the jail.
    pub fn restart() -> (r: RecoveryConfig)
        ensures
            r.action is Restart,
            r.max_attempts == 3,
            r.cooldown == 60,
    {
        RecoveryConfig { action: RecoveryAction::Restart, max_attempts: 3, cooldown: 60 }
    }

    /// A policy that stops the jail.
    pub fn stop() -> (r: RecoveryConfig)
        ensures
            r.action is Stop,
            r.max_attempts == 3,
            r.cooldown == 60,
    {
        RecoveryConfig { action: RecoveryAction::Stop, max_attempts: 3, cooldown: 60 }
    }

    /// A policy that runs a command on the host.
    pub fn command(cmd: &str) -> (r: RecoveryConfig)
        ensures
            r.action matches RecoveryAction::Command(c) && c@ == cmd@,
            r.max_attempts == 3,
            r.cooldown == 60,
    {
        RecoveryConfig {
            action: RecoveryAction::Command(cmd.to_owned()),
            max_attempts: 3,
            cooldown: 60,
        }
    }

    /// The same policy with another attempt limit.
    pub fn with_max_attempts(self, attempts: u32) -> (r: RecoveryConfig)
        ensures
            r.max_attempts == attempts,
            r.action == self.action,
            r.cooldown == self.cooldown,
    {
        RecoveryConfig { max_attempts: attempts, ..self }
    }

    /// The same policy with another cool-down.
    pub fn with_cooldown(self, cooldown: u64) -> (r: RecoveryConfig)
        ensures
            r.cooldown == cooldown,
            r.action == self.action,
            r.max_attempts == self.max_attempts,
    {
        RecoveryConfig { cooldown, ..self }
    }

    /// The cool-down in milliseconds.
    pub fn cooldown_duration_ms(&self) -> (r: u64)
        requires
            self.cooldown <= 0xffff_ffff,
        ensures
            r == self.cooldown * 1000,
    {
        self.cooldown * 1000
    }

    /// Whether a recovery may be attempted at time `now`, given when the
    /// last one happened: always if none happened yet, else once the
    /// cool-down has passed.
    pub fn should_attempt(&self, last_attempt_ms: Option<u64>, now_ms: u64) -> (r: bool)
        requires
            self.cooldown <= 0xffff_ffff,
        ensures
            r == (match last_attempt_ms {
                Some(t) => now_ms >= t && now_ms - t >= self.cooldown * 1000,
                None => true,
            }),
    {
        match last_attempt_ms {
            Some(t) => now_ms >= t && now_ms - t >= self.cooldown * 1000,
            None => true,
        }
    }

    /// An equal copy of this policy.
    pub fn duplicate(&self) -> (r: RecoveryConfig)
        ensures
            r.max_attempts == self.max_attempts,
            r.cooldown == self.cooldown,
            (match (r.action, self.action) {
                (RecoveryAction::NoAction, RecoveryAction::NoAction) => true,
                (RecoveryAction::Restart, RecoveryAction::Restart) => true,
                (RecoveryAction::Stop, RecoveryAction::Stop) => true,
                (RecoveryAction::Command(a), RecoveryAction::Command(b)) => a@ == b@,
                _ => false,
            }),
    {
        let action = match &self.action {
            RecoveryAction::NoAction => RecoveryAction::NoAction,
            RecoveryAction::Restart => RecoveryAction::Restart,
            RecoveryAction::Stop => RecoveryAction::Stop,
            RecoveryAction::Command(c) => RecoveryAction::Command(c.clone()),
        };
        RecoveryConfig { action, max_attempts: self.max_attempts, cooldown: self.cooldown }
    }
}

} // verus!
