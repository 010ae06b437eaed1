//! A declarative orchestrator core for FreeBSD jails.
//!
//! The crate models the lifecycle of a set of jails described by a manifest:
//! a dependency-ordered start/stop engine, per-jail resource accounting
//! (ZFS datasets, allocated IP addresses, VNET interface pairs, PF port
//! forwards), a supervisor that schedules restarts with exponential backoff
//! behind a circuit breaker, and a health monitor with token-bucket rate
//! limiting.  Everything that decides or computes lives here and is verified;
//! the thin layer that performs syscalls, runs commands and touches the
//! filesystem sits outside the library and hands plain values in and out.

pub mod backoff;
pub mod blueprint;
pub mod breaker;
pub mod bridge;
pub mod console;
pub mod errors;
pub mod export;
pub mod graph;
pub mod health;
pub mod hooks;
pub mod ip;
pub mod jailparams;
pub mod manifest;
pub mod netif;
pub mod pf;
pub mod provision;
pub mod recovery;
pub mod state;
pub mod sysver;
pub mod text;
pub mod throttle;
pub mod warden;
pub mod zfs;
