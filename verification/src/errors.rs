//! The error type shared by the whole library.
//!
//! Every failure the orchestrator, the network layer, the health monitor or
//! the build executor can report is a variant here, carrying plain values
//! only.

use vstd::prelude::*;

verus! {

/// All errors of the library.
#[derive(Clone, Debug)]
pub enum Error {
    /// An input/output failure, with its description.
    Io(String),
    /// A configuration file could not be read.
    ConfigRead(String),
    /// A configuration file could not be parsed.
    ConfigParse(String),
    /// The configuration is invalid.
    ConfigValidation(String),
    /// A `depends_on` entry names a jail that is not defined.
    UnknownDependency(String),
    /// The named jail is not defined in the configuration.
    JailNotFound(String),
    /// The named jail is already running.
    JailAlreadyRunning(String),
    /// The named jail is not running.
    JailNotRunning(String),
    /// The jail root path does not exist.
    JailPathNotFound(String),
    /// A jail operation failed.
    JailOperation(String),
    /// The `jail_get` syscall failed.
    JailGet(String),
    /// The `jail_set` syscall failed.
    JailSet(String),
    /// The `jail_remove` syscall failed.
    JailRemoveFailed,
    /// Attaching to the jail with the given id failed.
    JailAttachFailed(i32),
    /// Executing a command inside a jail failed.
    JailExecFailed(String),
    /// A string holds an interior nul byte and cannot cross the syscall
    /// boundary.
    NulInString(String),
    /// A ZFS operation failed.
    Zfs(String),
    /// ZFS support is required for the operation but not enabled.
    ZfsNotEnabled,
    /// A download failed.
    DownloadFailed(String),
    /// A downloaded file did not match its published checksum.
    ChecksumMismatch { file: String, expected: String, actual: String },
    /// The named release is not present.
    ReleaseNotFound(String),
    /// The named release already exists.
    ReleaseAlreadyExists(String),
    /// Unpacking an archive failed.
    ExtractionFailed(String),
    /// The machine architecture is not supported.
    UnsupportedArch(String),
    /// The running kernel is too old for a requested feature.
    UnsupportedOsVersion { feature: String, minimum: String, current: String },
    /// A version string could not be parsed.
    InvalidVersion(String),
    /// An external command failed.
    CommandFailed { command: String, message: String },
    /// A networking operation failed.
    Network(String),
    /// The named interface does not exist.
    InterfaceNotFound(String),
    /// The named bridge already exists.
    BridgeAlreadyExists(String),
    /// A lifecycle hook failed.
    HookFailed { phase: String, command: String, message: String },
    /// A lifecycle hook ran past its timeout (seconds).
    HookTimeout(u64),
    /// A command inside a jail ran past its timeout (seconds).
    JailTimeout(u64),
    /// A health check failed.
    HealthCheckFailed { jail: String, check: String, message: String },
    /// A build template could not be parsed.
    TemplateParseFailed(String),
    /// A build failed at the named step.
    BuildFailed { step: String, message: String },
    /// The lifecycle machine rejected an event.
    InvalidTransition,
}

/// Result alias used throughout the library.
pub type BsResult<T> = Result<T, Error>;

} // verus!
