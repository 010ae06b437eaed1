//! Options for running commands inside a jail.

use vstd::prelude::*;
use vstd::string::*;

verus! {

/// How a command runs inside a jail.
#[derive(Debug)]
pub struct ExecOptions {
    /// The user to run as.
    pub user: String,
    /// The working directory, when one is set.
    pub workdir: Option<String>,
    /// Environment variables to set.
    pub env: Vec<(String, String)>,
    /// Whether to clear the environment first.
    pub clear_env: bool,
}

impl Default for ExecOptions {
    /// The default: run as root with the inherited environment.
    fn default() -> (r: ExecOptions)
        ensures
            r.user@ == "root"@,
            r.workdir is None,
            r.env@.len() == 0,
            !r.clear_env,
    {
        ExecOptions {
            user: String::from_str("root"),
            workdir: None,
            env: Vec::new(),
            clear_env: false,
        }
    }
}

} // verus!
