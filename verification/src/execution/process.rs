//! Configuration and result of a process.

use vstd::prelude::*;

use crate::execution::environment;
use crate::execution::environment::{merged, vars};
use crate::limits::RlimitConfig;
use crate::seccomp::SeccompFilter;
use crate::time::Duration;

verus! {

/// The number of a process.
#[derive(Debug, Clone, Copy, PartialEq, Eq, Structural)]
pub struct Pid {
    pub raw: i32,
}

impl Pid {
    /// The process with a given number.
    pub fn from_raw(raw: i32) -> (r: Pid)
        ensures
            r.raw == raw,
    {
        Pid { raw }
    }
}

/// The number of the signal that ends a process for certain.
pub const SIGKILL: u8 = 9;

/// The number of the signal that the kernel sends to a process that used up
/// its processor time.
pub const SIGXCPU: u8 = 24;

/// A signal to send.
#[derive(Debug, Clone, Copy, PartialEq, Eq, Structural)]
pub struct KillRequest {
    /// The process that gets it.
    pub pid: Pid,
    /// The number of the signal.
    pub signal: u8,
}

/// Process execution configuration
#[derive(Debug, Clone)]
pub struct ProcessConfig {
    /// Program to execute
    pub program: String,
    /// Program arguments
    pub args: Vec<String>,
    /// Environment variables
    pub env: Vec<(String, String)>,
    /// Working directory (inside sandbox)
    pub cwd: Option<String>,
    /// Root directory for chroot
    pub chroot_dir: Option<String>,
    /// UID to run as
    pub uid: Option<u32>,
    /// GID to run as
    pub gid: Option<u32>,
    /// Seccomp filter
    pub seccomp: Option<SeccompFilter>,
    /// Resource limits, for a process without a control group
    pub rlimits: Option<RlimitConfig>,
    /// Whether to inherit the parent environment (with optional overrides)
    pub inherit_env: bool,
    /// Whether to set up user namespace UID/GID mapping
    pub use_user_namespace: bool,
    /// The directory beneath which alone Landlock leaves files accessible
    /// (inside sandbox)
    pub landlock: Option<String>,
    /// Time after which the process is killed
    pub timeout: Option<Duration>,
}

impl Default for ProcessConfig {
    fn default() -> (r: Self)
        ensures
            r.program@.len() == 0,
            r.args@.len() == 0,
            r.env@.len() == 0,
            r.cwd is None,
            r.chroot_dir is None,
            r.uid is None,
            r.gid is None,
            r.seccomp is None,
            r.rlimits is None,
            r.inherit_env,
            !r.use_user_namespace,
            r.landlock is None,
            r.timeout is None,
    {
        ProcessConfig {
            program: String::new(),
            args: Vec::new(),
            env: Vec::new(),
            cwd: None,
            chroot_dir: None,
            uid: None,
            gid: None,
            seccomp: None,
            rlimits: None,
            inherit_env: true,
            use_user_namespace: false,
            landlock: None,
            timeout: None,
        }
    }
}

impl ProcessConfig {
    /// Makes the environment reflect the one of the parent, with the variables
    /// of the configuration set on top, unless it is not inherited.
    pub fn prepare_environment(&mut self, parent: Vec<(String, String)>)
        ensures
            vars(final(self).env@) == if old(self).inherit_env {
                merged(vars(parent@), vars(old(self).env@))
            } else {
                vars(old(self).env@)
            },
            *final(self) == (ProcessConfig { env: final(self).env, ..*old(self) }),
    {
        if !self.inherit_env {
            return;
        }
        self.env = environment::merge_environment(parent, &self.env);
    }
}

/// Process executor
#[derive(Debug)]
pub struct ProcessExecutor;

/// Result of process execution
#[derive(Debug, Clone, Copy, PartialEq, Eq, Structural)]
pub struct ProcessResult {
    /// Process ID
    pub pid: Pid,
    /// Exit status
    pub exit_status: i32,
    /// Signal if killed
    pub signal: Option<i32>,
    /// Execution time in milliseconds
    pub exec_time_ms: u64,
}

} // verus!
