//! The errors of the library.

use vstd::prelude::*;

use crate::text;

verus! {

/// What an operation on a sandbox fails with.
#[derive(Debug)]
pub enum SandboxError {
    /// An input or output operation failed.
    Io(String),
    /// The configuration cannot be used.
    InvalidConfig(String),
    /// The caller lacks a privilege.
    PermissionDenied(String),
    /// The host lacks a feature.
    FeatureNotAvailable(String),
    /// A system call failed.
    Syscall(String),
    /// A facility of the host (cgroups, privilege detection) reported a failure.
    Host(String),
    /// The sandbox already holds a process.
    AlreadyRunning,
}

/// The message of [`SandboxError::AlreadyRunning`].
pub const ALREADY_RUNNING: &'static str = "Sandbox is already running";

impl SandboxError {
    /// The message that an error carries.
    pub open spec fn text(self) -> Seq<char> {
        match self {
            SandboxError::Io(m) => m@,
            SandboxError::InvalidConfig(m) => m@,
            SandboxError::PermissionDenied(m) => m@,
            SandboxError::FeatureNotAvailable(m) => m@,
            SandboxError::Syscall(m) => m@,
            SandboxError::Host(m) => m@,
            SandboxError::AlreadyRunning => ALREADY_RUNNING@,
        }
    }

    /// The message of the error.
    pub fn message(&self) -> (r: String)
        ensures
            r@ == self.text(),
    {
        match self {
            SandboxError::Io(m) => m.clone(),
            SandboxError::InvalidConfig(m) => m.clone(),
            SandboxError::PermissionDenied(m) => m.clone(),
            SandboxError::FeatureNotAvailable(m) => m.clone(),
            SandboxError::Syscall(m) => m.clone(),
            SandboxError::Host(m) => m.clone(),
            SandboxError::AlreadyRunning => ALREADY_RUNNING.to_string(),
        }
    }

    /// A failed system call: what was tried, followed by why it failed.
    pub fn syscall(context: &str, cause: &str) -> (r: SandboxError)
        ensures
            r is Syscall,
            r.text() == context@ + cause@,
    {
        SandboxError::Syscall(text::concat(context, cause))
    }

    /// A failed input or output operation: what was tried, followed by why it
    /// failed.
    pub fn io(context: &str, cause: &str) -> (r: SandboxError)
        ensures
            r is Io,
            r.text() == context@ + cause@,
    {
        SandboxError::Io(text::concat(context, cause))
    }
}

} // verus!
