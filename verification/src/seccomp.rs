//! System call filters.

use vstd::prelude::*;

verus! {

/// A built-in set of allowed system calls. Each profile adds to the one
/// before it.
#[derive(Debug, Clone, Copy, PartialEq, Eq, Structural)]
pub enum SeccompProfile {
    /// Process bootstrap only.
    Essential,
    /// Signals, pipes, timers and process control.
    Minimal,
    /// File manipulation.
    IoHeavy,
    /// Scheduling and memory placement.
    Compute,
    /// Sockets.
    Network,
    /// Privileged calls.
    Unrestricted,
}

/// The system call filter of a process.
#[derive(Debug, Clone, Copy, PartialEq, Eq, Structural)]
pub struct SeccompFilter {
    /// The profile that the filter lets through.
    pub profile: SeccompProfile,
}

impl SeccompFilter {
    /// The filter that lets a profile through.
    pub fn from_profile(profile: SeccompProfile) -> (r: SeccompFilter)
        ensures
            r.profile == profile,
    {
        SeccompFilter { profile }
    }
}

} // verus!
