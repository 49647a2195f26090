//! Privilege modes, and what the host offers.

use vstd::prelude::*;

verus! {

/// The privilege mode that is asked for.
#[derive(Debug, Clone, Copy, PartialEq, Eq, Structural)]
pub enum PrivilegeMode {
    /// User namespaces, seccomp, Landlock and resource limits; no root needed.
    Unprivileged,
    /// All namespaces, cgroups, chroot and seccomp; needs root.
    Privileged,
    /// The best mode that the host allows.
    Auto,
}

/// The privilege mode that a request comes down to on a given host.
#[derive(Debug, Clone, Copy, PartialEq, Eq, Structural)]
pub enum ResolvedMode {
    Privileged,
    Unprivileged,
}

impl ResolvedMode {
    /// Whether the mode does without root.
    pub fn is_unprivileged(&self) -> (r: bool)
        ensures
            r == (*self is Unprivileged),
    {
        match self {
            ResolvedMode::Unprivileged => true,
            ResolvedMode::Privileged => false,
        }
    }
}

/// What was detected of the host.
#[derive(Debug, Clone, Copy, PartialEq, Eq, Structural)]
pub struct SystemCapabilities {
    /// The caller is root.
    pub has_root: bool,
    /// The kernel has seccomp.
    pub has_seccomp: bool,
    /// The kernel has Landlock.
    pub has_landlock: bool,
}

} // verus!
