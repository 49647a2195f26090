//! Which kernel namespaces a process gets of its own.

use vstd::prelude::*;

verus! {

/// The kernel namespaces to create for a process.
#[derive(Debug, Clone, Copy, PartialEq, Eq, Structural)]
pub struct NamespaceConfig {
    pub pid: bool,
    pub ipc: bool,
    pub net: bool,
    pub mount: bool,
    pub uts: bool,
    pub user: bool,
}

/// One for a namespace that is on, none for one that is off.
pub open spec fn one_if(on: bool) -> int {
    if on {
        1
    } else {
        0
    }
}

fn count(on: bool) -> (r: usize)
    ensures
        r == one_if(on),
{
    if on {
        1
    } else {
        0
    }
}

impl NamespaceConfig {
    /// How many namespaces are on.
    pub open spec fn enabled(self) -> int {
        one_if(self.pid) + one_if(self.ipc) + one_if(self.net) + one_if(self.mount) + one_if(
            self.uts,
        ) + one_if(self.user)
    }

    /// How many namespaces are on.
    pub fn enabled_count(&self) -> (r: usize)
        ensures
            r == self.enabled(),
            r == 0 <==> !(self.pid || self.ipc || self.net || self.mount || self.uts || self.user),
    {
        count(self.pid) + count(self.ipc) + count(self.net) + count(self.mount) + count(self.uts)
            + count(self.user)
    }
}

} // verus!
