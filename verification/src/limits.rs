//! Resource limits, as the two kernel facilities that enforce them take them.

use vstd::prelude::*;

verus! {

/// Limits on a process, enforced through `setrlimit`.
#[derive(Debug, Clone, Copy, PartialEq, Eq, Structural)]
pub struct RlimitConfig {
    /// Bytes of memory.
    pub max_memory: Option<u64>,
    /// Seconds of processor time in all.
    pub max_cpu_seconds: Option<u64>,
    /// Processes.
    pub max_processes: Option<u64>,
}

/// Limits on a control group.
#[derive(Debug, Clone, Copy, PartialEq, Eq, Structural)]
pub struct CgroupConfig {
    /// Bytes of memory.
    pub memory_limit: Option<u64>,
    /// Microseconds of processor time in each period.
    pub cpu_quota: Option<u64>,
    /// Microseconds in a period.
    pub cpu_period: Option<u64>,
    /// Processes.
    pub max_pids: Option<u32>,
    /// Share of the processor relative to other groups.
    pub cpu_weight: Option<u32>,
}

} // verus!
