//! Main sandbox controller with privilege mode support
//!
//! The host is called from outside: where a call is to be made, a method hands
//! out a step that says which, and a method takes back what the call gave.

use vstd::prelude::*;

use crate::errno::{describe_errno, errno_text};
use crate::error::SandboxError;
use crate::execution::launch::Ended;
use crate::execution::process::{KillRequest, Pid, ProcessConfig, SIGKILL};
use crate::limits::{CgroupConfig, RlimitConfig};
use crate::namespace::NamespaceConfig;
use crate::privilege::{PrivilegeMode, ResolvedMode, SystemCapabilities};
use crate::seccomp::{SeccompFilter, SeccompProfile};
use crate::text;
use crate::text::texts;
use crate::time::Duration;

verus! {

/// Sandbox configuration
#[derive(Debug, Clone)]
pub struct SandboxConfig {
    /// Root directory for sandbox
    pub root: String,
    /// Memory limit in bytes
    pub memory_limit: Option<u64>,
    /// CPU quota (microseconds)
    pub cpu_quota: Option<u64>,
    /// CPU period (microseconds)
    pub cpu_period: Option<u64>,
    /// Maximum PIDs
    pub max_pids: Option<u32>,
    /// Seccomp profile
    pub seccomp_profile: SeccompProfile,
    /// Namespace configuration
    pub namespace_config: NamespaceConfig,
    /// Timeout
    pub timeout: Option<Duration>,
    /// Unique sandbox ID
    pub id: String,
    /// Privilege mode
    pub privilege_mode: PrivilegeMode,
}

/// The error `e` says that the configuration cannot be used, with a message.
pub open spec fn is_invalid_config(e: SandboxError, message: Seq<char>) -> bool {
    e is InvalidConfig && e.text() == message
}

/// The result `r` says whether the invariants of a configuration hold: it has
/// an identifier, and a namespace is on.
pub open spec fn invariants_checked(config: SandboxConfig, r: Result<(), SandboxError>) -> bool {
    if config.id@.len() == 0 {
        r matches Err(e) && is_invalid_config(e, "Sandbox ID cannot be empty"@)
    } else if config.namespace_config.enabled() == 0 {
        r matches Err(e) && is_invalid_config(e, "At least one namespace must be enabled"@)
    } else {
        r is Ok
    }
}

/// The result `r` says whether a configuration can be used on a host: its
/// invariants hold, and the host has what the mode needs.
pub open spec fn validated(
    config: SandboxConfig,
    caps: SystemCapabilities,
    mode: ResolvedMode,
    r: Result<(), SandboxError>,
) -> bool {
    if config.id@.len() == 0 || config.namespace_config.enabled() == 0 {
        invariants_checked(config, r)
    } else if mode is Privileged && !caps.has_root {
        r matches Err(e) && e is PermissionDenied && e.text()
            == "Privileged mode requires root privileges"@
    } else if mode is Unprivileged && !caps.has_seccomp {
        r matches Err(e) && e is FeatureNotAvailable && e.text()
            == "Seccomp is required for unprivileged sandboxing"@
    } else {
        r is Ok
    }
}

impl SandboxConfig {
    /// The default configuration, with the namespaces that are on by default.
    pub fn with_defaults(namespace_config: NamespaceConfig) -> (r: SandboxConfig)
        ensures
            r.root@ == "/tmp/sandbox"@,
            r.memory_limit is None,
            r.cpu_quota is None,
            r.cpu_period is None,
            r.max_pids is None,
            r.seccomp_profile is Minimal,
            r.namespace_config == namespace_config,
            r.timeout is None,
            r.id@ == "default"@,
            r.privilege_mode is Auto,
    {
        SandboxConfig {
            root: "/tmp/sandbox".to_string(),
            memory_limit: None,
            cpu_quota: None,
            cpu_period: None,
            max_pids: None,
            seccomp_profile: SeccompProfile::Minimal,
            namespace_config,
            timeout: None,
            id: "default".to_string(),
            privilege_mode: PrivilegeMode::Auto,
        }
    }

    /// Validate configuration, on a host with the given capabilities, where
    /// the privilege mode comes down to `mode`.
    pub fn validate(&self, caps: &SystemCapabilities, mode: ResolvedMode) -> (r: Result<
        (),
        SandboxError,
    >)
        ensures
            validated(*self, *caps, mode, r),
    {
        let checked = self.validate_invariants();
        if checked.is_err() {
            return checked;
        }
        match mode {
            ResolvedMode::Privileged => {
                if !caps.has_root {
                    return Err(
                        SandboxError::PermissionDenied(
                            "Privileged mode requires root privileges".to_string(),
                        ),
                    );
                }
            },
            ResolvedMode::Unprivileged => {
                if !caps.has_seccomp {
                    return Err(
                        SandboxError::FeatureNotAvailable(
                            "Seccomp is required for unprivileged sandboxing".to_string(),
                        ),
                    );
                }
            },
        }
        Ok(())
    }

    /// Checks what a configuration must satisfy on every host.
    pub fn validate_invariants(&self) -> (r: Result<(), SandboxError>)
        ensures
            invariants_checked(*self, r),
    {
        if self.id.as_str().is_empty() {
            return Err(SandboxError::InvalidConfig("Sandbox ID cannot be empty".to_string()));
        }
        if self.namespace_config.enabled_count() == 0 {
            return Err(
                SandboxError::InvalidConfig("At least one namespace must be enabled".to_string()),
            );
        }
        Ok(())
    }
}

/// Builder pattern for sandbox creation
#[derive(Debug)]
pub struct SandboxBuilder {
    pub config: SandboxConfig,
}

/// Microseconds of a period for which a limit in percent is set.
pub const PERCENT_PERIOD: u64 = 100000;

/// Microseconds of such a period that one percent stands for.
pub const PERCENT_QUOTA: u64 = 1000;

impl SandboxBuilder {
    /// Create new builder, given the namespaces that are on by default
    pub fn new(id: &str, namespace_config: NamespaceConfig) -> (r: SandboxBuilder)
        ensures
            r.config.root@ == "/tmp/sandbox"@,
            r.config.memory_limit is None,
            r.config.cpu_quota is None,
            r.config.cpu_period is None,
            r.config.max_pids is None,
            r.config.seccomp_profile is Minimal,
            r.config.namespace_config == namespace_config,
            r.config.timeout is None,
            r.config.id@ == id@,
            r.config.privilege_mode is Auto,
    {
        let mut config = SandboxConfig::with_defaults(namespace_config);
        config.id = id.to_string();
        SandboxBuilder { config }
    }

    /// Set memory limit
    pub fn memory_limit(self, bytes: u64) -> (r: SandboxBuilder)
        ensures
            r.config == (SandboxConfig { memory_limit: Some(bytes), ..self.config }),
    {
        let mut config = self.config;
        config.memory_limit = Some(bytes);
        SandboxBuilder { config }
    }

    /// Set memory limit from a text (e.g., "100M"), given what parsing the
    /// text gave: a number of bytes, or an error
    pub fn memory_limit_str(self, parsed: Result<u64, SandboxError>) -> (r: Result<
        SandboxBuilder,
        SandboxError,
    >)
        ensures
            match parsed {
                Ok(bytes) => r matches Ok(builder) && builder.config == (SandboxConfig {
                    memory_limit: Some(bytes),
                    ..self.config
                }),
                Err(e) => r == Err::<SandboxBuilder, SandboxError>(e),
            },
    {
        match parsed {
            Ok(bytes) => Ok(self.memory_limit(bytes)),
            Err(e) => Err(e),
        }
    }

    /// Set CPU quota
    pub fn cpu_quota(self, quota: u64, period: u64) -> (r: SandboxBuilder)
        ensures
            r.config == (SandboxConfig {
                cpu_quota: Some(quota),
                cpu_period: Some(period),
                ..self.config
            }),
    {
        let mut config = self.config;
        config.cpu_quota = Some(quota);
        config.cpu_period = Some(period);
        SandboxBuilder { config }
    }

    /// Set CPU limit by percentage (1-100); any other percentage sets nothing
    pub fn cpu_limit_percent(self, percent: u32) -> (r: SandboxBuilder)
        ensures
            r.config == if 1 <= percent <= 100 {
                SandboxConfig {
                    cpu_quota: Some((percent * PERCENT_QUOTA) as u64),
                    cpu_period: Some(PERCENT_PERIOD),
                    ..self.config
                }
            } else {
                self.config
            },
    {
        if percent == 0 || percent > 100 {
            return self;
        }
        let quota: u64 = (percent as u64) * PERCENT_QUOTA;
        self.cpu_quota(quota, PERCENT_PERIOD)
    }

    /// Set maximum PIDs
    pub fn max_pids(self, max: u32) -> (r: SandboxBuilder)
        ensures
            r.config == (SandboxConfig { max_pids: Some(max), ..self.config }),
    {
        let mut config = self.config;
        config.max_pids = Some(max);
        SandboxBuilder { config }
    }

    /// Set seccomp profile
    pub fn seccomp_profile(self, profile: SeccompProfile) -> (r: SandboxBuilder)
        ensures
            r.config == (SandboxConfig { seccomp_profile: profile, ..self.config }),
    {
        let mut config = self.config;
        config.seccomp_profile = profile;
        SandboxBuilder { config }
    }

    /// Set root directory
    pub fn root(self, path: &str) -> (r: SandboxBuilder)
        ensures
            r.config.root@ == path@,
            r.config == (SandboxConfig { root: r.config.root, ..self.config }),
    {
        let mut config = self.config;
        config.root = path.to_string();
        SandboxBuilder { config }
    }

    /// Set timeout
    pub fn timeout(self, duration: Duration) -> (r: SandboxBuilder)
        ensures
            r.config == (SandboxConfig { timeout: Some(duration), ..self.config }),
    {
        let mut config = self.config;
        config.timeout = Some(duration);
        SandboxBuilder { config }
    }

    /// Set namespace configuration
    pub fn namespaces(self, namespaces: NamespaceConfig) -> (r: SandboxBuilder)
        ensures
            r.config == (SandboxConfig { namespace_config: namespaces, ..self.config }),
    {
        let mut config = self.config;
        config.namespace_config = namespaces;
        SandboxBuilder { config }
    }

    /// Set privilege mode
    pub fn privilege_mode(self, mode: PrivilegeMode) -> (r: SandboxBuilder)
        ensures
            r.config == (SandboxConfig { privilege_mode: mode, ..self.config }),
    {
        let mut config = self.config;
        config.privilege_mode = mode;
        SandboxBuilder { config }
    }

    /// Begins to build a sandbox, on a host with the given capabilities, where
    /// the privilege mode comes down to `mode`. Only a configuration that can
    /// be used there gets as far as its root directory.
    pub fn build(self, caps: &SystemCapabilities, mode: ResolvedMode) -> (r: Result<
        CreateRoot,
        SandboxError,
    >)
        ensures
            build_starts(self.config, *caps, mode, r),
    {
        let valid = self.config.validate(caps, mode);
        match valid {
            Ok(_) => Ok(Sandbox::new(self.config, caps, mode)),
            Err(e) => Err(e),
        }
    }
}

/// The exit status of a process that the kernel killed for a filtered system
/// call.
pub const SECCOMP_EXIT_CODE: i32 = 159;

/// What a caller is told about a filtered system call.
pub const SECCOMP_ERROR: &'static str = "The action requires more permissions than were granted.";

/// What a caller who wants an error is told about a filtered system call.
pub const SECCOMP_ADVICE: &'static str =
    "The seccomp profile is too restrictive for this operation. Try using a less restrictive profile (e.g., SeccompProfile::Compute or SeccompProfile::Unrestricted)";

/// Sandbox execution result
#[derive(Debug, Clone, Copy, PartialEq, Eq, Structural)]
pub struct SandboxResult {
    /// Exit code
    pub exit_code: i32,
    /// Signal that killed process (if any)
    pub signal: Option<i32>,
    /// Whether timeout occurred
    pub timed_out: bool,
    /// Peak memory usage in bytes.
    /// Requires privileged mode (cgroups v2). Is `0` in unprivileged mode.
    pub memory_peak: u64,
    /// CPU time in microseconds.
    /// Requires privileged mode (cgroups v2). Is `0` in unprivileged mode.
    pub cpu_time_us: u64,
    /// Wall clock time in milliseconds
    pub wall_time_ms: u64,
}

impl SandboxResult {
    /// Check if process was killed by seccomp (SIGSYS - signal 31)
    pub fn killed_by_seccomp(&self) -> (r: bool)
        ensures
            r == (self.exit_code == SECCOMP_EXIT_CODE),
    {
        self.exit_code == SECCOMP_EXIT_CODE
    }

    /// Get human-readable error message if process failed due to seccomp
    pub fn seccomp_error(&self) -> (r: Option<&'static str>)
        ensures
            r is Some <==> self.exit_code == SECCOMP_EXIT_CODE,
            r matches Some(message) ==> message@ == SECCOMP_ERROR@,
    {
        if self.killed_by_seccomp() {
            Some(SECCOMP_ERROR)
        } else {
            None
        }
    }

    /// Convert to Result, returning error if process was killed by seccomp
    pub fn check_seccomp_error(&self) -> (r: Result<&SandboxResult, SandboxError>)
        ensures
            if self.exit_code == SECCOMP_EXIT_CODE {
                r matches Err(e) && e is PermissionDenied && e.text() == SECCOMP_ADVICE@
            } else {
                r matches Ok(result) && *result == *self
            },
    {
        if self.killed_by_seccomp() {
            Err(SandboxError::PermissionDenied(SECCOMP_ADVICE.to_string()))
        } else {
            Ok(self)
        }
    }
}

/// Active sandbox
#[derive(Debug)]
pub struct Sandbox {
    pub config: SandboxConfig,
    pub resolved_mode: ResolvedMode,
    /// Whether the host has Landlock.
    pub has_landlock: bool,
    /// The process that the sandbox holds.
    pub pid: Option<Pid>,
    /// The name of the control group that the sandbox has.
    pub cgroup: Option<String>,
}

/// A configuration as a sandbox in the given mode uses it: without privileges
/// the user namespace is always on.
pub open spec fn adjusted(config: SandboxConfig, mode: ResolvedMode) -> SandboxConfig {
    if mode is Unprivileged {
        SandboxConfig {
            namespace_config: NamespaceConfig { user: true, ..config.namespace_config },
            ..config
        }
    } else {
        config
    }
}

/// A directory to create, with the sandbox that it is the root of.
#[derive(Debug)]
pub struct CreateRoot {
    /// The directory; its parents are created too.
    pub path: String,
    /// The sandbox, once the directory exists.
    pub sandbox: Sandbox,
}

/// The step `r` is to create the root directory of a new sandbox.
pub open spec fn root_requested(
    config: SandboxConfig,
    caps: SystemCapabilities,
    mode: ResolvedMode,
    r: CreateRoot,
) -> bool {
    &&& r.path@ == config.root@
    &&& r.sandbox == Sandbox {
        config: adjusted(config, mode),
        resolved_mode: mode,
        has_landlock: caps.has_landlock,
        pid: None,
        cgroup: None,
    }
}

/// The result `r` is how building a sandbox begins: with its root directory,
/// or, where its configuration cannot be used on the host, not at all.
pub open spec fn build_starts(
    config: SandboxConfig,
    caps: SystemCapabilities,
    mode: ResolvedMode,
    r: Result<CreateRoot, SandboxError>,
) -> bool {
    exists|valid: Result<(), SandboxError>| #[trigger]
        validated(config, caps, mode, valid) && match valid {
            Ok(_) => r matches Ok(step) && root_requested(config, caps, mode, step),
            Err(e) => r == Err::<CreateRoot, SandboxError>(e),
        }
}

/// The result `r` is the new sandbox, or the error where its root directory
/// could not be created, with the cause.
pub open spec fn created(
    step: CreateRoot,
    failure: Option<Seq<char>>,
    r: Result<Sandbox, SandboxError>,
) -> bool {
    match failure {
        None => r == Ok::<Sandbox, SandboxError>(step.sandbox),
        Some(cause) => r matches Err(e) && e is Io && e.text()
            == "Failed to create root directory: "@ + cause,
    }
}

impl CreateRoot {
    /// Gives the sandbox after its root directory was created, or not
    pub fn created(self, outcome: Result<(), String>) -> (r: Result<Sandbox, SandboxError>)
        ensures
            created(
                self,
                match outcome {
                    Ok(_) => None,
                    Err(cause) => Some(cause@),
                },
                r,
            ),
    {
        match outcome {
            Ok(_) => Ok(self.sandbox),
            Err(cause) => Err(SandboxError::io("Failed to create root directory: ", cause.as_str())),
        }
    }
}

/// A program that a sandbox was asked to run.
#[derive(Debug)]
pub struct RunRequest {
    /// The process to execute.
    pub config: ProcessConfig,
    /// The namespaces to create for it.
    pub namespaces: NamespaceConfig,
    /// Whether its outputs are captured.
    pub streamed: bool,
}

/// A control group for a program that a sandbox was asked to run.
#[derive(Debug)]
pub struct CgroupRequest {
    /// The name of the group.
    pub name: String,
    /// Its limits.
    pub limits: CgroupConfig,
    /// What runs in it.
    pub run: RunRequest,
}

/// What a run of a program needs next.
#[derive(Debug)]
pub enum RunStep {
    /// Create a control group.
    CreateCgroup(CgroupRequest),
    /// Apply its limits to the control group.
    LimitCgroup(CgroupRequest),
    /// Execute the process.
    Execute(RunRequest),
}

/// The result `r` is how a run goes on after its control group was created, or
/// not.
pub open spec fn group_created(
    group: CgroupRequest,
    outcome: Result<(), SandboxError>,
    r: Result<RunStep, SandboxError>,
) -> bool {
    r == match outcome {
        Ok(_) => Ok::<RunStep, SandboxError>(RunStep::LimitCgroup(group)),
        Err(e) => Err(e),
    }
}

/// The sandbox `after`, with the result `r`, is what applying its limits to a
/// control group makes of the sandbox `before`.
pub open spec fn group_limited(
    before: Sandbox,
    group: CgroupRequest,
    outcome: Result<(), SandboxError>,
    after: Sandbox,
    r: Result<RunStep, SandboxError>,
) -> bool {
    match outcome {
        Ok(_) => {
            &&& after == (Sandbox { cgroup: Some(group.name), ..before })
            &&& r == Ok::<RunStep, SandboxError>(RunStep::Execute(group.run))
        },
        Err(e) => after == before && r == Err::<RunStep, SandboxError>(e),
    }
}

impl CgroupRequest {
    /// Goes on after the control group was created, or not
    pub fn created(self, outcome: Result<(), SandboxError>) -> (r: Result<RunStep, SandboxError>)
        ensures
            group_created(self, outcome, r),
    {
        match outcome {
            Ok(_) => Ok(RunStep::LimitCgroup(self)),
            Err(e) => Err(e),
        }
    }
}

/// The limits that a sandbox sets on a process without a control group.
pub open spec fn process_limits(config: SandboxConfig) -> RlimitConfig {
    RlimitConfig {
        max_memory: config.memory_limit,
        max_cpu_seconds: match config.timeout {
            Some(timeout) => Some(timeout.secs),
            None => None,
        },
        max_processes: match config.max_pids {
            Some(max) => Some(max as u64),
            None => None,
        },
    }
}

/// The limits that a sandbox sets on a control group.
pub open spec fn group_limits(config: SandboxConfig) -> CgroupConfig {
    CgroupConfig {
        memory_limit: config.memory_limit,
        cpu_quota: config.cpu_quota,
        cpu_period: config.cpu_period,
        max_pids: config.max_pids,
        cpu_weight: None,
    }
}

/// The configuration `p` is the one that a sandbox gives every process.
pub open spec fn base_process(sandbox: Sandbox, p: ProcessConfig) -> bool {
    &&& p.env@.len() == 0
    &&& p.cwd is None
    &&& p.chroot_dir matches Some(root) && root@ == sandbox.config.root@
    &&& p.uid is None
    &&& p.gid is None
    &&& p.seccomp == Some(SeccompFilter { profile: sandbox.config.seccomp_profile })
    &&& p.rlimits == if sandbox.resolved_mode is Unprivileged {
        Some(process_limits(sandbox.config))
    } else {
        None
    }
    &&& p.inherit_env
    &&& p.use_user_namespace == sandbox.config.namespace_config.user
    &&& if sandbox.resolved_mode is Unprivileged && sandbox.has_landlock {
        p.landlock matches Some(path) && path@ == "/"@
    } else {
        p.landlock is None
    }
    &&& p.timeout == sandbox.config.timeout
}

/// The request is to run a program with its arguments in a sandbox.
pub open spec fn runs(
    sandbox: Sandbox,
    program: Seq<char>,
    args: Seq<Seq<char>>,
    streamed: bool,
    request: RunRequest,
) -> bool {
    &&& base_process(sandbox, request.config)
    &&& request.config.program@ == program
    &&& texts(request.config.args@) == args
    &&& request.namespaces == sandbox.config.namespace_config
    &&& request.streamed == streamed
}

/// The name of the control group of a sandbox.
pub open spec fn cgroup_name(sandbox: Sandbox) -> Seq<char> {
    "sandbox-"@ + sandbox.config.id@
}

/// The result `r` is how a run begins: it is refused while the sandbox holds a
/// process; with privileges it begins with a control group.
pub open spec fn run_starts(
    sandbox: Sandbox,
    program: Seq<char>,
    args: Seq<Seq<char>>,
    streamed: bool,
    r: Result<RunStep, SandboxError>,
) -> bool {
    if sandbox.pid is Some {
        r == Err::<RunStep, SandboxError>(SandboxError::AlreadyRunning)
    } else if sandbox.resolved_mode is Unprivileged {
        r matches Ok(RunStep::Execute(request)) && runs(sandbox, program, args, streamed, request)
    } else {
        &&& r matches Ok(RunStep::CreateCgroup(group))
        &&& group.name@ == cgroup_name(sandbox)
        &&& group.limits == group_limits(sandbox.config)
        &&& runs(sandbox, program, args, streamed, group.run)
    }
}

/// The memory in use to read from a control group.
#[derive(Debug)]
pub struct MemoryRead {
    /// The name of the group.
    pub group: String,
}

/// The processor time used to read from a control group.
#[derive(Debug)]
pub struct CpuRead {
    /// The name of the group.
    pub group: String,
    /// The memory in use.
    pub memory: u64,
}

/// What is needed next to know the resources that a sandbox uses.
#[derive(Debug)]
pub enum UsageStep {
    /// Read the memory in use.
    ReadMemory(MemoryRead),
    /// Read the processor time used.
    ReadCpu(CpuRead),
    /// Bytes of memory and microseconds of processor time, or the error.
    Known(Result<(u64, u64), SandboxError>),
}

/// The step `r` is the first towards the resources that a sandbox uses. Without
/// a control group they are taken to be none.
pub open spec fn usage_starts(sandbox: Sandbox, r: UsageStep) -> bool {
    match sandbox.cgroup {
        Some(name) => r matches UsageStep::ReadMemory(read) && read.group@ == name@,
        None => r == UsageStep::Known(Ok((0, 0))),
    }
}

/// The step `r` follows the reading of the memory in use.
pub open spec fn memory_read_to(
    read: MemoryRead,
    outcome: Result<u64, SandboxError>,
    r: UsageStep,
) -> bool {
    r == match outcome {
        Ok(memory) => UsageStep::ReadCpu(CpuRead { group: read.group, memory }),
        Err(e) => UsageStep::Known(Err(e)),
    }
}

/// The step `r` follows the reading of the processor time used.
pub open spec fn cpu_read_to(
    read: CpuRead,
    outcome: Result<u64, SandboxError>,
    r: UsageStep,
) -> bool {
    r == match outcome {
        Ok(cpu) => UsageStep::Known(Ok((read.memory, cpu))),
        Err(e) => UsageStep::Known(Err(e)),
    }
}

impl MemoryRead {
    /// Goes on after the memory in use was read, or not
    pub fn read(self, outcome: Result<u64, SandboxError>) -> (r: UsageStep)
        ensures
            memory_read_to(self, outcome, r),
    {
        match outcome {
            Ok(memory) => UsageStep::ReadCpu(CpuRead { group: self.group, memory }),
            Err(e) => UsageStep::Known(Err(e)),
        }
    }
}

impl CpuRead {
    /// Goes on after the processor time used was read, or not
    pub fn read(self, outcome: Result<u64, SandboxError>) -> (r: UsageStep)
        ensures
            cpu_read_to(self, outcome, r),
    {
        match outcome {
            Ok(cpu) => UsageStep::Known(Ok((self.memory, cpu))),
            Err(e) => UsageStep::Known(Err(e)),
        }
    }
}

/// What a report says of the resources of a run.
#[derive(Debug, Clone, Copy, PartialEq, Eq, Structural)]
pub struct Measurement {
    /// The most bytes of memory that were in use at once.
    pub memory_peak: u64,
    /// Microseconds of processor time.
    pub cpu_time_us: u64,
}

/// What a report says of resources that could not be read.
pub open spec fn unmeasured() -> Measurement {
    Measurement { memory_peak: 0, cpu_time_us: 0 }
}

/// The peak of the memory in use to read from a control group.
#[derive(Debug)]
pub struct PeakRead {
    /// The name of the group.
    pub group: String,
}

/// The processor time used to read from a control group, after the peak of its
/// memory.
#[derive(Debug)]
pub struct CpuTimeRead {
    /// The name of the group.
    pub group: String,
    /// The peak of the memory in use.
    pub memory_peak: u64,
}

/// What is needed next to report on the resources of a run.
#[derive(Debug)]
pub enum MeasureStep {
    /// Read the peak of the memory in use.
    ReadPeak(PeakRead),
    /// Read the processor time used.
    ReadCpuTime(CpuTimeRead),
    /// The resources are known.
    Measured(Measurement),
}

/// The step `r` is the first towards the resources that a report tells of.
/// Without a control group they are taken to be none.
pub open spec fn measuring_starts(sandbox: Sandbox, r: MeasureStep) -> bool {
    match sandbox.cgroup {
        Some(name) => r matches MeasureStep::ReadPeak(read) && read.group@ == name@,
        None => r == MeasureStep::Measured(unmeasured()),
    }
}

/// The step `r` follows the reading of the peak of the memory in use.
pub open spec fn peak_read_to(
    read: PeakRead,
    outcome: Result<u64, SandboxError>,
    r: MeasureStep,
) -> bool {
    r == match outcome {
        Ok(memory_peak) => MeasureStep::ReadCpuTime(
            CpuTimeRead { group: read.group, memory_peak },
        ),
        Err(_) => MeasureStep::Measured(unmeasured()),
    }
}

/// The step `r` follows the reading of the processor time used.
pub open spec fn cpu_time_read_to(
    read: CpuTimeRead,
    outcome: Result<u64, SandboxError>,
    r: MeasureStep,
) -> bool {
    r == MeasureStep::Measured(
        match outcome {
            Ok(cpu_time_us) => Measurement { memory_peak: read.memory_peak, cpu_time_us },
            Err(_) => unmeasured(),
        },
    )
}

impl PeakRead {
    /// Goes on after the peak of the memory in use was read, or not
    pub fn read(self, outcome: Result<u64, SandboxError>) -> (r: MeasureStep)
        ensures
            peak_read_to(self, outcome, r),
    {
        match outcome {
            Ok(memory_peak) => MeasureStep::ReadCpuTime(
                CpuTimeRead { group: self.group, memory_peak },
            ),
            Err(_) => MeasureStep::Measured(Measurement { memory_peak: 0, cpu_time_us: 0 }),
        }
    }
}

impl CpuTimeRead {
    /// Goes on after the processor time used was read, or not
    pub fn read(self, outcome: Result<u64, SandboxError>) -> (r: MeasureStep)
        ensures
            cpu_time_read_to(self, outcome, r),
    {
        match outcome {
            Ok(cpu_time_us) => MeasureStep::Measured(
                Measurement { memory_peak: self.memory_peak, cpu_time_us },
            ),
            Err(_) => MeasureStep::Measured(Measurement { memory_peak: 0, cpu_time_us: 0 }),
        }
    }
}

/// The report on a process of a sandbox that ended, `elapsed` after the run
/// began, with the resources that were measured.
pub open spec fn report(
    ended: Ended,
    elapsed: Duration,
    measured: Measurement,
) -> SandboxResult {
    SandboxResult {
        exit_code: ended.result.exit_status,
        signal: ended.result.signal,
        timed_out: ended.timed_out,
        memory_peak: measured.memory_peak,
        cpu_time_us: measured.cpu_time_us,
        wall_time_ms: (elapsed.millis() % 0x1_0000_0000_0000_0000) as u64,
    }
}

/// The result `r` reports on a process whose outputs were captured, unless
/// there is no stream.
pub open spec fn stream_reports(
    ended: Ended,
    elapsed: Duration,
    measured: Measurement,
    r: Result<SandboxResult, SandboxError>,
) -> bool {
    if ended.streamed {
        r == Ok::<SandboxResult, SandboxError>(report(ended, elapsed, measured))
    } else {
        r matches Err(e) && e is Io && e.text() == "stream unavailable"@
    }
}

/// The sandbox `after`, with the result `r`, is what an execution with the
/// given outcome makes of the sandbox `before`.
pub open spec fn execution_noted(
    before: Sandbox,
    outcome: Result<Pid, SandboxError>,
    after: Sandbox,
    r: Result<Pid, SandboxError>,
) -> bool {
    &&& r == outcome
    &&& after == match outcome {
        Ok(pid) => Sandbox { pid: Some(pid), ..before },
        Err(_) => before,
    }
}

/// The step `r` is how killing a sandbox begins: the process that it holds gets
/// the signal that ends it for certain; where it holds none, there is nothing
/// to do.
pub open spec fn kill_starts(sandbox: Sandbox, r: Option<KillRequest>) -> bool {
    r == match sandbox.pid {
        Some(pid) => Some(KillRequest { pid, signal: SIGKILL }),
        None => None,
    }
}

/// The sandbox `after`, with the result `r`, is what killing makes of the
/// sandbox `before`, where the kernel reported `failure`.
pub open spec fn kill_noted(
    before: Sandbox,
    failure: Option<Seq<char>>,
    after: Sandbox,
    r: Result<(), SandboxError>,
) -> bool {
    match (before.pid, failure) {
        (None, _) => after == before && r is Ok,
        (Some(_), None) => after == (Sandbox { pid: None, ..before }) && r is Ok,
        (Some(_), Some(cause)) => {
            &&& after == before
            &&& r matches Err(e) && e is Syscall && e.text() == "Failed to kill process: "@ + cause
        },
    }
}

impl Sandbox {
    /// Without privileges a sandbox has a user namespace and no control group.
    pub open spec fn wf(self) -> bool {
        self.resolved_mode is Unprivileged ==> self.config.namespace_config.user
            && self.cgroup is None
    }

    /// Begins to create a new sandbox, with its root directory
    pub fn new(config: SandboxConfig, caps: &SystemCapabilities, mode: ResolvedMode) -> (r:
        CreateRoot)
        ensures
            root_requested(config, *caps, mode, r),
            r.sandbox.wf(),
    {
        let mut config = config;
        if mode.is_unprivileged() && !config.namespace_config.user {
            config.namespace_config.user = true;
        }
        let path = config.root.clone();
        let sandbox = Sandbox {
            config,
            resolved_mode: mode,
            has_landlock: caps.has_landlock,
            pid: None,
            cgroup: None,
        };
        CreateRoot { path, sandbox }
    }

    /// Get sandbox ID
    pub fn id(&self) -> (r: &str)
        ensures
            r@ == self.config.id@,
    {
        self.config.id.as_str()
    }

    /// Get sandbox root
    pub fn root(&self) -> (r: &str)
        ensures
            r@ == self.config.root@,
    {
        self.config.root.as_str()
    }

    /// Check if sandbox is running
    pub fn is_running(&self) -> (r: bool)
        ensures
            r == (self.pid is Some),
    {
        self.pid.is_some()
    }

    /// Get the resolved privilege mode
    pub fn privilege_mode(&self) -> (r: ResolvedMode)
        ensures
            r == self.resolved_mode,
    {
        self.resolved_mode
    }

    /// Build a ProcessConfig from the sandbox configuration; program and
    /// arguments are left empty
    pub fn build_process_config(&self) -> (r: ProcessConfig)
        ensures
            base_process(*self, r),
            r.program@.len() == 0,
            r.args@.len() == 0,
    {
        ProcessConfig {
            program: String::new(),
            args: Vec::new(),
            env: Vec::new(),
            cwd: None,
            chroot_dir: Some(self.config.root.clone()),
            uid: None,
            gid: None,
            seccomp: Some(SeccompFilter::from_profile(self.config.seccomp_profile)),
            rlimits: if self.resolved_mode.is_unprivileged() {
                Some(self.build_rlimit_config())
            } else {
                None
            },
            inherit_env: true,
            use_user_namespace: self.config.namespace_config.user,
            landlock: if self.resolved_mode.is_unprivileged() && self.has_landlock {
                Some("/".to_string())
            } else {
                None
            },
            timeout: self.config.timeout,
        }
    }

    /// Build rlimit config from sandbox config (unprivileged fallback)
    ///
    /// A CPU quota is a rate, which no rlimit can express; the limit on CPU
    /// seconds is a total, so it is taken from the timeout.
    pub fn build_rlimit_config(&self) -> (r: RlimitConfig)
        ensures
            r == process_limits(self.config),
    {
        RlimitConfig {
            max_memory: self.config.memory_limit,
            max_cpu_seconds: match self.config.timeout {
                Some(timeout) => Some(timeout.as_secs()),
                None => None,
            },
            max_processes: match self.config.max_pids {
                Some(max) => Some(max as u64),
                None => None,
            },
        }
    }

    /// Begins with the control group that a privileged run needs.
    pub fn setup_cgroup(&self, run: RunRequest) -> (r: RunStep)
        ensures
            if self.resolved_mode is Unprivileged {
                r == RunStep::Execute(run)
            } else {
                r matches RunStep::CreateCgroup(group) && group.name@ == cgroup_name(*self)
                    && group.limits == group_limits(self.config) && group.run == run
            },
    {
        if self.resolved_mode.is_unprivileged() {
            return RunStep::Execute(run);
        }
        let name = text::concat("sandbox-", self.config.id.as_str());
        let limits = CgroupConfig {
            memory_limit: self.config.memory_limit,
            cpu_quota: self.config.cpu_quota,
            cpu_period: self.config.cpu_period,
            max_pids: self.config.max_pids,
            cpu_weight: None,
        };
        RunStep::CreateCgroup(CgroupRequest { name, limits, run })
    }

    fn start(&self, program: &str, args: &[&str], streamed: bool) -> (r: Result<
        RunStep,
        SandboxError,
    >)
        ensures
            run_starts(*self, program@, args@.map_values(|a: &str| a@), streamed, r),
    {
        if self.is_running() {
            return Err(SandboxError::AlreadyRunning);
        }
        let mut config = self.build_process_config();
        config.program = program.to_string();
        let mut owned: Vec<String> = Vec::new();
        let mut i: usize = 0;
        while i < args.len()
            invariant
                0 <= i <= args@.len(),
                owned@.len() == i,
                forall|j: int| 0 <= j < i ==> (#[trigger] owned@[j])@ == args@[j]@,
            decreases args@.len() - i,
        {
            owned.push(args[i].to_string());
            i = i + 1;
        }
        assert(texts(owned@) =~= args@.map_values(|a: &str| a@));
        config.args = owned;
        Ok(
            self.setup_cgroup(
                RunRequest { config, namespaces: self.config.namespace_config, streamed },
            ),
        )
    }

    /// Begins to run a program in the sandbox
    pub fn run(&self, program: &str, args: &[&str]) -> (r: Result<RunStep, SandboxError>)
        ensures
            run_starts(*self, program@, args@.map_values(|a: &str| a@), false, r),
    {
        self.start(program, args, false)
    }

    /// Begins to run a program with streaming output. The stream is handed out
    /// while the program runs; the actual exit status comes with the end of the
    /// execution.
    pub fn run_with_stream(&self, program: &str, args: &[&str]) -> (r: Result<
        RunStep,
        SandboxError,
    >)
        ensures
            run_starts(*self, program@, args@.map_values(|a: &str| a@), true, r),
    {
        self.start(program, args, true)
    }

    /// Goes on after the limits were applied to the control group, or not;
    /// from then on the sandbox has that group
    pub fn cgroup_limited(&mut self, group: CgroupRequest, outcome: Result<(), SandboxError>) -> (r:
        Result<RunStep, SandboxError>)
        requires
            old(self).resolved_mode is Privileged,
        ensures
            group_limited(*old(self), group, outcome, *final(self), r),
            final(self).wf(),
    {
        match outcome {
            Ok(_) => {
                self.cgroup = Some(group.name);
                Ok(RunStep::Execute(group.run))
            },
            Err(e) => Err(e),
        }
    }

    /// Goes on after the process was executed, or, with captured outputs, was
    /// started, or neither; from then on the sandbox holds the process
    pub fn executed(&mut self, outcome: Result<Pid, SandboxError>) -> (r: Result<Pid, SandboxError>)
        ensures
            execution_noted(*old(self), outcome, *final(self), r),
            old(self).wf() ==> final(self).wf(),
    {
        match outcome {
            Ok(pid) => {
                self.pid = Some(pid);
                Ok(pid)
            },
            Err(e) => Err(e),
        }
    }

    /// Begins to measure the resources that a report tells of
    pub fn measure(&self) -> (r: MeasureStep)
        ensures
            measuring_starts(*self, r),
    {
        match &self.cgroup {
            Some(name) => MeasureStep::ReadPeak(PeakRead { group: name.clone() }),
            None => MeasureStep::Measured(Measurement { memory_peak: 0, cpu_time_us: 0 }),
        }
    }

    /// Reports on a process that ended, `elapsed` after the run began, with
    /// the resources that were measured
    pub fn finish(&self, ended: Ended, elapsed: Duration, measured: Measurement) -> (r:
        SandboxResult)
        ensures
            r == report(ended, elapsed, measured),
    {
        SandboxResult {
            exit_code: ended.result.exit_status,
            signal: ended.result.signal,
            timed_out: ended.timed_out,
            memory_peak: measured.memory_peak,
            cpu_time_us: measured.cpu_time_us,
            wall_time_ms: elapsed.millis_u64(),
        }
    }

    /// Reports on a process whose outputs were captured, if there is a stream
    pub fn finish_with_stream(
        &self,
        ended: Ended,
        elapsed: Duration,
        measured: Measurement,
    ) -> (r: Result<SandboxResult, SandboxError>)
        ensures
            stream_reports(ended, elapsed, measured, r),
    {
        if ended.streamed {
            Ok(self.finish(ended, elapsed, measured))
        } else {
            Err(SandboxError::Io("stream unavailable".to_string()))
        }
    }

    /// Begins to kill the process of the sandbox, if it holds one
    pub fn kill(&self) -> (r: Option<KillRequest>)
        ensures
            kill_starts(*self, r),
    {
        match self.pid {
            Some(pid) => Some(KillRequest { pid, signal: SIGKILL }),
            None => None,
        }
    }

    /// Notes that the process of the sandbox was killed, or, with the error
    /// number, that it could not be
    pub fn killed(&mut self, outcome: Result<(), i32>) -> (r: Result<(), SandboxError>)
        ensures
            kill_noted(
                *old(self),
                match outcome {
                    Ok(_) => None,
                    Err(errno) => Some(errno_text(errno)),
                },
                *final(self),
                r,
            ),
            old(self).wf() ==> final(self).wf(),
    {
        if self.pid.is_some() {
            match outcome {
                Ok(_) => {
                    self.pid = None;
                },
                Err(errno) => {
                    return Err(
                        SandboxError::syscall(
                            "Failed to kill process: ",
                            describe_errno(errno).as_str(),
                        ),
                    );
                },
            }
        }
        Ok(())
    }

    /// Begins to get the resource usage
    pub fn get_resource_usage(&self) -> (r: UsageStep)
        ensures
            usage_starts(*self, r),
    {
        match &self.cgroup {
            Some(name) => UsageStep::ReadMemory(MemoryRead { group: name.clone() }),
            None => UsageStep::Known(Ok((0, 0))),
        }
    }
}

} // verus!
