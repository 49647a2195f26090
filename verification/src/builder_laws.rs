//! What building a sandbox and asking it for something come to, field by field.

use vstd::prelude::*;

use crate::controller::{
    runs, CgroupRequest, CpuRead, CpuTimeRead, CreateRoot, MeasureStep, Measurement, MemoryRead,
    PeakRead, RunRequest, RunStep, Sandbox, SandboxBuilder, SandboxConfig, SandboxResult, UsageStep,
};
use crate::controller_laws::{
    run_executes_what_was_asked_for, sandbox_run, steps_between, RunPhase,
};
use crate::errno::errno_text;
use crate::error::SandboxError;
use crate::execution::environment::{
    base_order_is_kept, last_value, lookup, merged, overrides_win, vars,
};
use crate::execution::launch::Ended;
use crate::execution::process::{KillRequest, Pid, ProcessConfig};
use crate::execution::spawn_laws::lemma_creation;
use crate::limits::RlimitConfig;
use crate::namespace::NamespaceConfig;
use crate::privilege::{PrivilegeMode, ResolvedMode, SystemCapabilities};
use crate::seccomp::SeccompProfile;
use crate::text::texts;
use crate::time::Duration;

verus! {

/// A setting of a configuration.
pub enum Setting {
    Id,
    Root,
    Memory,
    Cpu,
    Pids,
    Profile,
    Namespaces,
    Timeout,
    Mode,
}

/// Two configurations agree in every setting but the given one.
pub open spec fn agree_but(a: SandboxConfig, b: SandboxConfig, changed: Setting) -> bool {
    &&& changed is Id || a.id@ == b.id@
    &&& changed is Root || a.root@ == b.root@
    &&& changed is Memory || a.memory_limit == b.memory_limit
    &&& changed is Cpu || (a.cpu_quota == b.cpu_quota && a.cpu_period == b.cpu_period)
    &&& changed is Pids || a.max_pids == b.max_pids
    &&& changed is Profile || a.seccomp_profile == b.seccomp_profile
    &&& changed is Namespaces || (a.namespace_config.pid == b.namespace_config.pid
        && a.namespace_config.ipc == b.namespace_config.ipc && a.namespace_config.net
        == b.namespace_config.net && a.namespace_config.mount == b.namespace_config.mount
        && a.namespace_config.uts == b.namespace_config.uts && a.namespace_config.user
        == b.namespace_config.user)
    &&& changed is Timeout || a.timeout == b.timeout
    &&& changed is Mode || a.privilege_mode == b.privilege_mode
}

/// A default configuration limits nothing, has the smallest profile but one, the
/// namespaces that are given, and picks its mode by the host.
pub proof fn defaults_limit_nothing(namespaces: NamespaceConfig, r: SandboxConfig)
    requires
        call_ensures(SandboxConfig::with_defaults, (namespaces,), r),
    ensures
        r.id@ == "default"@,
        r.root@ == "/tmp/sandbox"@,
        r.memory_limit is None && r.cpu_quota is None && r.cpu_period is None,
        r.max_pids is None && r.timeout is None,
        r.seccomp_profile == SeccompProfile::Minimal,
        r.namespace_config == namespaces,
        r.privilege_mode == PrivilegeMode::Auto,
{
}

/// A builder begins with the default configuration, but for its identifier.
pub proof fn builders_begin_with_the_defaults(
    id: &str,
    namespaces: NamespaceConfig,
    defaults: SandboxConfig,
    r: SandboxBuilder,
)
    requires
        call_ensures(SandboxConfig::with_defaults, (namespaces,), defaults),
        call_ensures(SandboxBuilder::new, (id, namespaces), r),
    ensures
        r.config.id@ == id@,
        agree_but(r.config, defaults, Setting::Id),
{
}

/// Setting a memory limit sets that one, whatever it is, and nothing else; a
/// text sets what it was parsed to, and an error of parsing is handed on.
pub proof fn memory_limits_are_set(
    builder: SandboxBuilder,
    bytes: u64,
    error: SandboxError,
    direct: SandboxBuilder,
    parsed: Result<SandboxBuilder, SandboxError>,
    failed: Result<SandboxBuilder, SandboxError>,
)
    requires
        call_ensures(SandboxBuilder::memory_limit, (builder, bytes), direct),
        call_ensures(
            SandboxBuilder::memory_limit_str,
            (builder, Ok::<u64, SandboxError>(bytes)),
            parsed,
        ),
        call_ensures(
            SandboxBuilder::memory_limit_str,
            (builder, Err::<u64, SandboxError>(error)),
            failed,
        ),
    ensures
        direct.config.memory_limit == Some(bytes),
        agree_but(direct.config, builder.config, Setting::Memory),
        parsed matches Ok(same) && same.config == direct.config,
        failed matches Err(e) && e == error,
{
}

/// Setting a processor quota sets quota and period, and nothing else.
pub proof fn quotas_are_set(builder: SandboxBuilder, quota: u64, period: u64, r: SandboxBuilder)
    requires
        call_ensures(SandboxBuilder::cpu_quota, (builder, quota, period), r),
    ensures
        r.config.cpu_quota == Some(quota),
        r.config.cpu_period == Some(period),
        agree_but(r.config, builder.config, Setting::Cpu),
{
}

/// A limit in percent makes the quota that share of a period of 100000
/// microseconds, for 1 to 100 percent; any other percentage changes nothing.
pub proof fn percentages_are_set(builder: SandboxBuilder, percent: u32, r: SandboxBuilder)
    requires
        call_ensures(SandboxBuilder::cpu_limit_percent, (builder, percent), r),
    ensures
        agree_but(r.config, builder.config, Setting::Cpu),
        1 <= percent <= 100 ==> r.config.cpu_period == Some(100000u64)
            && r.config.cpu_quota is Some && r.config.cpu_quota->0 * 100 == percent * 100000,
        percent == 0 || percent > 100 ==> r.config.cpu_quota == builder.config.cpu_quota
            && r.config.cpu_period == builder.config.cpu_period,
{
}

/// Each of the other settings is set as asked for, and changes nothing else.
pub proof fn settings_are_set(
    builder: SandboxBuilder,
    max: u32,
    with_pids: SandboxBuilder,
    profile: SeccompProfile,
    with_profile: SandboxBuilder,
    path: &str,
    with_root: SandboxBuilder,
    timeout: Duration,
    with_timeout: SandboxBuilder,
    namespaces: NamespaceConfig,
    with_namespaces: SandboxBuilder,
    mode: PrivilegeMode,
    with_mode: SandboxBuilder,
)
    requires
        call_ensures(SandboxBuilder::max_pids, (builder, max), with_pids),
        call_ensures(SandboxBuilder::seccomp_profile, (builder, profile), with_profile),
        call_ensures(SandboxBuilder::root, (builder, path), with_root),
        call_ensures(SandboxBuilder::timeout, (builder, timeout), with_timeout),
        call_ensures(SandboxBuilder::namespaces, (builder, namespaces), with_namespaces),
        call_ensures(SandboxBuilder::privilege_mode, (builder, mode), with_mode),
    ensures
        with_pids.config.max_pids == Some(max),
        agree_but(with_pids.config, builder.config, Setting::Pids),
        with_profile.config.seccomp_profile == profile,
        agree_but(with_profile.config, builder.config, Setting::Profile),
        with_root.config.root@ == path@,
        agree_but(with_root.config, builder.config, Setting::Root),
        with_timeout.config.timeout == Some(timeout),
        agree_but(with_timeout.config, builder.config, Setting::Timeout),
        with_namespaces.config.namespace_config == namespaces,
        agree_but(with_namespaces.config, builder.config, Setting::Namespaces),
        with_mode.config.privilege_mode == mode,
        agree_but(with_mode.config, builder.config, Setting::Mode),
{
}

/// A namespace is on.
pub open spec fn some_namespace(n: NamespaceConfig) -> bool {
    n.pid || n.ipc || n.net || n.mount || n.uts || n.user
}

/// A configuration is valid if and only if it has an identifier and a namespace,
/// and the host has root for the privileged mode or seccomp for the other. The
/// first thing that is missing is the one reported.
pub proof fn validation_asks_for_what_is_needed(
    config: SandboxConfig,
    caps: SystemCapabilities,
    mode: ResolvedMode,
    checked: Result<(), SandboxError>,
    r: Result<(), SandboxError>,
)
    requires
        call_ensures(SandboxConfig::validate_invariants, (&config,), checked),
        call_ensures(SandboxConfig::validate, (&config, &caps, mode), r),
    ensures
        checked is Ok <==> config.id@.len() > 0 && some_namespace(config.namespace_config),
        r is Ok <==> checked is Ok && (mode == ResolvedMode::Privileged ==> caps.has_root) && (mode
            == ResolvedMode::Unprivileged ==> caps.has_seccomp),
        config.id@.len() == 0 ==> (r matches Err(SandboxError::InvalidConfig(m)) && m@
            == "Sandbox ID cannot be empty"@) && (checked matches Err(SandboxError::InvalidConfig(m))
            && m@ == "Sandbox ID cannot be empty"@),
        config.id@.len() > 0 && !some_namespace(config.namespace_config) ==> (r matches Err(
            SandboxError::InvalidConfig(m),
        ) && m@ == "At least one namespace must be enabled"@) && (checked matches Err(
            SandboxError::InvalidConfig(m),
        ) && m@ == "At least one namespace must be enabled"@),
        checked is Ok && mode == ResolvedMode::Privileged && !caps.has_root ==> (r matches Err(
            SandboxError::PermissionDenied(m),
        ) && m@ == "Privileged mode requires root privileges"@),
        checked is Ok && mode == ResolvedMode::Unprivileged && !caps.has_seccomp ==> (
        r matches Err(SandboxError::FeatureNotAvailable(m)) && m@
            == "Seccomp is required for unprivileged sandboxing"@),
{
}

/// The sandbox has the configuration in every field, except that without
/// privileges the user namespace is on.
pub open spec fn has_configuration(
    sandbox: Sandbox,
    config: SandboxConfig,
    caps: SystemCapabilities,
    mode: ResolvedMode,
) -> bool {
    &&& sandbox.config.id@ == config.id@
    &&& sandbox.config.root@ == config.root@
    &&& sandbox.config.memory_limit == config.memory_limit
    &&& sandbox.config.cpu_quota == config.cpu_quota
    &&& sandbox.config.cpu_period == config.cpu_period
    &&& sandbox.config.max_pids == config.max_pids
    &&& sandbox.config.seccomp_profile == config.seccomp_profile
    &&& sandbox.config.timeout == config.timeout
    &&& sandbox.config.privilege_mode == config.privilege_mode
    &&& sandbox.config.namespace_config.pid == config.namespace_config.pid
    &&& sandbox.config.namespace_config.ipc == config.namespace_config.ipc
    &&& sandbox.config.namespace_config.net == config.namespace_config.net
    &&& sandbox.config.namespace_config.mount == config.namespace_config.mount
    &&& sandbox.config.namespace_config.uts == config.namespace_config.uts
    &&& sandbox.config.namespace_config.user == (config.namespace_config.user || mode
        == ResolvedMode::Unprivileged)
    &&& sandbox.resolved_mode == mode
    &&& sandbox.has_landlock == caps.has_landlock
    &&& sandbox.pid is None
    &&& sandbox.cgroup is None
}

/// A sandbox that was built has the configuration that it was built from, in
/// every field, except that without privileges the user namespace is on; its
/// root directory is the one of the configuration. Where the directory could
/// not be created, the cause is reported.
pub proof fn built_sandboxes_keep_their_configuration(
    builder: SandboxBuilder,
    caps: SystemCapabilities,
    mode: ResolvedMode,
    step: CreateRoot,
    cause: String,
    made: Result<Sandbox, SandboxError>,
    failed: Result<Sandbox, SandboxError>,
)
    requires
        call_ensures(
            SandboxBuilder::build,
            (builder, &caps, mode),
            Ok::<CreateRoot, SandboxError>(step),
        ),
        call_ensures(CreateRoot::created, (step, Ok::<(), String>(())), made),
        call_ensures(CreateRoot::created, (step, Err::<(), String>(cause)), failed),
    ensures
        step.path@ == builder.config.root@,
        made matches Ok(sandbox) && has_configuration(sandbox, builder.config, caps, mode),
        failed matches Err(SandboxError::Io(m)) && m@ == "Failed to create root directory: "@
            + cause@,
{
}

/// Building asks for a directory if and only if the configuration is valid, and
/// otherwise ends with what is missing.
pub proof fn only_valid_configurations_are_built(
    builder: SandboxBuilder,
    caps: SystemCapabilities,
    mode: ResolvedMode,
    r: Result<CreateRoot, SandboxError>,
)
    requires
        call_ensures(SandboxBuilder::build, (builder, &caps, mode), r),
    ensures
        r is Ok <==> builder.config.id@.len() > 0 && some_namespace(
            builder.config.namespace_config,
        ) && (mode == ResolvedMode::Privileged ==> caps.has_root) && (mode
            == ResolvedMode::Unprivileged ==> caps.has_seccomp),
        builder.config.id@.len() == 0 ==> (r matches Err(SandboxError::InvalidConfig(m)) && m@
            == "Sandbox ID cannot be empty"@),
{
}

/// A sandbox made from a configuration has it, in every field, except that
/// without privileges the user namespace is on.
pub proof fn new_sandboxes_keep_their_configuration(
    config: SandboxConfig,
    caps: SystemCapabilities,
    mode: ResolvedMode,
    step: CreateRoot,
)
    requires
        call_ensures(Sandbox::new, (config, &caps, mode), step),
    ensures
        step.path@ == config.root@,
        has_configuration(step.sandbox, config, caps, mode),
{
}

/// A sandbox tells its identifier, its root, whether it holds a process, and
/// its mode.
pub proof fn sandboxes_tell_of_themselves(
    sandbox: Sandbox,
    id: &str,
    root: &str,
    running: bool,
    mode: ResolvedMode,
)
    requires
        call_ensures(Sandbox::id, (&sandbox,), id),
        call_ensures(Sandbox::root, (&sandbox,), root),
        call_ensures(Sandbox::is_running, (&sandbox,), running),
        call_ensures(Sandbox::privilege_mode, (&sandbox,), mode),
    ensures
        id@ == sandbox.config.id@,
        root@ == sandbox.config.root@,
        running <==> sandbox.pid is Some,
        mode == sandbox.resolved_mode,
{
}

/// The limits on a process: the memory limit, the number of processes, and the
/// whole seconds of the timeout as processor time, each if it is set.
pub open spec fn limits_of(config: SandboxConfig, limits: RlimitConfig) -> bool {
    &&& limits.max_memory == config.memory_limit
    &&& config.timeout matches Some(timeout) ==> limits.max_cpu_seconds == Some(timeout.secs)
    &&& config.timeout is None ==> limits.max_cpu_seconds is None
    &&& config.max_pids matches Some(max) ==> limits.max_processes == Some(max as u64)
    &&& config.max_pids is None ==> limits.max_processes is None
}

/// The process configuration is that of a process of the sandbox.
pub open spec fn configures_for(sandbox: Sandbox, p: ProcessConfig) -> bool {
    &&& p.env@.len() == 0 && p.inherit_env
    &&& p.cwd is None
    &&& p.uid is None && p.gid is None
    &&& p.chroot_dir is Some && p.chroot_dir->0@ == sandbox.config.root@
    &&& p.seccomp is Some && p.seccomp->0.profile == sandbox.config.seccomp_profile
    &&& sandbox.resolved_mode == ResolvedMode::Unprivileged ==> p.rlimits is Some && limits_of(
        sandbox.config,
        p.rlimits->0,
    )
    &&& sandbox.resolved_mode == ResolvedMode::Privileged ==> p.rlimits is None
    &&& p.use_user_namespace == sandbox.config.namespace_config.user
    &&& p.landlock is Some <==> sandbox.resolved_mode == ResolvedMode::Unprivileged
        && sandbox.has_landlock
    &&& p.landlock is Some ==> p.landlock->0@ == "/"@
    &&& p.timeout == sandbox.config.timeout
}

/// A process of a sandbox is configured by the sandbox: root, filter, limits,
/// user namespace, Landlock and timeout.
pub proof fn processes_are_configured_by_the_sandbox(
    sandbox: Sandbox,
    p: ProcessConfig,
    limits: RlimitConfig,
)
    requires
        call_ensures(Sandbox::build_process_config, (&sandbox,), p),
        call_ensures(Sandbox::build_rlimit_config, (&sandbox,), limits),
    ensures
        configures_for(sandbox, p),
        p.program@.len() == 0 && p.args@.len() == 0,
        limits_of(sandbox.config, limits),
{
}

/// The request is for the program with its arguments, in the sandbox, with
/// each of its namespaces.
pub open spec fn asks_for(
    sandbox: Sandbox,
    program: Seq<char>,
    args: Seq<Seq<char>>,
    streamed: bool,
    request: RunRequest,
) -> bool {
    &&& configures_for(sandbox, request.config)
    &&& request.config.program@ == program
    &&& request.config.args@.len() == args.len()
    &&& forall|i: int| 0 <= i < args.len() ==> (#[trigger] request.config.args@[i])@ == args[i]
    &&& request.namespaces.pid == sandbox.config.namespace_config.pid
    &&& request.namespaces.ipc == sandbox.config.namespace_config.ipc
    &&& request.namespaces.net == sandbox.config.namespace_config.net
    &&& request.namespaces.mount == sandbox.config.namespace_config.mount
    &&& request.namespaces.uts == sandbox.config.namespace_config.uts
    &&& request.namespaces.user == sandbox.config.namespace_config.user
    &&& request.streamed == streamed
}

/// The control group is that of the sandbox: its name has the identifier, and
/// its limits are those of the configuration.
pub open spec fn groups_for(sandbox: Sandbox, group: CgroupRequest) -> bool {
    &&& group.name@ == "sandbox-"@ + sandbox.config.id@
    &&& group.limits.memory_limit == sandbox.config.memory_limit
    &&& group.limits.cpu_quota == sandbox.config.cpu_quota
    &&& group.limits.cpu_period == sandbox.config.cpu_period
    &&& group.limits.max_pids == sandbox.config.max_pids
    &&& group.limits.cpu_weight is None
}

/// How a run begins: not at all while the sandbox holds a process; with the
/// process, without privileges; and with a control group for it otherwise.
pub open spec fn run_is_begun(
    sandbox: Sandbox,
    program: Seq<char>,
    args: Seq<Seq<char>>,
    streamed: bool,
    r: Result<RunStep, SandboxError>,
) -> bool {
    &&& r is Ok <==> sandbox.pid is None
    &&& r matches Err(e) ==> e is AlreadyRunning
    &&& r matches Ok(step) ==> match step {
        RunStep::Execute(request) => sandbox.resolved_mode == ResolvedMode::Unprivileged
            && asks_for(sandbox, program, args, streamed, request),
        RunStep::CreateCgroup(group) => sandbox.resolved_mode == ResolvedMode::Privileged
            && groups_for(sandbox, group) && asks_for(sandbox, program, args, streamed, group.run),
        RunStep::LimitCgroup(_) => false,
    }
}

proof fn lemma_asks_for(
    sandbox: Sandbox,
    program: Seq<char>,
    args: Seq<Seq<char>>,
    streamed: bool,
    request: RunRequest,
)
    requires
        runs(sandbox, program, args, streamed, request),
    ensures
        asks_for(sandbox, program, args, streamed, request),
{
    let given = texts(request.config.args@);
    assert(given.len() == request.config.args@.len());
    assert forall|i: int| 0 <= i < args.len() implies (#[trigger] request.config.args@[i])@
        == args[i] by {
        assert(given[i] == request.config.args@[i]@);
    }
}

/// A run is for the program and the arguments that were given, in the sandbox
/// as it is configured; capturing the outputs changes nothing else.
pub proof fn runs_are_for_what_was_given(
    sandbox: Sandbox,
    program: &str,
    args: &[&str],
    plain: Result<RunStep, SandboxError>,
    captured: Result<RunStep, SandboxError>,
)
    requires
        call_ensures(Sandbox::run, (&sandbox, program, args), plain),
        call_ensures(Sandbox::run_with_stream, (&sandbox, program, args), captured),
    ensures
        run_is_begun(sandbox, program@, Seq::new(args@.len(), |i: int| args@[i]@), false, plain),
        run_is_begun(sandbox, program@, Seq::new(args@.len(), |i: int| args@[i]@), true, captured),
{
    let given = args@.map_values(|a: &str| a@);
    let wanted = Seq::new(args@.len(), |i: int| args@[i]@);
    assert(given =~= wanted);
    if sandbox.pid is None {
        if sandbox.resolved_mode is Unprivileged {
            lemma_asks_for(sandbox, program@, given, false, plain->Ok_0->Execute_0);
            lemma_asks_for(sandbox, program@, given, true, captured->Ok_0->Execute_0);
        } else {
            lemma_asks_for(sandbox, program@, given, false, plain->Ok_0->CreateCgroup_0.run);
            lemma_asks_for(sandbox, program@, given, true, captured->Ok_0->CreateCgroup_0.run);
        }
    }
}

/// A request is executed at once without privileges, and in a control group of
/// the sandbox otherwise; it stays as it is.
pub proof fn groups_are_set_up_for_privileged_runs(sandbox: Sandbox, run: RunRequest, r: RunStep)
    requires
        call_ensures(Sandbox::setup_cgroup, (&sandbox, run), r),
    ensures
        sandbox.resolved_mode == ResolvedMode::Unprivileged ==> r == RunStep::Execute(run),
        sandbox.resolved_mode == ResolvedMode::Privileged ==> (r matches RunStep::CreateCgroup(
            group,
        ) && groups_for(sandbox, group) && group.run == run),
{
}

/// A control group that was created is limited next, as it is; an error ends
/// the run.
pub proof fn groups_are_created_then_limited(
    group: CgroupRequest,
    error: SandboxError,
    made: Result<RunStep, SandboxError>,
    failed: Result<RunStep, SandboxError>,
)
    requires
        call_ensures(CgroupRequest::created, (group, Ok::<(), SandboxError>(())), made),
        call_ensures(CgroupRequest::created, (group, Err::<(), SandboxError>(error)), failed),
    ensures
        made matches Ok(RunStep::LimitCgroup(same)) && same == group,
        failed matches Err(e) && e == error,
{
}

/// A control group that was limited runs its request, and is from then on the
/// one of the sandbox; an error ends the run and leaves the sandbox as it was.
/// Nothing else of the sandbox changes. Every sandbox with privileges is taken.
pub proof fn limited_groups_run_their_request()
    ensures
        forall|s: &mut Sandbox, group: CgroupRequest, outcome: Result<(), SandboxError>|
            s.resolved_mode == ResolvedMode::Privileged ==> #[trigger] call_requires(
                Sandbox::cgroup_limited,
                (s, group, outcome),
            ),
        forall|
            s: &mut Sandbox,
            group: CgroupRequest,
            outcome: Result<(), SandboxError>,
            r: Result<RunStep, SandboxError>,
        | #[trigger]
            call_ensures(Sandbox::cgroup_limited, (s, group, outcome), r) ==> {
                &&& outcome is Ok ==> (r matches Ok(RunStep::Execute(request)) && request
                    == group.run) && final(s).cgroup == Some(group.name)
                &&& outcome matches Err(e) ==> r == Err::<RunStep, SandboxError>(e)
                    && final(s).cgroup == s.cgroup
                &&& final(s).config == s.config && final(s).resolved_mode == s.resolved_mode
                    && final(s).pid == s.pid && final(s).has_landlock == s.has_landlock
            },
{
}

/// A sandbox holds the process that was executed for it, and no other; an
/// execution that failed leaves it as it was, and its error is handed on.
/// Nothing else of the sandbox changes.
pub proof fn executed_processes_are_held()
    ensures
        forall|s: &mut Sandbox, outcome: Result<Pid, SandboxError>, r: Result<Pid, SandboxError>|
         #[trigger]
            call_ensures(Sandbox::executed, (s, outcome), r) ==> {
                &&& outcome matches Ok(pid) ==> final(s).pid == Some(pid) && r == Ok::<
                    Pid,
                    SandboxError,
                >(pid)
                &&& outcome matches Err(e) ==> final(s).pid == s.pid && r == Err::<
                    Pid,
                    SandboxError,
                >(e)
                &&& final(s).config == s.config && final(s).resolved_mode == s.resolved_mode
                    && final(s).cgroup == s.cgroup && final(s).has_landlock == s.has_landlock
            },
{
}

/// Killing sends signal 9 to the process that the sandbox holds, if it holds
/// one, and nothing otherwise.
pub proof fn kills_reach_the_held_process(sandbox: Sandbox, request: Option<KillRequest>)
    requires
        call_ensures(Sandbox::kill, (&sandbox,), request),
    ensures
        request is Some <==> sandbox.pid is Some,
        request matches Some(kill) ==> kill.signal == 9 && sandbox.pid == Some(kill.pid),
{
}

/// A sandbox whose process was killed holds none any more; where it could not
/// be, it holds the same, and the error of the kernel is reported. A sandbox
/// without a process stays without one. Nothing else of it changes.
pub proof fn killed_processes_are_let_go()
    ensures
        forall|s: &mut Sandbox, outcome: Result<(), i32>, r: Result<(), SandboxError>| #[trigger]
            call_ensures(Sandbox::killed, (s, outcome), r) ==> {
                &&& outcome is Ok || s.pid is None ==> r is Ok && final(s).pid is None
                &&& outcome is Err && s.pid is Some ==> final(s).pid == s.pid && (r matches Err(
                    SandboxError::Syscall(m),
                ) && m@ == "Failed to kill process: "@ + errno_text(outcome->Err_0))
                &&& final(s).config == s.config && final(s).resolved_mode == s.resolved_mode
                    && final(s).cgroup == s.cgroup && final(s).has_landlock == s.has_landlock
            },
{
}

/// Preparing an environment changes nothing of a configuration but its
/// environment, and that only where it is inherited. Then it has, for every
/// name, the last value that the configuration gave it, and otherwise that of
/// the parent, whose variables come first, in their order.
pub proof fn preparing_sets_the_environment()
    ensures
        forall|c: &mut ProcessConfig, parent: Vec<(String, String)>| #[trigger]
            call_ensures(ProcessConfig::prepare_environment, (c, parent), ()) ==> prepared_from(
                *c,
                parent@,
                *final(c),
            ),
{
    assert forall|c: &mut ProcessConfig, parent: Vec<(String, String)>| #[trigger]
        call_ensures(ProcessConfig::prepare_environment, (c, parent), ()) implies prepared_from(
        *c,
        parent@,
        *final(c),
    ) by {
        lemma_prepared_from(*c, parent@, *final(c));
    }
}

/// The configuration `after` is `before` with its environment prepared.
pub open spec fn prepared_from(
    before: ProcessConfig,
    parent: Seq<(String, String)>,
    after: ProcessConfig,
) -> bool {
    &&& after.program == before.program && after.args == before.args && after.cwd == before.cwd
    &&& after.chroot_dir == before.chroot_dir && after.uid == before.uid && after.gid == before.gid
    &&& after.seccomp == before.seccomp && after.rlimits == before.rlimits
    &&& after.inherit_env == before.inherit_env && after.use_user_namespace
        == before.use_user_namespace
    &&& after.landlock == before.landlock && after.timeout == before.timeout
    &&& !before.inherit_env ==> same_variables(after.env@, before.env@)
    &&& before.inherit_env ==> {
        &&& after.env@.len() >= parent.len()
        &&& forall|i: int| 0 <= i < parent.len() ==> (#[trigger] after.env@[i]).0@ == parent[i].0@
        &&& forall|name: Seq<char>| #[trigger]
            lookup(vars(after.env@), name) == match last_value(vars(before.env@), name) {
                Some(value) => Some(value),
                None => lookup(vars(parent), name),
            }
    }
}

/// Two lists of variables have the same names and values, in the same order.
pub open spec fn same_variables(a: Seq<(String, String)>, b: Seq<(String, String)>) -> bool {
    &&& a.len() == b.len()
    &&& forall|i: int| 0 <= i < a.len() ==> (#[trigger] a[i]).0@ == b[i].0@ && a[i].1@ == b[i].1@
}

proof fn lemma_same_variables(a: Seq<(String, String)>, b: Seq<(String, String)>)
    requires
        vars(a) == vars(b),
    ensures
        same_variables(a, b),
{
    assert(vars(a).len() == a.len() && vars(b).len() == b.len());
    assert forall|i: int| 0 <= i < a.len() implies (#[trigger] a[i]).0@ == b[i].0@ && a[i].1@
        == b[i].1@ by {
        assert(vars(a)[i] == (a[i].0@, a[i].1@));
        assert(vars(b)[i] == (b[i].0@, b[i].1@));
    }
}

proof fn lemma_prepared_from(
    before: ProcessConfig,
    parent: Seq<(String, String)>,
    after: ProcessConfig,
)
    requires
        after == (ProcessConfig { env: after.env, ..before }),
        vars(after.env@) == if before.inherit_env {
            merged(vars(parent), vars(before.env@))
        } else {
            vars(before.env@)
        },
    ensures
        prepared_from(before, parent, after),
{
    if before.inherit_env {
        let base = vars(parent);
        let overrides = vars(before.env@);
        let all = vars(after.env@);
        base_order_is_kept(base, overrides);
        assert(base.len() == parent.len() && all.len() == after.env@.len());
        assert forall|i: int| 0 <= i < parent.len() implies (#[trigger] after.env@[i]).0@
            == parent[i].0@ by {
            assert(all[i].0 == after.env@[i].0@);
            assert(base[i].0 == parent[i].0@);
        }
        assert forall|name: Seq<char>| #[trigger]
            lookup(all, name) == match last_value(overrides, name) {
                Some(value) => Some(value),
                None => lookup(base, name),
            } by {
            overrides_win(base, overrides, name);
        }
    } else {
        lemma_same_variables(after.env@, before.env@);
    }
}

/// The number of a process is the one that it was made from.
pub proof fn process_numbers_are_kept(raw: i32, r: Pid)
    requires
        call_ensures(Pid::from_raw, (raw,), r),
    ensures
        r.raw == raw,
{
}

/// Usage is read from the control group of the sandbox, memory before processor
/// time, and given as read; the first error is handed on. Without a group there
/// is none.
pub proof fn usage_is_what_was_read(
    sandbox: Sandbox,
    first: UsageStep,
    memory: MemoryRead,
    read: Result<u64, SandboxError>,
    second: UsageStep,
    cpu: CpuRead,
    time: Result<u64, SandboxError>,
    third: UsageStep,
)
    requires
        call_ensures(Sandbox::get_resource_usage, (&sandbox,), first),
        call_ensures(MemoryRead::read, (memory, read), second),
        call_ensures(CpuRead::read, (cpu, time), third),
    ensures
        sandbox.cgroup is None ==> (first matches UsageStep::Known(Ok(used)) && used.0 == 0 && used.1
            == 0),
        sandbox.cgroup matches Some(name) ==> (first matches UsageStep::ReadMemory(group)
            && group.group@ == name@),
        read matches Ok(bytes) ==> (second matches UsageStep::ReadCpu(group) && group.group
            == memory.group && group.memory == bytes),
        read matches Err(e) ==> (second matches UsageStep::Known(Err(same)) && same == e),
        time matches Ok(used) ==> (third matches UsageStep::Known(Ok(both)) && both.0 == cpu.memory
            && both.1 == used),
        time matches Err(e) ==> (third matches UsageStep::Known(Err(same)) && same == e),
{
}

/// A measurement is read from the control group of the sandbox, the peak of its
/// memory before its processor time, and given as read; where one cannot be
/// read both are 0, as without a group.
pub proof fn measurements_are_what_was_read(
    sandbox: Sandbox,
    first: MeasureStep,
    memory: PeakRead,
    read: Result<u64, SandboxError>,
    second: MeasureStep,
    cpu: CpuTimeRead,
    time: Result<u64, SandboxError>,
    third: MeasureStep,
)
    requires
        call_ensures(Sandbox::measure, (&sandbox,), first),
        call_ensures(PeakRead::read, (memory, read), second),
        call_ensures(CpuTimeRead::read, (cpu, time), third),
    ensures
        sandbox.cgroup is None ==> (first matches MeasureStep::Measured(m) && m.memory_peak == 0
            && m.cpu_time_us == 0),
        sandbox.cgroup matches Some(name) ==> (first matches MeasureStep::ReadPeak(group)
            && group.group@ == name@),
        read matches Ok(bytes) ==> (second matches MeasureStep::ReadCpuTime(group) && group.group
            == memory.group && group.memory_peak == bytes),
        read is Err ==> (second matches MeasureStep::Measured(m) && m.memory_peak == 0
            && m.cpu_time_us == 0),
        time matches Ok(used) ==> (third matches MeasureStep::Measured(m) && m.memory_peak
            == cpu.memory_peak && m.cpu_time_us == used),
        time is Err ==> (third matches MeasureStep::Measured(m) && m.memory_peak == 0
            && m.cpu_time_us == 0),
{
}

/// A report gives the end of the process as it was, what was measured, and the
/// time since the run began in milliseconds; with captured outputs the same,
/// unless there is no stream, which is an error.
pub proof fn reports_give_the_end_as_it_was(
    sandbox: Sandbox,
    ended: Ended,
    elapsed: Duration,
    measured: Measurement,
    r: SandboxResult,
    streamed: Result<SandboxResult, SandboxError>,
)
    requires
        call_ensures(Sandbox::finish, (&sandbox, ended, elapsed, measured), r),
        call_ensures(Sandbox::finish_with_stream, (&sandbox, ended, elapsed, measured), streamed),
    ensures
        r.exit_code == ended.result.exit_status,
        r.signal == ended.result.signal,
        r.timed_out == ended.timed_out,
        r.memory_peak == measured.memory_peak,
        r.cpu_time_us == measured.cpu_time_us,
        r.wall_time_ms == (elapsed.secs * 1000 + elapsed.nanos / 1_000_000)
            % 0x1_0000_0000_0000_0000,
        ended.streamed ==> (streamed matches Ok(same) && same == r),
        !ended.streamed ==> (streamed matches Err(SandboxError::Io(m)) && m@
            == "stream unavailable"@),
{
    assert(elapsed.millis() == elapsed.secs * 1000 + elapsed.nanos / 1_000_000);
}

/// A program was killed by the filter if and only if its exit code is 159: then
/// there is a message, and the check is an error that gives advice; otherwise
/// there is none, and the check gives the report itself.
pub proof fn filter_kills_have_the_code(
    result: SandboxResult,
    killed: bool,
    message: Option<&'static str>,
    checked: Result<&SandboxResult, SandboxError>,
)
    requires
        call_ensures(SandboxResult::killed_by_seccomp, (&result,), killed),
        call_ensures(SandboxResult::seccomp_error, (&result,), message),
        call_ensures(SandboxResult::check_seccomp_error, (&result,), checked),
    ensures
        killed <==> result.exit_code == 159,
        message is Some <==> killed,
        message matches Some(m) ==> m@
            == "The action requires more permissions than were granted."@,
        checked is Err <==> killed,
        checked matches Err(e) ==> (e matches SandboxError::PermissionDenied(m) && m@
            == "The seccomp profile is too restrictive for this operation. Try using a less restrictive profile (e.g., SeccompProfile::Compute or SeccompProfile::Unrestricted)"@),
        checked matches Ok(same) ==> *same == result,
{
}

/// A default process configuration asks for nothing but the environment of the
/// parent.
pub proof fn default_processes_ask_for_nothing(r: ProcessConfig)
    requires
        call_ensures(ProcessConfig::default, (), r),
    ensures
        r.program@.len() == 0 && r.args@.len() == 0 && r.env@.len() == 0,
        r.cwd is None && r.chroot_dir is None && r.uid is None && r.gid is None,
        r.seccomp is None && r.rlimits is None && r.landlock is None && r.timeout is None,
        r.inherit_env && !r.use_user_namespace,
{
}

/// The process that a run creates has each of the namespaces of its sandbox, and
/// no other; it is the program that was asked for, with its arguments, as the
/// sandbox configures it, in the environment of the parent.
pub proof fn created_process_is_that_of_the_sandbox(
    program: Seq<char>,
    args: Seq<Seq<char>>,
    streamed: bool,
    sandboxes: Seq<Sandbox>,
    phases: Seq<RunPhase>,
    k: int,
) -> (parent: Seq<(String, String)>)
    requires
        sandbox_run(program, args, streamed, sandboxes, phases),
        0 <= k < phases.len(),
        phases[k] matches RunPhase::Executing(step) && step is Spawn,
    ensures
        ({
            let request = phases[k]->Executing_0->Spawn_request;
            let namespaces = sandboxes[0].config.namespace_config;
            &&& request.namespaces.pid == namespaces.pid
            &&& request.namespaces.ipc == namespaces.ipc
            &&& request.namespaces.net == namespaces.net
            &&& request.namespaces.mount == namespaces.mount
            &&& request.namespaces.uts == namespaces.uts
            &&& request.namespaces.user == namespaces.user
            &&& request.streamed == streamed
            &&& request.config.program@ == program
            &&& request.config.args@.len() == args.len()
            &&& forall|i: int|
                0 <= i < args.len() ==> (#[trigger] request.config.args@[i])@ == args[i]
            &&& request.config.chroot_dir is Some && request.config.chroot_dir->0@
                == sandboxes[0].config.root@
            &&& request.config.seccomp is Some && request.config.seccomp->0.profile
                == sandboxes[0].config.seccomp_profile
            &&& sandboxes[0].resolved_mode == ResolvedMode::Unprivileged
                ==> request.config.rlimits is Some && limits_of(
                sandboxes[0].config,
                request.config.rlimits->0,
            )
            &&& request.config.timeout == sandboxes[0].config.timeout
            &&& request.config.env@.len() == parent.len()
            &&& forall|i: int|
                0 <= i < parent.len() ==> (#[trigger] request.config.env@[i]).0@ == parent[i].0@
                    && request.config.env@[i].1@ == parent[i].1@
        }),
{
    let (asked, parent, from) = run_executes_what_was_asked_for(
        program,
        args,
        streamed,
        sandboxes,
        phases,
        k,
    );
    let steps = steps_between(phases, from, k + 1);
    assert(steps[k - from] == phases[k]->Executing_0);
    lemma_asks_for(sandboxes[0], program, args, streamed, asked);
    lemma_creation(asked.config, asked.namespaces, parent, streamed, steps, k - from);
    let env = steps[k - from]->Spawn_request.config.env@;
    assert(vars(asked.config.env@).len() == 0);
    assert(vars(env) == vars(parent));
    assert(vars(env).len() == env.len() && vars(parent).len() == parent.len());
    assert forall|i: int| 0 <= i < parent.len() implies (#[trigger] env[i]).0@ == parent[i].0@
        && env[i].1@ == parent[i].1@ by {
        assert(vars(env)[i] == (env[i].0@, env[i].1@));
        assert(vars(parent)[i] == (parent[i].0@, parent[i].1@));
    }
    parent
}

/// The limits that are given to a builder are those that a run of the sandbox
/// enforces: without privileges on its process, and otherwise on its control
/// group. Root, profile and timeout of the builder are those of the process.
pub proof fn given_limits_are_enforced(
    builder: SandboxBuilder,
    caps: SystemCapabilities,
    mode: ResolvedMode,
    step: CreateRoot,
    sandbox: Sandbox,
    program: &str,
    args: &[&str],
    r: Result<RunStep, SandboxError>,
)
    requires
        call_ensures(
            SandboxBuilder::build,
            (builder, &caps, mode),
            Ok::<CreateRoot, SandboxError>(step),
        ),
        call_ensures(
            CreateRoot::created,
            (step, Ok::<(), String>(())),
            Ok::<Sandbox, SandboxError>(sandbox),
        ),
        call_ensures(Sandbox::run, (&sandbox, program, args), r),
    ensures
        mode == ResolvedMode::Unprivileged ==> (r matches Ok(RunStep::Execute(request))
            && request.config.rlimits is Some && limits_of(
            builder.config,
            request.config.rlimits->0,
        ) && request.namespaces.user && request.config.chroot_dir is Some
            && request.config.chroot_dir->0@ == builder.config.root@
            && request.config.seccomp is Some && request.config.seccomp->0.profile
            == builder.config.seccomp_profile && request.config.timeout == builder.config.timeout),
        mode == ResolvedMode::Privileged ==> (r matches Ok(RunStep::CreateCgroup(group))
            && group.name@ == "sandbox-"@ + builder.config.id@ && group.limits.memory_limit
            == builder.config.memory_limit && group.limits.cpu_quota == builder.config.cpu_quota
            && group.limits.cpu_period == builder.config.cpu_period && group.limits.max_pids
            == builder.config.max_pids && group.run.namespaces == builder.config.namespace_config
            && group.run.config.chroot_dir is Some && group.run.config.chroot_dir->0@
            == builder.config.root@ && group.run.config.seccomp is Some
            && group.run.config.seccomp->0.profile == builder.config.seccomp_profile
            && group.run.config.timeout == builder.config.timeout),
{
}

} // verus!
