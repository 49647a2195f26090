use sandbox_rs::controller::{
    MeasureStep, Measurement, RunStep, Sandbox, SandboxBuilder, SandboxConfig, SandboxResult,
    UsageStep,
};
use sandbox_rs::error::SandboxError;
use sandbox_rs::execution::launch::Ended;
use sandbox_rs::execution::process::{KillRequest, Pid, ProcessResult};
use sandbox_rs::namespace::NamespaceConfig;
use sandbox_rs::privilege::{PrivilegeMode, ResolvedMode, SystemCapabilities};
use sandbox_rs::seccomp::SeccompProfile;
use sandbox_rs::time::Duration;

fn some_namespaces() -> NamespaceConfig {
    NamespaceConfig { pid: true, ipc: true, net: true, mount: true, uts: false, user: false }
}

fn no_namespaces() -> NamespaceConfig {
    NamespaceConfig { pid: false, ipc: false, net: false, mount: false, uts: false, user: false }
}

fn plain_host() -> SystemCapabilities {
    SystemCapabilities { has_root: false, has_seccomp: true, has_landlock: true }
}

fn builder(id: &str) -> SandboxBuilder {
    SandboxBuilder::new(id, some_namespaces())
}

fn config(id: &str) -> SandboxConfig {
    SandboxConfig {
        id: id.to_string(),
        root: "/tmp/work/root".to_string(),
        ..SandboxConfig::with_defaults(some_namespaces())
    }
}

fn unprivileged(id: &str) -> Sandbox {
    Sandbox::new(config(id), &plain_host(), ResolvedMode::Unprivileged).created(Ok(())).unwrap()
}

fn privileged(id: &str) -> Sandbox {
    Sandbox::new(config(id), &plain_host(), ResolvedMode::Privileged).created(Ok(())).unwrap()
}

fn process(pid: i32, exit_status: i32) -> Ended {
    let pid = Pid::from_raw(pid);
    let result = ProcessResult { pid, exit_status, signal: None, exec_time_ms: 0 };
    Ended { result, streamed: false, timed_out: false }
}

/// What a sandbox uses, where its control group reads as given.
fn usage(
    sandbox: &Sandbox,
    memory: Result<u64, SandboxError>,
    cpu: Result<u64, SandboxError>,
) -> Result<(u64, u64), SandboxError> {
    let read = match sandbox.get_resource_usage() {
        UsageStep::ReadMemory(read) => read,
        UsageStep::Known(usage) => return usage,
        other => panic!("unexpected {:?}", other),
    };
    assert_eq!(Some(&read.group), sandbox.cgroup.as_ref());
    match read.read(memory) {
        UsageStep::ReadCpu(read) => {
            assert_eq!(Some(&read.group), sandbox.cgroup.as_ref());
            match read.read(cpu) {
                UsageStep::Known(usage) => usage,
                other => panic!("unexpected {:?}", other),
            }
        }
        UsageStep::Known(usage) => usage,
        other => panic!("unexpected {:?}", other),
    }
}

fn result_with_exit_code(exit_code: i32) -> SandboxResult {
    SandboxResult {
        exit_code,
        signal: None,
        timed_out: false,
        memory_peak: 0,
        cpu_time_us: 0,
        wall_time_ms: 0,
    }
}

/// What a report tells of a sandbox, where its control group reads as given.
fn measured(
    sandbox: &Sandbox,
    peak: Result<u64, SandboxError>,
    cpu: Result<u64, SandboxError>,
) -> Measurement {
    let read = match sandbox.measure() {
        MeasureStep::ReadPeak(read) => read,
        MeasureStep::Measured(measured) => return measured,
        other => panic!("unexpected {:?}", other),
    };
    assert_eq!(Some(&read.group), sandbox.cgroup.as_ref());
    match read.read(peak) {
        MeasureStep::ReadCpuTime(read) => {
            assert_eq!(Some(&read.group), sandbox.cgroup.as_ref());
            match read.read(cpu) {
                MeasureStep::Measured(measured) => measured,
                other => panic!("unexpected {:?}", other),
            }
        }
        MeasureStep::Measured(measured) => measured,
        other => panic!("unexpected {:?}", other),
    }
}

#[test]
fn test_sandbox_config_default() {
    let config = SandboxConfig::with_defaults(some_namespaces());
    assert_eq!(config.id, "default");
    assert!(config.memory_limit.is_none());
    assert_eq!(config.privilege_mode, PrivilegeMode::Auto);
}

#[test]
fn test_sandbox_config_validate_empty_id() {
    let config = SandboxConfig {
        id: String::new(),
        ..SandboxConfig::with_defaults(some_namespaces())
    };
    assert!(config.validate_invariants().is_err());
}

#[test]
fn test_sandbox_config_validate_no_namespaces() {
    let config = SandboxConfig {
        namespace_config: NamespaceConfig {
            pid: false,
            ipc: false,
            net: false,
            mount: false,
            uts: false,
            user: false,
        },
        ..SandboxConfig::with_defaults(some_namespaces())
    };
    assert!(config.validate_invariants().is_err());
}

#[test]
fn test_sandbox_builder_new() {
    let builder = builder("test");
    assert_eq!(builder.config.id, "test");
}

#[test]
fn test_sandbox_builder_memory_limit() {
    let builder = builder("test").memory_limit(100 * 1024 * 1024);
    assert_eq!(builder.config.memory_limit, Some(100 * 1024 * 1024));
}

#[test]
fn test_sandbox_builder_memory_limit_str() {
    let parsed: Result<u64, SandboxError> = Ok(100 * 1024 * 1024);
    let builder = builder("test").memory_limit_str(parsed).unwrap();
    assert_eq!(builder.config.memory_limit, Some(100 * 1024 * 1024));
}

#[test]
fn test_sandbox_builder_cpu_limit() {
    let builder = builder("test").cpu_limit_percent(50);
    assert!(builder.config.cpu_quota.is_some());
}

#[test]
fn test_sandbox_builder_cpu_limit_zero() {
    let builder = builder("test").cpu_limit_percent(0);
    assert!(builder.config.cpu_quota.is_none());
}

#[test]
fn test_sandbox_builder_cpu_limit_over_100() {
    let builder = builder("test").cpu_limit_percent(150);
    assert!(builder.config.cpu_quota.is_none());
}

#[test]
fn test_sandbox_builder_privilege_mode() {
    let builder = builder("test").privilege_mode(PrivilegeMode::Unprivileged);
    assert_eq!(builder.config.privilege_mode, PrivilegeMode::Unprivileged);
}

#[test]
fn test_sandbox_builder_build_creates_sandbox() {
    let step = builder("build-test")
        .root("/tmp/work")
        .build(&plain_host(), ResolvedMode::Unprivileged)
        .unwrap();
    assert_eq!(step.path, "/tmp/work");
    let sandbox = step.created(Ok(()));
    assert!(sandbox.is_ok());
}

#[test]
fn test_sandbox_builder_build_validates_config() {
    let result =
        builder("").root("/tmp/work").build(&plain_host(), ResolvedMode::Unprivileged);
    assert!(result.is_err());
    assert_eq!(result.unwrap_err().message(), "Sandbox ID cannot be empty");
}

#[test]
fn sandbox_provides_id_and_root() {
    let sandbox = unprivileged("sand-id");
    assert_eq!(sandbox.id(), "sand-id");
    assert!(sandbox.root().ends_with("root"));
    assert!(!sandbox.is_running());
}

#[test]
fn sandbox_run_returns_error_if_already_running() {
    let mut sandbox = unprivileged("already-running");
    sandbox.pid = Some(Pid::from_raw(1));

    let args: [&str; 1] = ["test"];
    let result = sandbox.run("/bin/echo", &args);
    assert!(result.is_err());
    assert!(result.unwrap_err().message().contains("already running"));
}

#[test]
fn sandbox_kill_handles_missing_pid() {
    let mut sandbox = unprivileged("kill-test");
    assert!(sandbox.kill().is_none());
    sandbox.killed(Ok(())).unwrap();
}

#[test]
fn sandbox_get_resource_usage_without_cgroup_returns_zeros() {
    let sandbox = unprivileged("no-cgroup");
    let result = usage(&sandbox, Ok(5), Ok(6));
    assert!(result.is_ok());
    assert_eq!(result.unwrap(), (0, 0));
}

#[test]
fn sandbox_reports_resource_usage_from_cgroup() {
    let mut sandbox = privileged("resource-test");
    sandbox.cgroup = Some("cgroup".to_string());
    let (mem, cpu) = usage(&sandbox, Ok(1234), Ok(77)).unwrap();
    assert_eq!(mem, 1234);
    assert_eq!(cpu, 77);
}

#[test]
fn test_sandbox_result_killed_by_seccomp() {
    assert!(result_with_exit_code(159).killed_by_seccomp());
}

#[test]
fn test_sandbox_result_not_killed_by_seccomp() {
    assert!(!result_with_exit_code(0).killed_by_seccomp());
}

#[test]
fn test_sandbox_result_check_seccomp_error() {
    assert!(result_with_exit_code(159).check_seccomp_error().is_err());
    assert!(result_with_exit_code(0).check_seccomp_error().is_ok());
}

#[test]
fn seccomp_messages_are_exact() {
    let killed = result_with_exit_code(159);
    assert_eq!(
        killed.seccomp_error(),
        Some("The action requires more permissions than were granted.")
    );
    match killed.check_seccomp_error() {
        Err(SandboxError::PermissionDenied(message)) => assert_eq!(
            message,
            "The seccomp profile is too restrictive for this operation. \
             Try using a less restrictive profile (e.g., SeccompProfile::Compute or SeccompProfile::Unrestricted)"
        ),
        other => panic!("unexpected {:?}", other),
    }
    assert_eq!(result_with_exit_code(158).seccomp_error(), None);
    assert_eq!(*result_with_exit_code(7).check_seccomp_error().unwrap(), result_with_exit_code(7));
}

#[test]
fn default_config_is_exact() {
    let config = SandboxConfig::with_defaults(some_namespaces());
    assert_eq!(config.root, "/tmp/sandbox");
    assert_eq!(config.seccomp_profile, SeccompProfile::Minimal);
    assert_eq!(config.namespace_config, some_namespaces());
    assert!(config.cpu_quota.is_none() && config.cpu_period.is_none());
    assert!(config.max_pids.is_none() && config.timeout.is_none());
}

#[test]
fn builder_sets_each_field() {
    let b = builder("all")
        .cpu_quota(7, 9)
        .max_pids(12)
        .seccomp_profile(SeccompProfile::IoHeavy)
        .root("/srv")
        .timeout(Duration::from_secs(30))
        .namespaces(no_namespaces());
    assert_eq!((b.config.cpu_quota, b.config.cpu_period), (Some(7), Some(9)));
    assert_eq!(b.config.max_pids, Some(12));
    assert_eq!(b.config.seccomp_profile, SeccompProfile::IoHeavy);
    assert_eq!(b.config.root, "/srv");
    assert_eq!(b.config.timeout, Some(Duration { secs: 30, nanos: 0 }));
    assert_eq!(b.config.namespace_config, no_namespaces());
    assert_eq!(b.config.id, "all");
}

#[test]
fn percent_is_a_share_of_the_period() {
    let half = builder("p").cpu_limit_percent(50);
    assert_eq!((half.config.cpu_quota, half.config.cpu_period), (Some(50000), Some(100000)));
    let least = builder("p").cpu_limit_percent(1);
    assert_eq!((least.config.cpu_quota, least.config.cpu_period), (Some(1000), Some(100000)));
    let all = builder("p").cpu_limit_percent(100);
    assert_eq!((all.config.cpu_quota, all.config.cpu_period), (Some(100000), Some(100000)));
    let kept = builder("p").cpu_quota(1, 2).cpu_limit_percent(101);
    assert_eq!((kept.config.cpu_quota, kept.config.cpu_period), (Some(1), Some(2)));
}

#[test]
fn memory_limit_str_hands_parse_errors_on() {
    let parsed = Err(SandboxError::InvalidConfig("no number".to_string()));
    match builder("m").memory_limit_str(parsed) {
        Err(SandboxError::InvalidConfig(message)) => assert_eq!(message, "no number"),
        other => panic!("unexpected {:?}", other),
    }
}

#[test]
fn validation_errors_are_exact() {
    let rooted = SystemCapabilities { has_root: true, has_seccomp: false, has_landlock: false };
    let bare = SystemCapabilities { has_root: false, has_seccomp: false, has_landlock: true };
    let empty = SandboxConfig { id: String::new(), ..config("x") };
    match empty.validate(&rooted, ResolvedMode::Privileged) {
        Err(SandboxError::InvalidConfig(m)) => assert_eq!(m, "Sandbox ID cannot be empty"),
        other => panic!("unexpected {:?}", other),
    }
    let alone = SandboxConfig { namespace_config: no_namespaces(), ..config("x") };
    match alone.validate(&rooted, ResolvedMode::Privileged) {
        Err(SandboxError::InvalidConfig(m)) => {
            assert_eq!(m, "At least one namespace must be enabled")
        }
        other => panic!("unexpected {:?}", other),
    }
    match config("x").validate(&plain_host(), ResolvedMode::Privileged) {
        Err(SandboxError::PermissionDenied(m)) => {
            assert_eq!(m, "Privileged mode requires root privileges")
        }
        other => panic!("unexpected {:?}", other),
    }
    match config("x").validate(&bare, ResolvedMode::Unprivileged) {
        Err(SandboxError::FeatureNotAvailable(m)) => {
            assert_eq!(m, "Seccomp is required for unprivileged sandboxing")
        }
        other => panic!("unexpected {:?}", other),
    }
    assert!(config("x").validate(&rooted, ResolvedMode::Privileged).is_ok());
    assert!(config("x").validate(&plain_host(), ResolvedMode::Unprivileged).is_ok());
}

#[test]
fn unprivileged_sandbox_has_a_user_namespace() {
    assert!(unprivileged("u").config.namespace_config.user);
    assert!(!privileged("p").config.namespace_config.user);
    assert_eq!(unprivileged("u").privilege_mode(), ResolvedMode::Unprivileged);
}

#[test]
fn missing_root_directory_is_an_io_error() {
    let step = Sandbox::new(config("r"), &plain_host(), ResolvedMode::Privileged);
    assert_eq!(step.path, "/tmp/work/root");
    match step.created(Err("full".to_string())) {
        Err(SandboxError::Io(m)) => assert_eq!(m, "Failed to create root directory: full"),
        other => panic!("unexpected {:?}", other),
    }
}

#[test]
fn unprivileged_run_executes_at_once_with_limits() {
    let mut sandbox = unprivileged("u");
    sandbox.config.memory_limit = Some(1 << 20);
    sandbox.config.max_pids = Some(8);
    sandbox.config.timeout = Some(Duration { secs: 30, nanos: 999_999_999 });
    sandbox.config.cpu_quota = Some(5);
    match sandbox.run("/bin/echo", &["hello", "world"]) {
        Ok(RunStep::Execute(request)) => {
            assert_eq!(request.config.program, "/bin/echo");
            assert_eq!(request.config.args, vec!["hello".to_string(), "world".to_string()]);
            assert!(request.config.env.is_empty());
            assert_eq!(request.config.chroot_dir, Some("/tmp/work/root".to_string()));
            assert!(request.config.inherit_env);
            assert!(request.config.use_user_namespace);
            assert!(!request.streamed);
            assert_eq!(request.config.seccomp.unwrap().profile, SeccompProfile::Minimal);
            let limits = request.config.rlimits.unwrap();
            assert_eq!(limits.max_memory, Some(1 << 20));
            assert_eq!(limits.max_cpu_seconds, Some(30));
            assert_eq!(limits.max_processes, Some(8));
            assert_eq!(request.config.landlock, Some("/".to_string()));
            assert_eq!(request.config.timeout, sandbox.config.timeout);
        }
        other => panic!("unexpected {:?}", other),
    }
}

#[test]
fn privileged_run_begins_with_a_cgroup() {
    let mut sandbox = privileged("box");
    sandbox.config.memory_limit = Some(77);
    sandbox.config.cpu_quota = Some(5);
    sandbox.config.cpu_period = Some(6);
    sandbox.config.max_pids = Some(3);
    let step = sandbox.run_with_stream("ls", &[]).unwrap();
    let group = match step {
        RunStep::CreateCgroup(group) => group,
        other => panic!("unexpected {:?}", other),
    };
    assert_eq!(group.name, "sandbox-box");
    assert_eq!(group.limits.memory_limit, Some(77));
    assert_eq!(group.limits.cpu_quota, Some(5));
    assert_eq!(group.limits.cpu_period, Some(6));
    assert_eq!(group.limits.max_pids, Some(3));
    assert_eq!(group.limits.cpu_weight, None);
    assert!(group.run.config.rlimits.is_none());
    assert!(group.run.config.landlock.is_none());
    assert!(group.run.streamed);
    let group = match group.created(Ok(())).unwrap() {
        RunStep::LimitCgroup(group) => group,
        other => panic!("unexpected {:?}", other),
    };
    assert!(sandbox.cgroup.is_none());
    let step = sandbox.cgroup_limited(group, Ok(())).unwrap();
    assert!(matches!(step, RunStep::Execute(_)));
    assert_eq!(sandbox.cgroup, Some("sandbox-box".to_string()));
}

#[test]
fn failed_cgroup_ends_the_run() {
    let mut sandbox = privileged("box");
    let group = match sandbox.run("ls", &[]).unwrap() {
        RunStep::CreateCgroup(group) => group,
        other => panic!("unexpected {:?}", other),
    };
    let group = match group.created(Ok(())).unwrap() {
        RunStep::LimitCgroup(group) => group,
        other => panic!("unexpected {:?}", other),
    };
    let failed = sandbox.cgroup_limited(group, Err(SandboxError::Host("no cgroups".to_string())));
    assert_eq!(failed.unwrap_err().message(), "no cgroups");
    assert!(sandbox.cgroup.is_none());
    assert!(!sandbox.is_running());
}

#[test]
fn runs_are_refused_until_killed() {
    let mut sandbox = unprivileged("again");
    sandbox.executed(Ok(Pid::from_raw(42))).unwrap();
    assert!(sandbox.is_running());
    assert_eq!(sandbox.pid, Some(Pid::from_raw(42)));
    assert!(matches!(sandbox.run("ls", &[]), Err(SandboxError::AlreadyRunning)));
    let request = sandbox.kill();
    assert_eq!(request, Some(KillRequest { pid: Pid::from_raw(42), signal: 9 }));
    match sandbox.killed(Err(3)) {
        Err(SandboxError::Syscall(m)) => {
            assert_eq!(m, "Failed to kill process: ESRCH: No such process")
        }
        other => panic!("unexpected {:?}", other),
    }
    assert!(sandbox.is_running());
    sandbox.killed(Ok(())).unwrap();
    assert!(!sandbox.is_running());
    assert!(sandbox.kill().is_none());
    assert!(sandbox.run("ls", &[]).is_ok());
    sandbox.killed(Err(1)).unwrap();
}

#[test]
fn failed_execution_leaves_no_process() {
    let mut sandbox = unprivileged("fail");
    let failed = sandbox.executed(Err(SandboxError::Syscall("clone failed: x".to_string())));
    assert_eq!(failed.unwrap_err().message(), "clone failed: x");
    assert!(!sandbox.is_running());
}

#[test]
fn reports_are_exact() {
    let elapsed = Duration { secs: 2, nanos: 345_678_901 };
    let mut sandbox = privileged("r");
    sandbox.cgroup = Some("sandbox-r".to_string());
    let used = measured(&sandbox, Ok(1234), Ok(77));
    let report = sandbox.finish(process(5, 9), elapsed, used);
    assert_eq!(
        report,
        SandboxResult {
            exit_code: 9,
            signal: None,
            timed_out: false,
            memory_peak: 1234,
            cpu_time_us: 77,
            wall_time_ms: 2345,
        }
    );
    let unread = Err(SandboxError::Host("gone".to_string()));
    let used = measured(&sandbox, Ok(1234), unread);
    let report = sandbox.finish(process(5, 9), elapsed, used);
    assert_eq!((report.memory_peak, report.cpu_time_us), (0, 0));
    let unread = Err(SandboxError::Host("gone".to_string()));
    let used = measured(&sandbox, unread, Ok(77));
    let report = sandbox.finish(process(5, 9), elapsed, used);
    assert_eq!((report.memory_peak, report.cpu_time_us), (0, 0));
    let sandbox = unprivileged("u");
    let used = measured(&sandbox, Ok(1234), Ok(77));
    let report = sandbox.finish(Ended { timed_out: true, ..process(5, 9) }, elapsed, used);
    assert!(report.timed_out);
    assert_eq!((report.memory_peak, report.cpu_time_us), (0, 0));
}

#[test]
fn usage_errors_are_handed_on() {
    let mut sandbox = privileged("r");
    sandbox.cgroup = Some("sandbox-r".to_string());
    let memory = Err(SandboxError::Host("memory".to_string()));
    let cpu = Err(SandboxError::Host("cpu".to_string()));
    assert_eq!(usage(&sandbox, memory, cpu).unwrap_err().message(), "memory");
    let cpu = Err(SandboxError::Host("cpu".to_string()));
    assert_eq!(usage(&sandbox, Ok(1), cpu).unwrap_err().message(), "cpu");
}

#[test]
fn a_missing_stream_is_an_error() {
    let sandbox = unprivileged("s");
    let elapsed = Duration::from_millis(1500);
    let streamed = Ended { streamed: true, ..process(5, 159) };
    let used = measured(&sandbox, Ok(0), Ok(0));
    let ok = sandbox.finish_with_stream(streamed, elapsed, used).unwrap();
    assert_eq!(ok.wall_time_ms, 1500);
    assert_eq!(ok.exit_code, 159);
    assert!(ok.killed_by_seccomp());
    match sandbox.finish_with_stream(process(5, 0), elapsed, used) {
        Err(SandboxError::Io(m)) => assert_eq!(m, "stream unavailable"),
        other => panic!("unexpected {:?}", other),
    }
}

#[test]
fn landlock_needs_the_host_and_no_privileges() {
    let bare = SystemCapabilities { has_landlock: false, ..plain_host() };
    let without =
        Sandbox::new(config("l"), &bare, ResolvedMode::Unprivileged).created(Ok(())).unwrap();
    assert!(without.build_process_config().landlock.is_none());
    assert_eq!(unprivileged("l").build_process_config().landlock, Some("/".to_string()));
    assert!(privileged("l").build_process_config().landlock.is_none());
}
