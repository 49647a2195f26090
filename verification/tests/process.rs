use nix::unistd::{access, AccessFlags};

use sandbox_rs::error::SandboxError;
use sandbox_rs::execution::child::Output;
use sandbox_rs::execution::launch::{
    wait_for_child, wait_for_child_with, Created, Ended, Execution, TimeLimits, Wait, WaitEvent,
    WaitStep, CHILD_STACK_SIZE,
};
use sandbox_rs::execution::path_search::{resolve_program_path, Resolution};
use sandbox_rs::execution::process::{
    KillRequest, Pid, ProcessConfig, ProcessExecutor, ProcessResult,
};
use sandbox_rs::limits::RlimitConfig;
use sandbox_rs::namespace::NamespaceConfig;
use sandbox_rs::time::Duration;

fn no_namespaces() -> NamespaceConfig {
    NamespaceConfig { pid: false, ipc: false, net: false, mount: false, uts: false, user: false }
}

fn var(name: &str, value: &str) -> (String, String) {
    (name.to_string(), value.to_string())
}

/// Resolves a program against the files of this host.
fn resolve_here(program: &str, env: &[(String, String)]) -> Result<String, String> {
    let mut resolution = resolve_program_path(program, env);
    loop {
        resolution = match resolution {
            Resolution::Resolved(path) => return Ok(path),
            Resolution::NotFound(message) => return Err(message),
            Resolution::Probe(search) => {
                let executable = access(search.candidate.as_str(), AccessFlags::X_OK).is_ok();
                search.probed(executable)
            }
        };
    }
}

/// Lets an execution succeed: process 4321 is created and ends with status 0
/// after a quarter of a second.
fn succeed(first: Execution) -> (Result<Ended, SandboxError>, Vec<&'static str>) {
    follow(first, WaitEvent::Exited { status: 0 })
}

/// Lets an execution go on to its end, with the given report on process 4321.
fn follow(
    first: Execution,
    event: WaitEvent,
) -> (Result<Ended, SandboxError>, Vec<&'static str>) {
    let mut step = first;
    let mut trace: Vec<&'static str> = Vec::new();
    loop {
        step = match step {
            Execution::OpenStdoutPipe(next) => {
                trace.push("stdout pipe");
                next.opened(Ok(()))
            }
            Execution::OpenStderrPipe(next) => {
                trace.push("stderr pipe");
                next.opened(Ok(()))
            }
            Execution::OpenSyncPipe(next) => {
                trace.push("sync pipe");
                next.opened(Ok(()))
            }
            Execution::Spawn { pending, .. } => {
                trace.push("spawn");
                pending.spawned(Ok(Pid::from_raw(4321)))
            }
            Execution::MapIds(next) => {
                trace.push("map");
                next.mapped()
            }
            Execution::Release(next) => {
                trace.push("release");
                next.released()
            }
            Execution::Wait(next) => {
                trace.push("wait");
                next.waited(event, Duration::from_millis(250), Duration::from_millis(20))
            }
            Execution::StartReader(next) => {
                trace.push(match next.output {
                    Output::Stdout => "read stdout",
                    Output::Stderr => "read stderr",
                });
                next.started(Ok(()))
            }
            Execution::Streaming(next) => {
                trace.push("stream");
                next.waited(event, Duration::from_millis(250), Duration::from_millis(20))
            }
            Execution::Kill(next) => {
                trace.push("kill");
                next.killed(Ok(()))
            }
            Execution::Finished(outcome) => return (outcome, trace),
        };
    }
}

#[test]
fn test_process_config_default() {
    let config = ProcessConfig::default();
    assert!(config.program.is_empty());
    assert!(config.args.is_empty());
    assert!(config.rlimits.is_none());
    assert!(!config.use_user_namespace);
}

#[test]
fn test_process_config_with_args() {
    let config = ProcessConfig {
        program: "echo".to_string(),
        args: vec!["hello".to_string(), "world".to_string()],
        ..Default::default()
    };

    assert_eq!(config.program, "echo");
    assert_eq!(config.args.len(), 2);
}

#[test]
fn test_process_config_with_env() {
    let config = ProcessConfig {
        env: vec![("MY_VAR".to_string(), "my_value".to_string())],
        ..Default::default()
    };

    assert_eq!(config.env.len(), 1);
    assert_eq!(config.env[0].0, "MY_VAR");
}

#[test]
fn test_process_result() {
    let result = ProcessResult {
        pid: Pid::from_raw(123),
        exit_status: 0,
        signal: None,
        exec_time_ms: 100,
    };

    assert_eq!(result.pid, Pid::from_raw(123));
    assert_eq!(result.exit_status, 0);
    assert!(result.signal.is_none());
    assert_eq!(result.exec_time_ms, 100);
}

#[test]
fn test_process_result_with_signal() {
    let result = ProcessResult {
        pid: Pid::from_raw(456),
        exit_status: 0,
        signal: Some(9),
        exec_time_ms: 50,
    };

    assert!(result.signal.is_some());
    assert_eq!(result.signal.unwrap(), 9);
}

#[test]
fn wait_for_child_returns_exit_status() {
    match wait_for_child(WaitEvent::Exited { status: 42 }) {
        WaitStep::Ended { status, signal } => {
            assert_eq!(status, 42);
            assert_eq!(signal, None);
        }
        other => panic!("unexpected {:?}", other),
    }
}

#[test]
fn wait_for_child_with_signal() {
    match wait_for_child(WaitEvent::Signaled { signal: 15 }) {
        WaitStep::Ended { status, signal } => {
            assert!(status > 0);
            assert_eq!(status, 143);
            assert_eq!(signal, Some(15));
        }
        other => panic!("unexpected {:?}", other),
    }
}

#[test]
fn process_executor_runs_program_without_namespaces() {
    let config = ProcessConfig {
        program: "/bin/echo".to_string(),
        args: vec!["sandbox".to_string()],
        env: vec![("TEST_EXEC".to_string(), "1".to_string())],
        ..Default::default()
    };
    let (result, trace) = succeed(ProcessExecutor::execute(config, no_namespaces(), Vec::new()));
    let Ended { result, streamed, .. } = result.unwrap();
    assert_eq!(result.exit_status, 0);
    assert_eq!(result.pid, Pid::from_raw(4321));
    assert_eq!(result.exec_time_ms, 250);
    assert!(!streamed);
    assert_eq!(trace, vec!["spawn", "wait"]);
}

#[test]
fn execute_with_stream_disabled() {
    let config = ProcessConfig {
        program: "/bin/echo".to_string(),
        args: vec!["test_output".to_string()],
        ..Default::default()
    };
    let first = ProcessExecutor::execute_with_stream(config, no_namespaces(), false, Vec::new());
    let Ended { result, streamed: stream, .. } = succeed(first).0.unwrap();
    assert_eq!(result.exit_status, 0);
    assert!(!stream);
}

#[test]
fn execute_with_stream_enabled() {
    let config = ProcessConfig {
        program: "/bin/echo".to_string(),
        args: vec!["streamed_output".to_string()],
        ..Default::default()
    };
    let first = ProcessExecutor::execute_with_stream(config, no_namespaces(), true, Vec::new());
    let (outcome, trace) = succeed(first);
    let Ended { result, streamed: stream, .. } = outcome.unwrap();
    assert_eq!(result.exit_status, 0);
    assert!(stream);
    assert_eq!(
        trace,
        vec!["stdout pipe", "stderr pipe", "spawn", "read stdout", "read stderr", "stream"]
    );
}

#[test]
fn resolve_program_path_uses_env_path() {
    let env = vec![("PATH".to_string(), "/bin:/usr/bin".to_string())];
    let resolved = resolve_here("ls", &env).unwrap();
    assert!(resolved.ends_with("/ls"), "expected ls in path, got {}", resolved);
}

#[test]
fn resolve_program_path_reports_missing_binary() {
    let env = vec![("PATH".to_string(), "/nonexistent".to_string())];
    let err = resolve_here("definitely_missing_cmd", &env).unwrap_err();
    assert!(err.contains("command not found"));
    assert_eq!(err, "execve failed: command not found: definitely_missing_cmd");
}

/// The paths that a search tries where none can be executed.
fn tried(program: &str, env: &[(String, String)]) -> Vec<String> {
    let mut paths: Vec<String> = Vec::new();
    let mut resolution = resolve_program_path(program, env);
    loop {
        resolution = match resolution {
            Resolution::Probe(search) => {
                paths.push(search.candidate.clone());
                search.probed(false)
            }
            _ => return paths,
        };
    }
}

#[test]
fn candidates_follow_path_semantics() {
    assert_eq!(
        tried("ls", &[var("PATH", "/bin/::rel:/opt//:")]),
        vec!["/bin/ls", "./ls", "rel/ls", "/opt//ls", "./ls"]
    );
    assert_eq!(tried("ls", &[var("PATH", "")]), vec!["./ls"]);
    assert_eq!(tried("ls", &[var("PATH", "/a"), var("PATH", "/b")]), vec!["/a/ls"]);
    assert_eq!(
        tried("ls", &[var("HOME", "/a")]),
        vec![
            "/usr/local/sbin/ls",
            "/usr/local/bin/ls",
            "/usr/sbin/ls",
            "/usr/bin/ls",
            "/sbin/ls",
            "/bin/ls",
        ]
    );
    assert_eq!(tried("", &[var("PATH", "/bin")]), vec!["/bin/"]);
    for entry in ["/bin", "/bin/", "rel", "a b", "\u{e9}t\u{e9}"] {
        let joined = std::path::Path::new(entry).join("ls");
        assert_eq!(tried("ls", &[var("PATH", entry)]), vec![joined.to_str().unwrap()]);
    }
}

#[test]
fn first_executable_candidate_wins() {
    let env = [var("PATH", "/a:/b:/c:/b")];
    let mut resolution = resolve_program_path("x", &env);
    let mut probes: usize = 0;
    let found = loop {
        resolution = match resolution {
            Resolution::Probe(search) => {
                probes += 1;
                let executable = search.candidate.starts_with("/b") || search.candidate == "/c/x";
                search.probed(executable)
            }
            Resolution::Resolved(path) => break path,
            Resolution::NotFound(message) => panic!("{}", message),
        };
    };
    assert_eq!(found, "/b/x");
    assert_eq!(probes, 2);
}

#[test]
fn a_name_with_a_slash_is_a_path() {
    assert!(matches!(
        resolve_program_path("./run", &[var("PATH", "/bin")]),
        Resolution::Resolved(path) if path == "./run"
    ));
}

#[test]
fn environment_is_merged_in_order() {
    let mut config = ProcessConfig {
        env: vec![var("B", "2"), var("NEW", "n"), var("B", "3")],
        ..Default::default()
    };
    config.prepare_environment(vec![var("A", "1"), var("B", "0"), var("C", "9"), var("B", "x")]);
    assert_eq!(
        config.env,
        vec![var("A", "1"), var("B", "3"), var("C", "9"), var("B", "x"), var("NEW", "n")]
    );
}

#[test]
fn environment_without_overrides_is_the_parent_one() {
    let mut config = ProcessConfig::default();
    config.prepare_environment(vec![var("A", "1")]);
    assert_eq!(config.env, vec![var("A", "1")]);
}

#[test]
fn environment_is_kept_where_it_is_not_inherited() {
    let mut config =
        ProcessConfig { env: vec![var("K", "v")], inherit_env: false, ..Default::default() };
    config.prepare_environment(vec![var("A", "1")]);
    assert_eq!(config.env, vec![var("K", "v")]);
}

#[test]
fn a_child_with_a_user_namespace_is_mapped_before_it_is_released() {
    let config = ProcessConfig { use_user_namespace: true, ..Default::default() };
    let namespaces = NamespaceConfig { user: true, ..no_namespaces() };
    let (outcome, trace) = succeed(ProcessExecutor::execute(config, namespaces, Vec::new()));
    assert!(outcome.is_ok());
    assert_eq!(trace, vec!["sync pipe", "spawn", "map", "release", "wait"]);
}

#[test]
fn both_switches_are_needed_for_the_gate() {
    let config = ProcessConfig { use_user_namespace: true, ..Default::default() };
    let (_, trace) = succeed(ProcessExecutor::execute(config, no_namespaces(), Vec::new()));
    assert_eq!(trace, vec!["spawn", "wait"]);
}

#[test]
fn the_spawned_process_has_the_merged_environment() {
    let config = ProcessConfig { env: vec![var("B", "2")], ..Default::default() };
    match ProcessExecutor::execute(config, no_namespaces(), vec![var("A", "1")]) {
        Execution::Spawn { request, .. } => {
            assert_eq!(request.config.env, vec![var("A", "1"), var("B", "2")]);
            assert!(!request.gated && !request.streamed);
            assert_eq!(request.stack_size, 131072);
            assert_eq!(request.namespaces, no_namespaces());
        }
        other => panic!("unexpected {:?}", other),
    }
    assert_eq!(CHILD_STACK_SIZE, 131072);
}

#[test]
fn failed_creation_is_reported_with_its_error() {
    let first = ProcessExecutor::execute(ProcessConfig::default(), no_namespaces(), Vec::new());
    let step = match first {
        Execution::Spawn { pending, .. } => pending.spawned(Err(1)),
        other => panic!("unexpected {:?}", other),
    };
    match step {
        Execution::Finished(Err(SandboxError::Syscall(m))) => {
            assert_eq!(m, "clone failed: EPERM: Operation not permitted")
        }
        other => panic!("unexpected {:?}", other),
    }
}

#[test]
fn failed_pipes_are_reported_with_their_errors() {
    let config = ProcessConfig { use_user_namespace: true, ..Default::default() };
    let namespaces = NamespaceConfig { user: true, ..no_namespaces() };
    let first = ProcessExecutor::execute(config, namespaces, Vec::new());
    match first {
        Execution::OpenSyncPipe(next) => match next.opened(Err(24)) {
            Execution::Finished(Err(SandboxError::Syscall(m))) => {
                assert_eq!(m, "pipe: EMFILE: Too many open files")
            }
            other => panic!("unexpected {:?}", other),
        },
        other => panic!("unexpected {:?}", other),
    }
    let first = ProcessExecutor::execute_with_stream(
        ProcessConfig::default(),
        no_namespaces(),
        true,
        Vec::new(),
    );
    let second = match first {
        Execution::OpenStdoutPipe(next) => next.opened(Ok(())),
        other => panic!("unexpected {:?}", other),
    };
    match second {
        Execution::OpenStderrPipe(next) => match next.opened(Err(24)) {
            Execution::Finished(Err(SandboxError::Io(m))) => {
                assert_eq!(m, "pipe failed: EMFILE: Too many open files")
            }
            other => panic!("unexpected {:?}", other),
        },
        other => panic!("unexpected {:?}", other),
    }
}

#[test]
fn failed_readers_are_reported() {
    let first = ProcessExecutor::execute_with_stream(
        ProcessConfig::default(),
        no_namespaces(),
        true,
        Vec::new(),
    );
    let mut step = first;
    let outcome = loop {
        step = match step {
            Execution::OpenStdoutPipe(next) => next.opened(Ok(())),
            Execution::OpenStderrPipe(next) => next.opened(Ok(())),
            Execution::Spawn { pending, .. } => pending.spawned(Ok(Pid::from_raw(7))),
            Execution::StartReader(next) => next.started(Err("no thread".to_string())),
            Execution::Finished(outcome) => break outcome,
            other => panic!("unexpected {:?}", other),
        };
    };
    match outcome {
        Err(SandboxError::Io(m)) => assert_eq!(m, "spawn reader failed: no thread"),
        other => panic!("unexpected {:?}", other),
    }
}

#[test]
fn waiting_goes_on_until_the_process_ends() {
    let first = ProcessExecutor::execute(ProcessConfig::default(), no_namespaces(), Vec::new());
    let mut step = match first {
        Execution::Spawn { pending, .. } => pending.spawned(Ok(Pid::from_raw(7))),
        other => panic!("unexpected {:?}", other),
    };
    let mut reports = vec![
        WaitEvent::Signaled { signal: 9 },
        WaitEvent::Other,
        WaitEvent::Other,
    ];
    let result = loop {
        step = match step {
            Execution::Wait(next) => {
                assert_eq!(next.child.pid, Pid::from_raw(7));
                next.waited(
                    reports.pop().unwrap(),
                    Duration::from_millis(5),
                    Duration::from_millis(1),
                )
            }
            Execution::Finished(outcome) => break outcome.unwrap().result,
            other => panic!("unexpected {:?}", other),
        };
    };
    assert!(reports.is_empty());
    assert_eq!(result.exit_status, 137);
    assert_eq!(result.signal, Some(9));
    assert_eq!(result.exec_time_ms, 5);
}

#[test]
fn failed_waits_are_reported_with_their_error() {
    match wait_for_child(WaitEvent::Failed { errno: 10 }) {
        WaitStep::Failed(SandboxError::Syscall(m)) => {
            assert_eq!(m, "waitpid failed: ECHILD: No child processes")
        }
        other => panic!("unexpected {:?}", other),
    }
    match wait_for_child_with(WaitEvent::Failed { errno: 10 }, "gone") {
        WaitStep::Failed(error) => assert_eq!(error.message(), "waitpid failed: gone"),
        other => panic!("unexpected {:?}", other),
    }
}

#[test]
fn exit_notices() {
    let zero = Duration::from_secs(0);
    let wait = waiting(no_limits());
    assert_eq!(wait.waited(WaitEvent::Other, zero, zero).exit_notice(), None);
    assert_eq!(wait.waited(WaitEvent::Exited { status: 3 }, zero, zero).exit_notice(), Some(3));
    assert_eq!(wait.waited(WaitEvent::Failed { errno: 10 }, zero, zero).exit_notice(), Some(1));
}

fn no_limits() -> TimeLimits {
    TimeLimits { wall: None, cpu_secs: None }
}

fn waiting(limits: TimeLimits) -> Wait {
    let child = Created { pid: Pid::from_raw(7), streamed: false, limits };
    Wait { child, killed: false }
}

fn ended(step: Execution) -> Ended {
    match step {
        Execution::Finished(outcome) => outcome.unwrap(),
        other => panic!("unexpected {:?}", other),
    }
}

#[test]
fn a_streamed_process_gives_its_actual_end() {
    let start = || {
        ProcessExecutor::execute_with_stream(
            ProcessConfig::default(),
            no_namespaces(),
            true,
            Vec::new(),
        )
    };
    let end = follow(start(), WaitEvent::Exited { status: 42 }).0.unwrap();
    assert_eq!(end.result.exit_status, 42);
    assert_eq!(end.result.signal, None);
    assert_eq!(end.result.exec_time_ms, 250);
    assert!(end.streamed && !end.timed_out);
    let end = follow(start(), WaitEvent::Signaled { signal: 31 }).0.unwrap();
    assert_eq!(end.result.exit_status, 159);
    assert_eq!(end.result.signal, Some(31));
    assert!(follow(start(), WaitEvent::Failed { errno: 10 }).0.is_err());
}

#[test]
fn a_process_that_is_out_of_time_is_killed_once() {
    let limit = Duration { secs: 2, nanos: 500 };
    let wait = waiting(TimeLimits { wall: Some(limit), cpu_secs: None });
    let zero = Duration::from_secs(0);
    let early = Duration { secs: 2, nanos: 499 };
    assert!(matches!(wait.waited(WaitEvent::Other, early, zero), Execution::Wait(_)));
    let late = match wait.waited(WaitEvent::Other, limit, zero) {
        Execution::Kill(late) => late,
        other => panic!("unexpected {:?}", other),
    };
    assert_eq!(late.request, KillRequest { pid: Pid::from_raw(7), signal: 9 });
    let wait = match late.killed(Ok(())) {
        Execution::Wait(wait) => wait,
        other => panic!("unexpected {:?}", other),
    };
    assert!(matches!(wait.waited(WaitEvent::Other, limit, zero), Execution::Wait(_)));
    let end = ended(wait.waited(WaitEvent::Signaled { signal: 9 }, limit, zero));
    assert!(end.timed_out);
    assert_eq!(end.result.exit_status, 137);
    // it ended by itself before the signal came
    assert!(!ended(wait.waited(WaitEvent::Exited { status: 0 }, limit, zero)).timed_out);
    assert!(!ended(wait.waited(WaitEvent::Signaled { signal: 15 }, limit, zero)).timed_out);
}

#[test]
fn a_process_that_cannot_be_killed_is_waited_for() {
    let limit = Duration::from_secs(1);
    let zero = Duration::from_secs(0);
    let wait = waiting(TimeLimits { wall: Some(limit), cpu_secs: Some(1) });
    let late = match wait.waited(WaitEvent::Other, limit, zero) {
        Execution::Kill(late) => late,
        other => panic!("unexpected {:?}", other),
    };
    let wait = match late.killed(Err(1)) {
        Execution::Wait(wait) => wait,
        other => panic!("unexpected {:?}", other),
    };
    assert!(matches!(wait.waited(WaitEvent::Other, limit, zero), Execution::Wait(_)));
    assert!(!ended(wait.waited(WaitEvent::Signaled { signal: 9 }, limit, zero)).timed_out);
}

#[test]
fn the_limit_on_processor_time_counts_as_a_timeout() {
    let zero = Duration::from_secs(0);
    let limit = Duration::from_secs(3);
    let wait = waiting(TimeLimits { wall: None, cpu_secs: Some(3) });
    let by = |signal: u8, cpu: Duration| {
        ended(wait.waited(WaitEvent::Signaled { signal }, zero, cpu)).timed_out
    };
    assert!(by(24, limit));
    assert!(by(9, limit));
    assert!(!by(24, zero));
    assert!(!by(24, Duration { secs: 2, nanos: 999_999_999 }));
    assert!(!by(9, Duration { secs: 2, nanos: 999_999_999 }));
    assert!(!by(15, limit));
    let free = waiting(no_limits());
    assert!(!ended(free.waited(WaitEvent::Signaled { signal: 24 }, zero, limit)).timed_out);
}

#[test]
fn a_signal_before_the_limit_is_no_timeout() {
    let elapsed = Duration::from_millis(100);
    let cpu = Duration::from_millis(5);
    let limits = TimeLimits { wall: Some(Duration::from_secs(30)), cpu_secs: Some(30) };
    let wait = waiting(limits);
    assert!(!ended(wait.waited(WaitEvent::Signaled { signal: 24 }, elapsed, cpu)).timed_out);
    assert!(!ended(wait.waited(WaitEvent::Signaled { signal: 9 }, elapsed, cpu)).timed_out);
    // a timeout below a second makes the limit 0
    let limits = TimeLimits { wall: Some(Duration::from_millis(900)), cpu_secs: Some(0) };
    let wait = waiting(limits);
    assert!(!ended(wait.waited(WaitEvent::Signaled { signal: 24 }, elapsed, cpu)).timed_out);
    assert!(!ended(wait.waited(WaitEvent::Signaled { signal: 9 }, elapsed, cpu)).timed_out);
    let whole = Duration::from_secs(1);
    assert!(ended(wait.waited(WaitEvent::Signaled { signal: 9 }, elapsed, whole)).timed_out);
}

#[test]
fn only_a_wait_without_a_deadline_may_block() {
    let limits = TimeLimits { wall: Some(Duration::from_secs(1)), cpu_secs: None };
    assert!(!waiting(limits).may_block());
    assert!(waiting(no_limits()).may_block());
    assert!(Wait { killed: true, ..waiting(limits) }.may_block());
}

#[test]
fn limits_on_time_come_from_the_configuration() {
    let config = ProcessConfig {
        timeout: Some(Duration::from_secs(5)),
        rlimits: Some(RlimitConfig {
            max_memory: None,
            max_cpu_seconds: Some(4),
            max_processes: None,
        }),
        ..Default::default()
    };
    match ProcessExecutor::execute(config, no_namespaces(), Vec::new()) {
        Execution::Spawn { pending, .. } => {
            assert_eq!(pending.limits.wall, Some(Duration::from_secs(5)));
            assert_eq!(pending.limits.cpu_secs, Some(4));
        }
        other => panic!("unexpected {:?}", other),
    }
}

#[test]
fn preparing_an_environment_twice_is_preparing_it_once() {
    let parent = || vec![var("A", "1"), var("B", "2")];
    let mut config = ProcessConfig {
        env: vec![var("Z", "1"), var("B", "3"), var("Y", "2"), var("Z", "4")],
        ..Default::default()
    };
    config.prepare_environment(parent());
    let once = config.env.clone();
    assert_eq!(once, vec![var("A", "1"), var("B", "3"), var("Z", "4"), var("Y", "2")]);
    config.prepare_environment(parent());
    assert_eq!(config.env, once);
}

#[test]
fn signal_of_filtered_calls_gives_the_filter_status() {
    match wait_for_child(WaitEvent::Signaled { signal: 31 }) {
        WaitStep::Ended { status, .. } => assert_eq!(status, 159),
        other => panic!("unexpected {:?}", other),
    }
}
