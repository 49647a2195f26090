use sandbox_rs::controller::{RunStep, Sandbox, SandboxConfig};
use sandbox_rs::execution::child::{
    exec_returned, exec_returned_with, ChildStep, ChildTurn, ExecRequest, Outcome, Preparation,
};
use sandbox_rs::execution::launch::Execution;
use sandbox_rs::execution::process::{ProcessConfig, ProcessExecutor};
use sandbox_rs::limits::RlimitConfig;
use sandbox_rs::namespace::NamespaceConfig;
use sandbox_rs::privilege::{ResolvedMode, SystemCapabilities};
use sandbox_rs::seccomp::{SeccompFilter, SeccompProfile};
use sandbox_rs::text::{decimal_text, split};
use sandbox_rs::time::Duration;

fn full_config() -> ProcessConfig {
    ProcessConfig {
        program: "/bin/prog".to_string(),
        args: vec!["one".to_string(), "t\0o".to_string()],
        env: vec![("A".to_string(), "1".to_string()), ("E".to_string(), String::new())],
        cwd: Some("/work".to_string()),
        chroot_dir: Some("/jail".to_string()),
        uid: Some(1000),
        gid: Some(100),
        seccomp: Some(SeccompFilter::from_profile(SeccompProfile::Compute)),
        rlimits: Some(RlimitConfig {
            max_memory: Some(1),
            max_cpu_seconds: None,
            max_processes: None,
        }),
        inherit_env: false,
        use_user_namespace: false,
        landlock: Some("/".to_string()),
        timeout: None,
    }
}

fn name(action: &Preparation) -> String {
    match action {
        Preparation::Redirect(output) => format!("redirect {:?}", output),
        Preparation::CloseSource(output) => format!("close {:?}", output),
        Preparation::ApplyLimits(_) => "limits".to_string(),
        Preparation::CreateDir(path) => format!("mkdir {}", path),
        Preparation::BindMount { source, target } => format!("mount {} {}", source, target),
        Preparation::Chroot(path) => format!("chroot {}", path),
        Preparation::Chdir(path) => format!("chdir {}", path),
        Preparation::SetGid(gid) => format!("setgid {}", gid),
        Preparation::SetUid(uid) => format!("setuid {}", uid),
        Preparation::RestrictFiles(path) => format!("landlock {}", path),
        Preparation::LoadFilter(filter) => format!("filter {:?}", filter.profile),
    }
}

/// Runs a child; the preparation whose name starts with `failing` fails.
fn run(first: ChildTurn, failing: &str) -> (Vec<String>, Vec<String>, Result<ExecRequest, i32>) {
    let mut turn = first;
    let mut done: Vec<String> = Vec::new();
    let mut lines: Vec<String> = Vec::new();
    loop {
        lines.extend(turn.reports.iter().cloned());
        turn = match turn.step {
            ChildStep::Prepare(setup) => {
                let what = name(&setup.action);
                let failed = !failing.is_empty() && what.starts_with(failing);
                done.push(what);
                let outcome = if failed {
                    Outcome::Failed { errno: 13, detail: "denied".to_string() }
                } else {
                    Outcome::Done
                };
                setup.prepared(outcome)
            }
            ChildStep::Probe(child) => child.probed(false),
            ChildStep::Exec(request) => return (done, lines, Ok(request)),
            ChildStep::Exit(code) => return (done, lines, Err(code)),
        };
    }
}

#[test]
fn preparations_come_in_order() {
    let (done, lines, end) = run(ProcessExecutor::child_setup(full_config()), "");
    let mut expected: Vec<String> = vec!["limits".to_string()];
    for path in
        ["/usr", "/lib", "/lib64", "/bin", "/sbin", "/etc", "/dev", "/proc", "/sys", "/tmp"]
    {
        expected.push(format!("mkdir /jail{}", path));
        expected.push(format!("mount {} /jail{}", path, path));
    }
    for last in ["chroot /jail", "chdir /work", "setgid 100", "setuid 1000", "landlock /"] {
        expected.push(last.to_string());
    }
    expected.push("filter Compute".to_string());
    assert_eq!(done, expected);
    assert!(lines.is_empty());
    let request = end.unwrap();
    assert_eq!(request.program, "/bin/prog");
    assert_eq!(request.args, vec!["/bin/prog", "one", ""]);
    assert_eq!(request.env, vec!["A=1", "E="]);
}

#[test]
fn default_child_only_changes_to_the_root() {
    let config = ProcessConfig { program: "/x".to_string(), ..Default::default() };
    let (done, _, end) = run(ProcessExecutor::child_setup(config), "");
    assert_eq!(done, vec!["chdir /"]);
    assert_eq!(end.unwrap().args, vec!["/x"]);
}

#[test]
fn captured_child_redirects_first() {
    let config = ProcessConfig { program: "/x".to_string(), ..Default::default() };
    let (done, _, end) = run(ProcessExecutor::child_setup_with_pipes(config), "");
    assert_eq!(
        done,
        vec!["redirect Stdout", "redirect Stderr", "close Stdout", "close Stderr", "chdir /"]
    );
    assert!(end.is_ok());
}

#[test]
fn fatal_failures_end_the_child_with_a_line() {
    for (failing, line) in [
        ("limits", "Failed to apply rlimits: denied"),
        ("chroot", "chroot failed: EACCES: Permission denied"),
        ("chdir", "chdir failed: EACCES: Permission denied"),
        ("setgid", "setgid failed"),
        ("setuid", "setuid failed"),
        ("landlock", "Failed to apply landlock: denied"),
        ("filter", "Failed to load seccomp: denied"),
        ("redirect Stdout", "dup2 stdout failed"),
        ("redirect Stderr", "dup2 stderr failed"),
    ] {
        let first = ProcessExecutor::child_setup_with_pipes(full_config());
        let (done, lines, end) = run(first, failing);
        assert_eq!(lines, vec![line.to_string()]);
        assert!(matches!(end, Err(1)));
        assert!(done.last().unwrap().starts_with(failing));
    }
}

#[test]
fn failed_mounts_are_reported_and_passed_over() {
    let first = ProcessExecutor::child_setup(full_config());
    let (_, lines, end) = run(first, "mount /lib64");
    assert_eq!(
        lines,
        vec!["bind mount /lib64 -> /jail/lib64 failed: denied (errno 13)".to_string()]
    );
    assert!(end.is_ok());
    let (_, lines, end) = run(ProcessExecutor::child_setup(full_config()), "mkdir");
    assert!(lines.is_empty());
    assert!(end.is_ok());
}

#[test]
fn missing_programs_are_reported() {
    let config = ProcessConfig {
        program: "nothing".to_string(),
        env: vec![("PATH".to_string(), "/a:/b".to_string())],
        ..Default::default()
    };
    let (_, lines, end) = run(ProcessExecutor::child_setup(config), "");
    assert_eq!(lines, vec!["execve failed: command not found: nothing".to_string()]);
    assert!(matches!(end, Err(1)));
}

#[test]
fn programs_with_a_nul_are_reported() {
    let config = ProcessConfig { program: "/b\0in".to_string(), ..Default::default() };
    let (_, lines, end) = run(ProcessExecutor::child_setup(config), "");
    assert_eq!(lines, vec!["program name contains nul byte".to_string()]);
    assert!(matches!(end, Err(1)));
}

#[test]
fn an_execution_that_comes_back_ends_the_child() {
    let turn = exec_returned(Some(2));
    assert_eq!(turn.reports, vec!["execve failed: ENOENT: No such file or directory".to_string()]);
    assert!(matches!(turn.step, ChildStep::Exit(1)));
    let turn = exec_returned(None);
    assert!(turn.reports.is_empty());
    assert!(matches!(turn.step, ChildStep::Exit(0)));
    let turn = exec_returned_with(Some("why".to_string()));
    assert_eq!(turn.reports, vec!["execve failed: why".to_string()]);
}

#[test]
fn only_nul_free_configurations_are_encodable() {
    assert!(full_config().is_encodable());
    let root = ProcessConfig { chroot_dir: Some("a\0".to_string()), ..full_config() };
    assert!(!root.is_encodable());
    let value = ProcessConfig {
        env: vec![("A".to_string(), "1".to_string()), ("B".to_string(), "\0".to_string())],
        ..full_config()
    };
    assert!(!value.is_encodable());
    let key = ProcessConfig { env: vec![("\0".to_string(), String::new())], ..full_config() };
    assert!(!key.is_encodable());
}

#[test]
fn numbers_in_decimal() {
    for n in [0, 7, 10, 13, 105, -1, -250, i32::MAX, i32::MIN] {
        assert_eq!(decimal_text(n), n.to_string());
    }
}

#[test]
fn splitting_is_that_of_str() {
    for s in ["", ":", "a", "a:b", ":a::b:", "\u{e9}:\u{1f600}:x"] {
        let expected: Vec<String> = s.split(':').map(|p| p.to_string()).collect();
        assert_eq!(split(s, ':'), expected);
        assert_eq!(split(s, ':').join(":"), s);
    }
}

#[test]
fn spans_of_time() {
    let d = Duration { secs: 3, nanos: 999_999_999 };
    assert_eq!(d.millis_u64(), 3999);
    assert_eq!(d.as_secs(), 3);
    assert_eq!(Duration::from_millis(1234), Duration { secs: 1, nanos: 234_000_000 });
    let long = Duration { secs: u64::MAX, nanos: 0 };
    assert_eq!(long.millis_u64(), (u64::MAX as u128 * 1000) as u64);
}

fn sandbox() -> Sandbox {
    let namespaces = NamespaceConfig {
        pid: true,
        ipc: true,
        net: true,
        mount: true,
        uts: false,
        user: false,
    };
    let config = SandboxConfig {
        root: "/jail".to_string(),
        seccomp_profile: SeccompProfile::Compute,
        ..SandboxConfig::with_defaults(namespaces)
    };
    let caps = SystemCapabilities { has_root: false, has_seccomp: true, has_landlock: true };
    Sandbox::new(config, &caps, ResolvedMode::Unprivileged).created(Ok(())).unwrap()
}

#[test]
fn a_sandboxed_program_runs_in_its_root_under_its_filter() {
    let request = match sandbox().run("/bin/prog", &["x"]).unwrap() {
        RunStep::Execute(request) => request,
        _ => panic!("no group is needed"),
    };
    let (done, _, end) = run(ProcessExecutor::child_setup(request.config), "");
    assert_eq!(end.unwrap().args, vec!["/bin/prog".to_string(), "x".to_string()]);
    assert_eq!(done.last().unwrap(), "filter Compute");
    let at = |what: &str| done.iter().position(|d| d == what).unwrap();
    assert!(at("chroot /jail") < at("landlock /"));
    assert_eq!(at("landlock /"), done.len() - 2);

    let request = match sandbox().run("/bin/prog", &[]).unwrap() {
        RunStep::Execute(request) => request,
        _ => panic!("no group is needed"),
    };
    let config = request.config.clone();
    let (_, _, end) = run(ProcessExecutor::child_setup(request.config), "filter");
    assert_eq!(end.unwrap_err(), 1);
    let (_, lines, end) = run(ProcessExecutor::child_setup(config), "landlock");
    assert_eq!(end.unwrap_err(), 1);
    assert_eq!(lines, vec!["Failed to apply landlock: denied".to_string()]);
}

#[test]
fn an_unprivileged_process_is_kept_waiting() {
    let request = match sandbox().run("/bin/prog", &[]).unwrap() {
        RunStep::Execute(request) => request,
        _ => panic!("no group is needed"),
    };
    let first = ProcessExecutor::execute(request.config, request.namespaces, Vec::new());
    let next = match first {
        Execution::OpenSyncPipe(pipe) => pipe.opened(Ok(())),
        _ => panic!("the child is kept waiting on a pipe"),
    };
    match next {
        Execution::Spawn { request, .. } => assert!(request.gated),
        _ => panic!("the child is created next"),
    }
}
