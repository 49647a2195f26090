//! What a process is created with, and what each answer of the kernel leads to.

use vstd::prelude::*;

use crate::errno::errno_text;
use crate::error::SandboxError;
use crate::execution::child::Output;
use crate::execution::environment::{
    base_order_is_kept, last_value, lookup, overrides_win, vars,
};
use crate::execution::launch::{
    clone_starts, environment_prepared, execution_starts, time_limits, wait_for_child,
    wait_for_child_with, Created, Execution, Launch, MapIds, Overdue, PendingReader, PendingSpawn,
    Release, StderrPipe, StdoutPipe, SyncPipe, TimeLimits, Wait, WaitEvent, WaitStep,
};
use crate::execution::launch_laws::{execution_run, step_follows};
use crate::execution::process::{Pid, ProcessConfig, ProcessExecutor};
use crate::namespace::NamespaceConfig;
use crate::time::Duration;

verus! {

/// An execution begins, with captured outputs or without.
pub open spec fn execution_begins(
    config: ProcessConfig,
    namespaces: NamespaceConfig,
    streamed: bool,
    parent: Vec<(String, String)>,
    step: Execution,
) -> bool {
    ||| call_ensures(
        ProcessExecutor::execute_with_stream,
        (config, namespaces, streamed, parent),
        step,
    )
    ||| !streamed && call_ensures(ProcessExecutor::execute, (config, namespaces, parent), step)
}

/// The launch that a step before the creation of a process is about.
spec fn launch_at(step: Execution) -> Option<Launch> {
    match step {
        Execution::OpenStdoutPipe(pipe) => Some(pipe.launch),
        Execution::OpenStderrPipe(pipe) => Some(pipe.launch),
        Execution::OpenSyncPipe(pipe) => Some(pipe.launch),
        Execution::Spawn { request, pending } => Some(
            Launch {
                config: request.config,
                namespaces: request.namespaces,
                streamed: request.streamed,
            },
        ),
        _ => None,
    }
}

/// The launch is that of the configuration, with its environment prepared.
spec fn launch_fits(
    config: ProcessConfig,
    namespaces: NamespaceConfig,
    parent: Seq<(String, String)>,
    streamed: bool,
    launch: Launch,
) -> bool {
    &&& environment_prepared(config, parent, launch.config)
    &&& launch.namespaces == namespaces
    &&& launch.streamed == streamed
}

/// What follows a creation belongs to it.
spec fn spawn_fits(step: Execution) -> bool {
    step matches Execution::Spawn { request, pending } ==> {
        &&& request.gated == (request.config.use_user_namespace && request.namespaces.user)
        &&& request.stack_size == 131072
        &&& pending == PendingSpawn {
            gated: request.gated,
            streamed: request.streamed,
            limits: time_limits(request.config),
        }
    }
}

/// Before the pipe on which a child waits, it was found that it must wait.
spec fn gate_fits(step: Execution) -> bool {
    step matches Execution::OpenSyncPipe(pipe) ==> pipe.launch.config.use_user_namespace
        && pipe.launch.namespaces.user
}

proof fn lemma_launch_stays(
    config: ProcessConfig,
    namespaces: NamespaceConfig,
    parent: Seq<(String, String)>,
    streamed: bool,
    run: Seq<Execution>,
    k: int,
)
    requires
        execution_run(run),
        execution_starts(config, namespaces, parent, streamed, run[0]),
        0 <= k < run.len(),
    ensures
        launch_at(run[k]) matches Some(launch) ==> launch_fits(
            config,
            namespaces,
            parent,
            streamed,
            launch,
        ),
        spawn_fits(run[k]),
        gate_fits(run[k]),
    decreases k,
{
    if k > 0 {
        lemma_launch_stays(config, namespaces, parent, streamed, run, k - 1);
        assert(step_follows(run[k - 1], run[k]));
    } else if !streamed {
        let prepared = choose|prepared: ProcessConfig| #[trigger]
            environment_prepared(config, parent, prepared)
                && clone_starts(
                Launch { config: prepared, namespaces, streamed: false },
                run[0],
            );
    }
}

/// An execution that creates a process does so with the configuration that it
/// began with, whose environment is prepared, and with its namespaces.
pub proof fn lemma_creation(
    config: ProcessConfig,
    namespaces: NamespaceConfig,
    parent: Seq<(String, String)>,
    streamed: bool,
    run: Seq<Execution>,
    k: int,
)
    requires
        execution_run(run),
        execution_starts(config, namespaces, parent, streamed, run[0]),
        0 <= k < run.len(),
        run[k] is Spawn,
    ensures
        environment_prepared(config, parent, run[k]->Spawn_request.config),
        run[k]->Spawn_request.namespaces == namespaces,
        run[k]->Spawn_request.streamed == streamed,
{
    lemma_launch_stays(config, namespaces, parent, streamed, run, k);
}

/// A process is created with the configuration, the namespaces and the capture
/// that were asked for, on a stack of 131072 bytes; it is kept waiting if and
/// only if it gets a user namespace that is to be mapped; and what follows its
/// creation knows its limits on time.
pub proof fn process_is_created_as_asked_for(
    config: ProcessConfig,
    namespaces: NamespaceConfig,
    parent: Vec<(String, String)>,
    streamed: bool,
    run: Seq<Execution>,
    k: int,
)
    requires
        execution_begins(config, namespaces, streamed, parent, run[0]),
        execution_run(run),
        0 <= k < run.len(),
        run[k] is Spawn,
    ensures
        ({
            let request = run[k]->Spawn_request;
            let pending = run[k]->Spawn_pending;
            &&& request.config.program == config.program
            &&& request.config.args == config.args
            &&& request.config.cwd == config.cwd
            &&& request.config.chroot_dir == config.chroot_dir
            &&& request.config.uid == config.uid
            &&& request.config.gid == config.gid
            &&& request.config.seccomp == config.seccomp
            &&& request.config.rlimits == config.rlimits
            &&& request.config.inherit_env == config.inherit_env
            &&& request.config.use_user_namespace == config.use_user_namespace
            &&& request.config.landlock == config.landlock
            &&& request.config.timeout == config.timeout
            &&& request.namespaces.pid == namespaces.pid
            &&& request.namespaces.ipc == namespaces.ipc
            &&& request.namespaces.net == namespaces.net
            &&& request.namespaces.mount == namespaces.mount
            &&& request.namespaces.uts == namespaces.uts
            &&& request.namespaces.user == namespaces.user
            &&& request.streamed == streamed
            &&& request.stack_size == 131072
            &&& request.gated <==> config.use_user_namespace && namespaces.user
            &&& pending.gated == request.gated
            &&& pending.streamed == streamed
            &&& pending.limits.wall == config.timeout
            &&& pending.limits.cpu_secs == match config.rlimits {
                Some(limits) => limits.max_cpu_seconds,
                None => None,
            }
        }),
{
    lemma_launch_stays(config, namespaces, parent@, streamed, run, k);
}

/// A process is created with an environment that has, for every name, the last
/// value that its configuration gives it, and otherwise, if the environment is
/// inherited, the value of the parent. The variables of the parent keep their
/// places. Whether the outputs are captured makes no difference.
pub proof fn process_gets_its_environment(
    config: ProcessConfig,
    namespaces: NamespaceConfig,
    parent: Vec<(String, String)>,
    streamed: bool,
    run: Seq<Execution>,
    k: int,
)
    requires
        execution_begins(config, namespaces, streamed, parent, run[0]),
        execution_run(run),
        0 <= k < run.len(),
        run[k] is Spawn,
    ensures
        ({
            let env = run[k]->Spawn_request.config.env@;
            &&& config.inherit_env ==> {
                &&& env.len() >= parent@.len()
                &&& forall|i: int|
                    0 <= i < parent@.len() ==> (#[trigger] env[i]).0@ == parent@[i].0@
                &&& forall|name: Seq<char>| #[trigger]
                    lookup(vars(env), name) == match last_value(vars(config.env@), name) {
                        Some(value) => Some(value),
                        None => lookup(vars(parent@), name),
                    }
                &&& config.env@.len() == 0 ==> env.len() == parent@.len() && forall|i: int|
                    0 <= i < parent@.len() ==> (#[trigger] env[i]).1@ == parent@[i].1@
            }
            &&& !config.inherit_env ==> {
                &&& env.len() == config.env@.len()
                &&& forall|i: int|
                    0 <= i < env.len() ==> (#[trigger] env[i]).0@ == config.env@[i].0@ && env[i].1@
                        == config.env@[i].1@
            }
        }),
{
    lemma_launch_stays(config, namespaces, parent@, streamed, run, k);
    let env = run[k]->Spawn_request.config.env@;
    let all = vars(env);
    assert(all.len() == env.len());
    if config.inherit_env {
        let base = vars(parent@);
        let overrides = vars(config.env@);
        assert(base.len() == parent@.len());
        base_order_is_kept(base, overrides);
        assert forall|i: int| 0 <= i < parent@.len() implies (#[trigger] env[i]).0@
            == parent@[i].0@ by {
            assert(all[i].0 == env[i].0@);
            assert(base[i].0 == parent@[i].0@);
        }
        assert forall|name: Seq<char>| #[trigger]
            lookup(all, name) == match last_value(overrides, name) {
                Some(value) => Some(value),
                None => lookup(base, name),
            } by {
            overrides_win(base, overrides, name);
        }
        if config.env@.len() == 0 {
            assert(overrides.len() == 0);
            assert(all == base);
            assert forall|i: int| 0 <= i < parent@.len() implies (#[trigger] env[i]).1@
                == parent@[i].1@ by {
                assert(all[i].1 == env[i].1@);
                assert(base[i].1 == parent@[i].1@);
            }
        }
    } else {
        let given = vars(config.env@);
        assert(given.len() == config.env@.len());
        assert forall|i: int| 0 <= i < env.len() implies (#[trigger] env[i]).0@
            == config.env@[i].0@ && env[i].1@ == config.env@[i].1@ by {
            assert(all[i] == (env[i].0@, env[i].1@));
            assert(given[i] == (config.env@[i].0@, config.env@[i].1@));
        }
    }
}

/// Capturing the outputs of a process does not change its environment.
pub proof fn capture_keeps_the_environment(
    config: ProcessConfig,
    namespaces: NamespaceConfig,
    parent: Vec<(String, String)>,
    plain: Seq<Execution>,
    i: int,
    captured: Seq<Execution>,
    j: int,
)
    requires
        execution_begins(config, namespaces, false, parent, plain[0]),
        execution_run(plain),
        0 <= i < plain.len(),
        plain[i] is Spawn,
        execution_begins(config, namespaces, true, parent, captured[0]),
        execution_run(captured),
        0 <= j < captured.len(),
        captured[j] is Spawn,
    ensures
        ({
            let a = plain[i]->Spawn_request.config.env@;
            let b = captured[j]->Spawn_request.config.env@;
            &&& a.len() == b.len()
            &&& forall|n: int|
                0 <= n < a.len() ==> (#[trigger] a[n]).0@ == b[n].0@ && a[n].1@ == b[n].1@
        }),
{
    lemma_launch_stays(config, namespaces, parent@, false, plain, i);
    lemma_launch_stays(config, namespaces, parent@, true, captured, j);
    let a = plain[i]->Spawn_request.config.env@;
    let b = captured[j]->Spawn_request.config.env@;
    assert(vars(a) == vars(b));
    assert(vars(a).len() == a.len() && vars(b).len() == b.len());
    assert forall|n: int| 0 <= n < a.len() implies (#[trigger] a[n]).0@ == b[n].0@ && a[n].1@
        == b[n].1@ by {
        assert(vars(a)[n] == (a[n].0@, a[n].1@));
        assert(vars(b)[n] == (b[n].0@, b[n].1@));
    }
}

/// With captured outputs both pipes are opened before the process is created;
/// without, none is.
pub proof fn outputs_have_their_pipes(
    config: ProcessConfig,
    namespaces: NamespaceConfig,
    parent: Vec<(String, String)>,
    streamed: bool,
    run: Seq<Execution>,
    k: int,
)
    requires
        execution_begins(config, namespaces, streamed, parent, run[0]),
        execution_run(run),
        0 <= k < run.len(),
        run[k] is Spawn,
    ensures
        streamed ==> k >= 2 && run[0] is OpenStdoutPipe && run[1] is OpenStderrPipe,
        !streamed ==> forall|i: int|
            0 <= i <= k ==> !(#[trigger] run[i] is OpenStdoutPipe) && !(run[i] is OpenStderrPipe),
        run[k]->Spawn_request.gated <==> k > 0 && run[k - 1] is OpenSyncPipe,
{
    lemma_launch_stays(config, namespaces, parent@, streamed, run, k);
    if streamed {
        assert(k > 0);
        assert(step_follows(run[0], run[1]));
        if !(run[1] is OpenStderrPipe) {
            if k > 1 {
                assert(step_follows(run[1], run[2]));
            }
            assert(false);
        }
    } else {
        assert forall|i: int| 0 <= i <= k implies !(#[trigger] run[i] is OpenStdoutPipe) && !(run[i]
            is OpenStderrPipe) by {
            lemma_no_output_pipe(config, namespaces, parent@, run, i);
        }
    }
    if k > 0 {
        lemma_launch_stays(config, namespaces, parent@, streamed, run, k - 1);
        assert(step_follows(run[k - 1], run[k]));
    }
}

proof fn lemma_no_output_pipe(
    config: ProcessConfig,
    namespaces: NamespaceConfig,
    parent: Seq<(String, String)>,
    run: Seq<Execution>,
    i: int,
)
    requires
        execution_run(run),
        execution_starts(config, namespaces, parent, false, run[0]),
        0 <= i < run.len(),
    ensures
        !(run[i] is OpenStdoutPipe) && !(run[i] is OpenStderrPipe),
    decreases i,
{
    if i > 0 {
        lemma_no_output_pipe(config, namespaces, parent, run, i - 1);
        assert(step_follows(run[i - 1], run[i]));
    }
}

/// A stream is handed out only after both outputs of the process are read, the
/// standard output and then the standard error.
pub proof fn both_outputs_are_read(
    config: ProcessConfig,
    namespaces: NamespaceConfig,
    parent: Vec<(String, String)>,
    streamed: bool,
    run: Seq<Execution>,
    k: int,
)
    requires
        execution_begins(config, namespaces, streamed, parent, run[0]),
        execution_run(run),
        0 <= k < run.len(),
        run[k] is Streaming,
    ensures
        k >= 2,
        run[k - 1] matches Execution::StartReader(reader) && reader.output == Output::Stderr
            && reader.child.pid == run[k]->Streaming_0.child.pid,
        run[k - 2] matches Execution::StartReader(reader) && reader.output == Output::Stdout
            && reader.child.pid == run[k]->Streaming_0.child.pid,
{
    assert(k > 0);
    assert(step_follows(run[k - 1], run[k]));
    assert(run[k - 1] is StartReader);
    assert(k - 1 > 0);
    assert(step_follows(run[k - 2], run[k - 1]));
}

/// A child that waits for nothing else: its outputs are read first if they are
/// captured, and otherwise it is waited for.
pub open spec fn child_goes_on(child: Created, r: Execution) -> bool {
    if child.streamed {
        r matches Execution::StartReader(reader) && reader.child == child && reader.output
            == Output::Stdout
    } else {
        r matches Execution::Wait(wait) && wait.child == child && !wait.killed
    }
}

/// A pipe that was opened leads on with the same launch, and one that could not
/// be opened ends the execution with the error of the kernel.
pub proof fn pipes_lead_on(
    stdout: StdoutPipe,
    stderr: StderrPipe,
    sync: SyncPipe,
    errno: i32,
    out_open: Execution,
    out_failed: Execution,
    err_open: Execution,
    err_failed: Execution,
    sync_open: Execution,
    sync_failed: Execution,
)
    requires
        call_ensures(StdoutPipe::opened, (stdout, Ok::<(), i32>(())), out_open),
        call_ensures(StdoutPipe::opened, (stdout, Err::<(), i32>(errno)), out_failed),
        call_ensures(StderrPipe::opened, (stderr, Ok::<(), i32>(())), err_open),
        call_ensures(StderrPipe::opened, (stderr, Err::<(), i32>(errno)), err_failed),
        call_ensures(SyncPipe::opened, (sync, Ok::<(), i32>(())), sync_open),
        call_ensures(SyncPipe::opened, (sync, Err::<(), i32>(errno)), sync_failed),
    ensures
        out_open matches Execution::OpenStderrPipe(next) && next.launch == stdout.launch,
        out_failed matches Execution::Finished(Err(SandboxError::Io(m))) && m@ == "pipe failed: "@
            + errno_text(errno),
        if stderr.launch.config.use_user_namespace && stderr.launch.namespaces.user {
            err_open matches Execution::OpenSyncPipe(next) && next.launch == stderr.launch
        } else {
            err_open matches Execution::Spawn { request, pending } && request.config
                == stderr.launch.config && request.namespaces == stderr.launch.namespaces
                && request.streamed == stderr.launch.streamed && !request.gated && !pending.gated
        },
        err_failed matches Execution::Finished(Err(SandboxError::Io(m))) && m@ == "pipe failed: "@
            + errno_text(errno),
        sync_open matches Execution::Spawn { request, pending } && request.config
            == sync.launch.config && request.namespaces == sync.launch.namespaces
            && request.streamed == sync.launch.streamed && request.gated && pending.gated,
        sync_failed matches Execution::Finished(Err(SandboxError::Syscall(m))) && m@ == "pipe: "@
            + errno_text(errno),
{
}

/// A process that is to be created is kept waiting if and only if it gets a
/// user namespace that is to be mapped.
pub proof fn creation_begins_with_the_gate(launch: Launch, r: Execution)
    requires
        call_ensures(ProcessExecutor::clone_child, (launch,), r),
    ensures
        if launch.config.use_user_namespace && launch.namespaces.user {
            r matches Execution::OpenSyncPipe(next) && next.launch == launch
        } else {
            r matches Execution::Spawn { request, pending } && request.config == launch.config
                && request.namespaces == launch.namespaces && request.streamed == launch.streamed
                && !request.gated && request.stack_size == 131072 && !pending.gated
                && pending.streamed == launch.streamed && pending.limits.wall
                == launch.config.timeout
        },
{
}

/// A created process is mapped, released and then waited for or captured, where
/// it was kept waiting, and otherwise waited for or captured at once; it is the
/// process that the kernel created. A process that could not be created ends
/// the execution with the error of the kernel.
pub proof fn created_processes_are_followed(
    pending: PendingSpawn,
    pid: Pid,
    errno: i32,
    r: Execution,
    failed: Execution,
)
    requires
        call_ensures(PendingSpawn::spawned, (pending, Ok::<Pid, i32>(pid)), r),
        call_ensures(PendingSpawn::spawned, (pending, Err::<Pid, i32>(errno)), failed),
    ensures
        ({
            let child = Created { pid, streamed: pending.streamed, limits: pending.limits };
            if pending.gated {
                r matches Execution::MapIds(next) && next.child == child
            } else {
                child_goes_on(child, r)
            }
        }),
        failed matches Execution::Finished(Err(SandboxError::Syscall(m))) && m@
            == "clone failed: "@ + errno_text(errno),
{
}

/// After its identities were mapped, the same child is released, and then waited
/// for or captured.
pub proof fn mapped_children_are_released(
    mapping: MapIds,
    mapped: Execution,
    release: Release,
    released: Execution,
)
    requires
        call_ensures(MapIds::mapped, (mapping,), mapped),
        call_ensures(Release::released, (release,), released),
    ensures
        mapped matches Execution::Release(next) && next.child == mapping.child,
        child_goes_on(release.child, released),
{
}

/// A reader that was started leads to the other output, and after the standard
/// error to the stream; one that could not be started ends the execution.
pub proof fn readers_lead_to_the_stream(
    reader: PendingReader,
    cause: String,
    r: Execution,
    failed: Execution,
)
    requires
        call_ensures(PendingReader::started, (reader, Ok::<(), String>(())), r),
        call_ensures(PendingReader::started, (reader, Err::<(), String>(cause)), failed),
    ensures
        reader.output == Output::Stdout ==> (r matches Execution::StartReader(next) && next.child
            == reader.child && next.output == Output::Stderr),
        reader.output == Output::Stderr ==> (r matches Execution::Streaming(wait) && wait.child
            == reader.child && !wait.killed),
        failed matches Execution::Finished(Err(SandboxError::Io(m))) && m@
            == "spawn reader failed: "@ + cause@,
{
}

/// A process that ended by itself has the status that it ended with, and no
/// signal; it did not time out.
pub proof fn exits_are_reported(
    wait: Wait,
    status: i32,
    elapsed: Duration,
    cpu: Duration,
    r: Execution,
)
    requires
        call_ensures(Wait::waited, (wait, WaitEvent::Exited { status }, elapsed, cpu), r),
    ensures
        r matches Execution::Finished(Ok(ended)) && ended.result.pid == wait.child.pid
            && ended.result.exit_status == status && ended.result.signal is None && !ended.timed_out
            && ended.streamed == wait.child.streamed && ended.result.exec_time_ms == (elapsed.secs
            * 1000 + elapsed.nanos / 1_000_000) % 0x1_0000_0000_0000_0000,
{
    assert(elapsed.millis() == elapsed.secs * 1000 + elapsed.nanos / 1_000_000);
}

/// A process that a signal killed has that signal, and 128 more than its number
/// as its status. It timed out if and only if it was killed for being out of
/// time, with signal 9, or the signal is 24 or 9 and it had used up the seconds
/// of processor time that it had, and at least one.
pub proof fn signals_are_reported(
    wait: Wait,
    signal: u8,
    elapsed: Duration,
    cpu: Duration,
    r: Execution,
)
    requires
        call_ensures(Wait::waited, (wait, WaitEvent::Signaled { signal }, elapsed, cpu), r),
    ensures
        r matches Execution::Finished(Ok(ended)) && ended.result.pid == wait.child.pid
            && ended.result.exit_status == 128 + signal && ended.result.signal == Some(
            signal as i32,
        ) && ended.streamed == wait.child.streamed && (ended.timed_out <==> (wait.killed && signal
            == 9) || ((signal == 24 || signal == 9) && cpu.secs >= 1
            && wait.child.limits.cpu_secs is Some && cpu.secs >= wait.child.limits.cpu_secs->0))
            && ended.result.exec_time_ms == (elapsed.secs * 1000 + elapsed.nanos / 1_000_000)
            % 0x1_0000_0000_0000_0000,
{
    assert(elapsed.millis() == elapsed.secs * 1000 + elapsed.nanos / 1_000_000);
}

/// A process that did not end is killed, with signal 9, if its time has passed
/// and it was not killed before, and otherwise waited for again, as before.
pub proof fn living_processes_are_waited_for(
    wait: Wait,
    elapsed: Duration,
    cpu: Duration,
    r: Execution,
)
    requires
        call_ensures(Wait::waited, (wait, WaitEvent::Other, elapsed, cpu), r),
    ensures
        ({
            let late = !wait.killed && wait.child.limits.wall is Some && ({
                let limit = wait.child.limits.wall->0;
                elapsed.secs * 1_000_000_000 + elapsed.nanos >= limit.secs * 1_000_000_000
                    + limit.nanos
            });
            if late {
                r matches Execution::Kill(overdue) && overdue.wait == wait && overdue.request.pid
                    == wait.child.pid && overdue.request.signal == 9
            } else {
                r matches Execution::Wait(next) && next == wait
            }
        }),
{
    assert(elapsed.total() == elapsed.secs * 1_000_000_000 + elapsed.nanos);
    if let Some(limit) = wait.child.limits.wall {
        assert(limit.total() == limit.secs * 1_000_000_000 + limit.nanos);
    }
}

/// A wait that failed ends the execution with the error of the kernel.
pub proof fn failed_waits_end_the_execution(
    wait: Wait,
    errno: i32,
    elapsed: Duration,
    cpu: Duration,
    r: Execution,
)
    requires
        call_ensures(Wait::waited, (wait, WaitEvent::Failed { errno }, elapsed, cpu), r),
    ensures
        r matches Execution::Finished(Err(SandboxError::Syscall(m))) && m@ == "waitpid failed: "@
            + errno_text(errno),
{
}

/// A process that was killed for being out of time is waited for, and known to
/// be killed; one that could not be is waited for without a deadline, and is
/// the same otherwise.
pub proof fn killed_processes_are_waited_for(
    late: Overdue,
    errno: i32,
    sent: Execution,
    failed: Execution,
)
    requires
        call_ensures(Overdue::killed, (late, Ok::<(), i32>(())), sent),
        call_ensures(Overdue::killed, (late, Err::<(), i32>(errno)), failed),
    ensures
        sent matches Execution::Wait(wait) && wait.killed && wait.child == late.wait.child,
        failed matches Execution::Wait(wait) && wait.killed == late.wait.killed && wait.child.pid
            == late.wait.child.pid && wait.child.streamed == late.wait.child.streamed
            && wait.child.limits.cpu_secs == late.wait.child.limits.cpu_secs
            && wait.child.limits.wall is None,
{
}

/// What a report on a process comes to: a status, with the signal if there was
/// one, another wait, or the error of the kernel.
pub proof fn reports_are_decided_on(event: WaitEvent, kernel: &str, r: WaitStep, with: WaitStep)
    requires
        call_ensures(wait_for_child, (event,), r),
        call_ensures(wait_for_child_with, (event, kernel), with),
    ensures
        event matches WaitEvent::Exited { status } ==> (r matches WaitStep::Ended {
            status: code,
            signal,
        } && code == status && signal is None) && with == r,
        event matches WaitEvent::Signaled { signal } ==> (r matches WaitStep::Ended {
            status,
            signal: by,
        } && status == 128 + signal && by == Some(signal as i32)) && with == r,
        event is Other ==> r is Again && with is Again,
        event matches WaitEvent::Failed { errno } ==> (r matches WaitStep::Failed(
            SandboxError::Syscall(m),
        ) && m@ == "waitpid failed: "@ + errno_text(errno)) && (with matches WaitStep::Failed(
            SandboxError::Syscall(m),
        ) && m@ == "waitpid failed: "@ + kernel@),
{
}

/// The end of a process is announced on its stream by its status, a failed
/// execution by 1, and nothing is announced before.
pub proof fn ends_are_announced(step: Execution, r: Option<i32>)
    requires
        call_ensures(Execution::exit_notice, (&step,), r),
    ensures
        r is Some <==> step is Finished,
        step matches Execution::Finished(Ok(ended)) ==> r == Some(ended.result.exit_status),
        step matches Execution::Finished(Err(_)) ==> r == Some(1i32),
{
}

/// The limits on the time of a process are its timeout and the seconds of
/// processor time among its resource limits.
pub proof fn limits_on_time_are_those_configured(config: ProcessConfig, r: TimeLimits)
    requires
        call_ensures(ProcessConfig::time_limits, (&config,), r),
    ensures
        r.wall == config.timeout,
        config.rlimits matches Some(limits) ==> r.cpu_secs == limits.max_cpu_seconds,
        config.rlimits is None ==> r.cpu_secs is None,
{
}

/// A wait may block if and only if no deadline could pass meanwhile.
pub proof fn waits_with_a_deadline_do_not_block(wait: Wait, r: bool)
    requires
        call_ensures(Wait::may_block, (&wait,), r),
    ensures
        r <==> wait.killed || wait.child.limits.wall is None,
{
}

} // verus!
