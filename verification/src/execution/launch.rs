//! Creation of a process and what its parent does until there is a result.
//!
//! The kernel is called from outside: each step says what to do, and takes back
//! what came of it.

use vstd::prelude::*;

use crate::errno::{describe_errno, errno_text};
use crate::error::SandboxError;
use crate::execution::child::Output;
use crate::execution::environment::{merged, vars};
use crate::execution::process::{
    KillRequest, Pid, ProcessConfig, ProcessExecutor, ProcessResult, SIGKILL, SIGXCPU,
};
use crate::namespace::NamespaceConfig;
use crate::time::Duration;

verus! {

/// Bytes of stack that a new process starts with.
pub const CHILD_STACK_SIZE: usize = 131072;

/// What is added to the number of a signal for the exit status of a process
/// that the signal killed.
pub const SIGNAL_STATUS_BASE: i32 = 128;

/// What waiting for a process reported.
#[derive(Debug, Clone, Copy, PartialEq, Eq, Structural)]
pub enum WaitEvent {
    /// The process ended by itself.
    Exited { status: i32 },
    /// A signal killed the process.
    Signaled { signal: u8 },
    /// The process did not end, or not yet.
    Other,
    /// Waiting failed with a kernel error number.
    Failed { errno: i32 },
}

/// What a report on a process comes to.
#[derive(Debug)]
pub enum WaitStep {
    /// Wait again.
    Again,
    /// The process ended with this status, or by this signal.
    Ended { status: i32, signal: Option<i32> },
    /// Waiting failed.
    Failed(SandboxError),
}

/// The step `r` is what the report `event` comes to, where `kernel` is the
/// text of its error number.
pub open spec fn wait_leads_to(event: WaitEvent, kernel: Seq<char>, r: WaitStep) -> bool {
    match event {
        WaitEvent::Exited { status } => r == (WaitStep::Ended { status, signal: None }),
        WaitEvent::Signaled { signal } => r == (WaitStep::Ended {
            status: (SIGNAL_STATUS_BASE + signal) as i32,
            signal: Some(signal as i32),
        }),
        WaitEvent::Other => r is Again,
        WaitEvent::Failed { .. } => r matches WaitStep::Failed(error) && error is Syscall
            && error.text() == "waitpid failed: "@ + kernel,
    }
}

/// The error number of a report.
pub open spec fn wait_errno(event: WaitEvent) -> i32 {
    match event {
        WaitEvent::Failed { errno } => errno,
        _ => 0,
    }
}

/// Decides on a report about a child process, given the text of its error
/// number.
pub fn wait_for_child_with(event: WaitEvent, kernel: &str) -> (r: WaitStep)
    ensures
        wait_leads_to(event, kernel@, r),
{
    match event {
        WaitEvent::Exited { status } => WaitStep::Ended { status, signal: None },
        WaitEvent::Signaled { signal } => WaitStep::Ended {
            status: SIGNAL_STATUS_BASE + signal as i32,
            signal: Some(signal as i32),
        },
        WaitEvent::Other => WaitStep::Again,
        WaitEvent::Failed { .. } => WaitStep::Failed(
            SandboxError::syscall("waitpid failed: ", kernel),
        ),
    }
}

/// Decides on a report about a child process.
pub fn wait_for_child(event: WaitEvent) -> (r: WaitStep)
    ensures
        wait_leads_to(event, errno_text(wait_errno(event)), r),
{
    let errno: i32 = match event {
        WaitEvent::Failed { errno } => errno,
        _ => 0,
    };
    let kernel = describe_errno(errno);
    wait_for_child_with(event, kernel.as_str())
}

/// Limits on the time of a process.
#[derive(Debug, Clone, Copy, PartialEq, Eq, Structural)]
pub struct TimeLimits {
    /// Time after its creation.
    pub wall: Option<Duration>,
    /// Seconds of processor time.
    pub cpu_secs: Option<u64>,
}

/// The limits that a configuration sets on the time of a process.
pub open spec fn time_limits(config: ProcessConfig) -> TimeLimits {
    TimeLimits {
        wall: config.timeout,
        cpu_secs: match config.rlimits {
            Some(limits) => limits.max_cpu_seconds,
            None => None,
        },
    }
}

impl ProcessConfig {
    /// The limits that the configuration sets on the time of a process.
    pub fn time_limits(&self) -> (r: TimeLimits)
        ensures
            r == time_limits(*self),
    {
        TimeLimits {
            wall: self.timeout,
            cpu_secs: match &self.rlimits {
                Some(limits) => limits.max_cpu_seconds,
                None => None,
            },
        }
    }
}

/// A process to create.
#[derive(Debug)]
pub struct Launch {
    pub config: ProcessConfig,
    pub namespaces: NamespaceConfig,
    /// Whether its outputs are captured.
    pub streamed: bool,
}

/// A process to create now.
#[derive(Debug)]
pub struct SpawnRequest {
    pub config: ProcessConfig,
    pub namespaces: NamespaceConfig,
    /// Whether the process must wait for its parent before its setup.
    pub gated: bool,
    /// Whether its outputs are captured.
    pub streamed: bool,
    /// Bytes of stack that the process starts with.
    pub stack_size: usize,
}

/// What follows the creation of a process.
#[derive(Debug)]
pub struct PendingSpawn {
    pub gated: bool,
    pub streamed: bool,
    pub limits: TimeLimits,
}

/// A process that was created.
#[derive(Debug, Clone, Copy, PartialEq, Eq, Structural)]
pub struct Created {
    pub pid: Pid,
    /// Whether its outputs are captured.
    pub streamed: bool,
    /// The limits on its time.
    pub limits: TimeLimits,
}

/// What follows the start of a reader.
#[derive(Debug)]
pub struct PendingReader {
    pub child: Created,
    pub output: Output,
}

/// How a process ended.
#[derive(Debug, Clone, Copy, PartialEq, Eq, Structural)]
pub struct Ended {
    pub result: ProcessResult,
    /// Whether there is a stream of its outputs.
    pub streamed: bool,
    /// Whether a limit on its time ended it.
    pub timed_out: bool,
}

/// What the parent of a process does next.
#[derive(Debug)]
pub enum Execution {
    /// Open the pipe for the standard output.
    OpenStdoutPipe(StdoutPipe),
    /// Open the pipe for the standard error.
    OpenStderrPipe(StderrPipe),
    /// Open the pipe on which the child waits.
    OpenSyncPipe(SyncPipe),
    /// Create the process.
    Spawn { request: SpawnRequest, pending: PendingSpawn },
    /// Map the identities of the child's user namespace.
    MapIds(MapIds),
    /// Let the child go on.
    Release(Release),
    /// Start to read an output.
    StartReader(PendingReader),
    /// Hand the stream of the outputs out, and wait for the process beside it;
    /// its end is to be announced on the stream.
    Streaming(Wait),
    /// Wait for the process, at most until it is out of time.
    Wait(Wait),
    /// Kill the process, which is out of time.
    Kill(Overdue),
    /// Done: how the process ended, or the error.
    Finished(Result<Ended, SandboxError>),
}

/// What follows the pipe for the standard output.
#[derive(Debug)]
pub struct StdoutPipe {
    pub launch: Launch,
}

/// What follows the pipe for the standard error.
#[derive(Debug)]
pub struct StderrPipe {
    pub launch: Launch,
}

/// What follows the pipe on which the child waits.
#[derive(Debug)]
pub struct SyncPipe {
    pub launch: Launch,
}

/// What follows the mapping of identities.
#[derive(Debug)]
pub struct MapIds {
    pub child: Created,
}

/// What follows the release of the child.
#[derive(Debug)]
pub struct Release {
    pub child: Created,
}

/// A wait for a process. It is what gives the actual exit status of the
/// process, with captured outputs or without.
#[derive(Debug, Clone, Copy, PartialEq, Eq, Structural)]
pub struct Wait {
    pub child: Created,
    /// Whether the process was killed because it was out of time.
    pub killed: bool,
}

/// A process that is out of time.
#[derive(Debug)]
pub struct Overdue {
    pub wait: Wait,
    /// The signal to send.
    pub request: KillRequest,
}

/// Whether a new process must wait until its user namespace is set up.
pub open spec fn gated(launch: Launch) -> bool {
    launch.config.use_user_namespace && launch.namespaces.user
}

/// The step `r` ends with a system call error: what was tried, then why it
/// failed.
pub open spec fn fails_syscall(r: Execution, context: Seq<char>, cause: Seq<char>) -> bool {
    r matches Execution::Finished(Err(error)) && error is Syscall && error.text() == context
        + cause
}

/// The step `r` ends with an input or output error.
pub open spec fn fails_io(r: Execution, context: Seq<char>, cause: Seq<char>) -> bool {
    r matches Execution::Finished(Err(error)) && error is Io && error.text() == context + cause
}

/// The step `r` creates the process.
pub open spec fn spawns(launch: Launch, gated: bool, r: Execution) -> bool {
    r == (Execution::Spawn {
        request: SpawnRequest {
            config: launch.config,
            namespaces: launch.namespaces,
            gated,
            streamed: launch.streamed,
            stack_size: CHILD_STACK_SIZE,
        },
        pending: PendingSpawn {
            gated,
            streamed: launch.streamed,
            limits: time_limits(launch.config),
        },
    })
}

/// The step `r` is the first towards creating the process.
pub open spec fn clone_starts(launch: Launch, r: Execution) -> bool {
    if gated(launch) {
        r == Execution::OpenSyncPipe(SyncPipe { launch })
    } else {
        spawns(launch, false, r)
    }
}

/// The step `r` is the first after the process was created and let go.
pub open spec fn goes_on(child: Created, r: Execution) -> bool {
    if child.streamed {
        r == Execution::StartReader(PendingReader { child, output: Output::Stdout })
    } else {
        r == Execution::Wait(Wait { child, killed: false })
    }
}

/// The configuration `prepared` is `config` with its environment prepared.
pub open spec fn environment_prepared(
    config: ProcessConfig,
    parent: Seq<(String, String)>,
    prepared: ProcessConfig,
) -> bool {
    &&& prepared == (ProcessConfig { env: prepared.env, ..config })
    &&& vars(prepared.env@) == if config.inherit_env {
        merged(vars(parent), vars(config.env@))
    } else {
        vars(config.env@)
    }
}

/// The step `r` is the first of an execution without captured outputs.
pub open spec fn execute_starts(
    config: ProcessConfig,
    namespaces: NamespaceConfig,
    parent: Seq<(String, String)>,
    r: Execution,
) -> bool {
    exists|prepared: ProcessConfig| #[trigger]
        environment_prepared(config, parent, prepared) && clone_starts(
            Launch { config: prepared, namespaces, streamed: false },
            r,
        )
}

/// The step `r` is the first of an execution with captured outputs.
pub open spec fn stream_starts(
    config: ProcessConfig,
    namespaces: NamespaceConfig,
    parent: Seq<(String, String)>,
    r: Execution,
) -> bool {
    &&& r matches Execution::OpenStdoutPipe(pipe)
    &&& environment_prepared(config, parent, pipe.launch.config)
    &&& pipe.launch.namespaces == namespaces
    &&& pipe.launch.streamed
}

/// The step `r` is the first of an execution, with captured outputs or without.
pub open spec fn execution_starts(
    config: ProcessConfig,
    namespaces: NamespaceConfig,
    parent: Seq<(String, String)>,
    streamed: bool,
    r: Execution,
) -> bool {
    if streamed {
        stream_starts(config, namespaces, parent, r)
    } else {
        execute_starts(config, namespaces, parent, r)
    }
}

/// The step `r` follows the pipe for the standard output.
pub open spec fn stdout_opened(pipe: StdoutPipe, outcome: Result<(), i32>, r: Execution) -> bool {
    match outcome {
        Ok(_) => r == Execution::OpenStderrPipe(StderrPipe { launch: pipe.launch }),
        Err(errno) => fails_io(r, "pipe failed: "@, errno_text(errno)),
    }
}

/// The step `r` follows the pipe for the standard error.
pub open spec fn stderr_opened(pipe: StderrPipe, outcome: Result<(), i32>, r: Execution) -> bool {
    match outcome {
        Ok(_) => clone_starts(pipe.launch, r),
        Err(errno) => fails_io(r, "pipe failed: "@, errno_text(errno)),
    }
}

/// The step `r` follows the pipe on which the child waits.
pub open spec fn sync_opened(pipe: SyncPipe, outcome: Result<(), i32>, r: Execution) -> bool {
    match outcome {
        Ok(_) => spawns(pipe.launch, true, r),
        Err(errno) => fails_syscall(r, "pipe: "@, errno_text(errno)),
    }
}

/// The step `r` follows the creation of the process.
pub open spec fn spawned_to(
    pending: PendingSpawn,
    outcome: Result<Pid, i32>,
    r: Execution,
) -> bool {
    match outcome {
        Ok(pid) => {
            let child = Created { pid, streamed: pending.streamed, limits: pending.limits };
            if pending.gated {
                r == Execution::MapIds(MapIds { child })
            } else {
                goes_on(child, r)
            }
        },
        Err(errno) => fails_syscall(r, "clone failed: "@, errno_text(errno)),
    }
}

/// Whether a process that did not end `elapsed` after its creation is to be
/// killed: it is out of time, and was not killed yet.
pub open spec fn overdue(wait: Wait, elapsed: Duration) -> bool {
    &&& !wait.killed
    &&& wait.child.limits.wall matches Some(limit)
    &&& elapsed.total() >= limit.total()
}

/// Whether the limit on its processor time ended a process that a signal
/// killed after it used `cpu`: the signal is one of the two that the kernel
/// sends for that limit, and the process had reached the limit. The kernel
/// counts whole seconds, so that nobody reaches a limit before the first one.
pub open spec fn ended_by_cpu_limit(limits: TimeLimits, signal: u8, cpu: Duration) -> bool {
    &&& limits.cpu_secs matches Some(max)
    &&& signal == SIGXCPU || signal == SIGKILL
    &&& cpu.secs >= 1
    &&& cpu.secs >= max
}

/// Whether a limit on its time ended a process that used `cpu`: it was killed
/// for being out of time, and that is what ended it, or the limit on its
/// processor time did.
pub open spec fn ended_by_time(wait: Wait, event: WaitEvent, cpu: Duration) -> bool {
    event matches WaitEvent::Signaled { signal } && (wait.killed && signal == SIGKILL
        || ended_by_cpu_limit(wait.child.limits, signal, cpu))
}

/// The step `r` is the end of the process.
pub open spec fn ends(
    wait: Wait,
    status: i32,
    signal: Option<i32>,
    elapsed: Duration,
    timed_out: bool,
    r: Execution,
) -> bool {
    r == Execution::Finished(
        Ok(
            Ended {
                result: ProcessResult {
                    pid: wait.child.pid,
                    exit_status: status,
                    signal,
                    exec_time_ms: (elapsed.millis() % 0x1_0000_0000_0000_0000) as u64,
                },
                streamed: wait.child.streamed,
                timed_out,
            },
        ),
    )
}

/// The step `r` follows a report on the process, `elapsed` after its creation
/// and after it used `cpu`.
pub open spec fn waited_to(
    wait: Wait,
    event: WaitEvent,
    elapsed: Duration,
    cpu: Duration,
    r: Execution,
) -> bool {
    match event {
        WaitEvent::Exited { status } => ends(wait, status, None, elapsed, false, r),
        WaitEvent::Signaled { signal } => ends(
            wait,
            (SIGNAL_STATUS_BASE + signal) as i32,
            Some(signal as i32),
            elapsed,
            ended_by_time(wait, event, cpu),
            r,
        ),
        WaitEvent::Other => if overdue(wait, elapsed) {
            r == Execution::Kill(
                Overdue {
                    wait,
                    request: KillRequest { pid: wait.child.pid, signal: SIGKILL },
                },
            )
        } else {
            r == Execution::Wait(wait)
        },
        WaitEvent::Failed { errno } => fails_syscall(r, "waitpid failed: "@, errno_text(errno)),
    }
}

/// The wait for a process that can be killed no more, though it is out of time.
pub open spec fn without_deadline(wait: Wait) -> Wait {
    Wait {
        child: Created {
            limits: TimeLimits { wall: None, ..wait.child.limits },
            ..wait.child
        },
        ..wait
    }
}

/// The step `r` follows the kill of a process that was out of time. A process
/// that could not be killed is waited for without a limit.
pub open spec fn killed_to(late: Overdue, outcome: Result<(), i32>, r: Execution) -> bool {
    r == Execution::Wait(
        match outcome {
            Ok(_) => Wait { killed: true, ..late.wait },
            Err(_) => without_deadline(late.wait),
        },
    )
}

/// The step `r` follows the start of a reader.
pub open spec fn reader_started_to(
    reader: PendingReader,
    outcome: Result<(), Seq<char>>,
    r: Execution,
) -> bool {
    match outcome {
        Ok(_) => match reader.output {
            Output::Stdout => r == Execution::StartReader(
                PendingReader { child: reader.child, output: Output::Stderr },
            ),
            Output::Stderr => r == Execution::Streaming(
                Wait { child: reader.child, killed: false },
            ),
        },
        Err(cause) => fails_io(r, "spawn reader failed: "@, cause),
    }
}

fn syscall_failed(context: &str, errno: i32) -> (r: Execution)
    ensures
        fails_syscall(r, context@, errno_text(errno)),
{
    Execution::Finished(Err(SandboxError::syscall(context, describe_errno(errno).as_str())))
}

fn io_failed(context: &str, errno: i32) -> (r: Execution)
    ensures
        fails_io(r, context@, errno_text(errno)),
{
    Execution::Finished(Err(SandboxError::io(context, describe_errno(errno).as_str())))
}

fn spawn_step(launch: Launch, gated: bool) -> (r: Execution)
    ensures
        spawns(launch, gated, r),
{
    Execution::Spawn {
        pending: PendingSpawn {
            gated,
            streamed: launch.streamed,
            limits: launch.config.time_limits(),
        },
        request: SpawnRequest {
            config: launch.config,
            namespaces: launch.namespaces,
            gated,
            streamed: launch.streamed,
            stack_size: CHILD_STACK_SIZE,
        },
    }
}

impl ProcessExecutor {
    /// Begins to create a child process.
    ///
    /// Where the child gets a user namespace, a pipe keeps it waiting until
    /// the parent has mapped its identities.
    pub fn clone_child(launch: Launch) -> (r: Execution)
        ensures
            clone_starts(launch, r),
    {
        if launch.config.use_user_namespace && launch.namespaces.user {
            Execution::OpenSyncPipe(SyncPipe { launch })
        } else {
            spawn_step(launch, false)
        }
    }

    /// Execute process with namespace isolation
    pub fn execute(
        config: ProcessConfig,
        namespaces: NamespaceConfig,
        parent: Vec<(String, String)>,
    ) -> (r: Execution)
        ensures
            execute_starts(config, namespaces, parent@, r),
    {
        let mut prepared = config;
        prepared.prepare_environment(parent);
        assert(environment_prepared(config, parent@, prepared));
        ProcessExecutor::clone_child(Launch { config: prepared, namespaces, streamed: false })
    }

    /// Execute process with streaming output
    pub fn execute_with_stream(
        config: ProcessConfig,
        namespaces: NamespaceConfig,
        enable_streams: bool,
        parent: Vec<(String, String)>,
    ) -> (r: Execution)
        ensures
            execution_starts(config, namespaces, parent@, enable_streams, r),
    {
        if !enable_streams {
            return ProcessExecutor::execute(config, namespaces, parent);
        }
        let mut prepared = config;
        prepared.prepare_environment(parent);
        Execution::OpenStdoutPipe(
            StdoutPipe { launch: Launch { config: prepared, namespaces, streamed: true } },
        )
    }
}

impl StdoutPipe {
    /// Goes on after the pipe was opened, or not.
    pub fn opened(self, outcome: Result<(), i32>) -> (r: Execution)
        ensures
            stdout_opened(self, outcome, r),
    {
        match outcome {
            Ok(_) => Execution::OpenStderrPipe(StderrPipe { launch: self.launch }),
            Err(errno) => io_failed("pipe failed: ", errno),
        }
    }
}

impl StderrPipe {
    /// Goes on after the pipe was opened, or not.
    pub fn opened(self, outcome: Result<(), i32>) -> (r: Execution)
        ensures
            stderr_opened(self, outcome, r),
    {
        match outcome {
            Ok(_) => ProcessExecutor::clone_child(self.launch),
            Err(errno) => io_failed("pipe failed: ", errno),
        }
    }
}

impl SyncPipe {
    /// Goes on after the pipe was opened, or not.
    pub fn opened(self, outcome: Result<(), i32>) -> (r: Execution)
        ensures
            sync_opened(self, outcome, r),
    {
        match outcome {
            Ok(_) => spawn_step(self.launch, true),
            Err(errno) => syscall_failed("pipe: ", errno),
        }
    }
}

impl Created {
    fn go_on(self) -> (r: Execution)
        ensures
            goes_on(self, r),
    {
        if self.streamed {
            Execution::StartReader(PendingReader { child: self, output: Output::Stdout })
        } else {
            Execution::Wait(Wait { child: self, killed: false })
        }
    }
}

impl PendingSpawn {
    /// Goes on after the process was created, or not.
    pub fn spawned(self, outcome: Result<Pid, i32>) -> (r: Execution)
        ensures
            spawned_to(self, outcome, r),
    {
        match outcome {
            Ok(pid) => {
                let child = Created { pid, streamed: self.streamed, limits: self.limits };
                if self.gated {
                    Execution::MapIds(MapIds { child })
                } else {
                    child.go_on()
                }
            },
            Err(errno) => syscall_failed("clone failed: ", errno),
        }
    }
}

impl MapIds {
    /// Goes on after the mapping was tried. A child whose identities could not
    /// be mapped is let go too.
    pub fn mapped(self) -> (r: Execution)
        ensures
            r == Execution::Release(Release { child: self.child }),
    {
        Execution::Release(Release { child: self.child })
    }
}

impl Release {
    /// Goes on after the child was let go.
    pub fn released(self) -> (r: Execution)
        ensures
            goes_on(self.child, r),
    {
        self.child.go_on()
    }
}

impl Wait {
    fn ended(
        self,
        status: i32,
        signal: Option<i32>,
        elapsed: Duration,
        timed_out: bool,
    ) -> (r: Execution)
        ensures
            ends(self, status, signal, elapsed, timed_out, r),
    {
        Execution::Finished(
            Ok(
                Ended {
                    result: ProcessResult {
                        pid: self.child.pid,
                        exit_status: status,
                        signal,
                        exec_time_ms: elapsed.millis_u64(),
                    },
                    streamed: self.child.streamed,
                    timed_out,
                },
            ),
        )
    }

    fn is_ended_by_time(&self, event: WaitEvent, cpu: Duration) -> (r: bool)
        ensures
            r == ended_by_time(*self, event, cpu),
    {
        match event {
            WaitEvent::Signaled { signal } => {
                if self.killed && signal == SIGKILL {
                    return true;
                }
                match self.child.limits.cpu_secs {
                    Some(max) => (signal == SIGXCPU || signal == SIGKILL) && cpu.secs >= 1
                        && cpu.secs >= max,
                    None => false,
                }
            },
            _ => false,
        }
    }

    fn is_overdue(&self, elapsed: Duration) -> (r: bool)
        ensures
            r == overdue(*self, elapsed),
    {
        if self.killed {
            return false;
        }
        match self.child.limits.wall {
            Some(limit) => elapsed.reaches(&limit),
            None => false,
        }
    }

    /// Whether the wait may go on until the process ends: it has no deadline
    /// that could pass before. With one, the host must report in between.
    pub fn may_block(&self) -> (r: bool)
        ensures
            r == (self.killed || self.child.limits.wall is None),
            r ==> forall|elapsed: Duration| !overdue(*self, elapsed),
    {
        self.killed || self.child.limits.wall.is_none()
    }

    /// Goes on after a report on the process, `elapsed` after it was created
    /// and after it used `cpu` of processor time.
    pub fn waited(self, event: WaitEvent, elapsed: Duration, cpu: Duration) -> (r: Execution)
        ensures
            waited_to(self, event, elapsed, cpu, r),
    {
        match wait_for_child(event) {
            WaitStep::Again => {
                if self.is_overdue(elapsed) {
                    let request = KillRequest { pid: self.child.pid, signal: SIGKILL };
                    Execution::Kill(Overdue { wait: self, request })
                } else {
                    Execution::Wait(self)
                }
            },
            WaitStep::Ended { status, signal } => {
                let timed_out = self.is_ended_by_time(event, cpu);
                self.ended(status, signal, elapsed, timed_out)
            },
            WaitStep::Failed(error) => Execution::Finished(Err(error)),
        }
    }
}

impl Overdue {
    /// Goes on after the signal was sent, or could not be.
    pub fn killed(self, outcome: Result<(), i32>) -> (r: Execution)
        ensures
            killed_to(self, outcome, r),
    {
        let mut wait = self.wait;
        match outcome {
            Ok(_) => {
                wait.killed = true;
            },
            Err(_) => {
                wait.child.limits.wall = None;
            },
        }
        Execution::Wait(wait)
    }
}

impl Execution {
    /// The exit code that is announced on the stream: the status of the
    /// process, or 1 where waiting failed; none before the end.
    pub fn exit_notice(&self) -> (r: Option<i32>)
        ensures
            r == match *self {
                Execution::Finished(Ok(ended)) => Some(ended.result.exit_status),
                Execution::Finished(Err(_)) => Some(1i32),
                _ => None,
            },
    {
        match self {
            Execution::Finished(Ok(ended)) => Some(ended.result.exit_status),
            Execution::Finished(Err(_)) => Some(1),
            _ => None,
        }
    }
}

impl PendingReader {
    /// Goes on after the reader was started, or not.
    pub fn started(self, outcome: Result<(), String>) -> (r: Execution)
        ensures
            reader_started_to(
                self,
                match outcome {
                    Ok(_) => Ok(()),
                    Err(cause) => Err(cause@),
                },
                r,
            ),
    {
        match outcome {
            Ok(_) => match self.output {
                Output::Stdout => Execution::StartReader(
                    PendingReader { child: self.child, output: Output::Stderr },
                ),
                Output::Stderr => Execution::Streaming(Wait { child: self.child, killed: false }),
            },
            Err(cause) => Execution::Finished(
                Err(SandboxError::io("spawn reader failed: ", cause.as_str())),
            ),
        }
    }
}

} // verus!
