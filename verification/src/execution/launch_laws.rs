//! What holds of every execution, whatever the kernel answers.

use vstd::prelude::*;

use crate::execution::launch::{
    clone_starts, environment_prepared, execution_starts, gated, goes_on, killed_to, overdue,
    reader_started_to, spawned_to, spawns, stderr_opened, stdout_opened, sync_opened, time_limits,
    waited_to, Created, Execution, Launch, Release, TimeLimits, Wait, WaitEvent,
};
use crate::execution::process::{KillRequest, Pid, ProcessConfig, SIGKILL};
use crate::namespace::NamespaceConfig;
use crate::time::Duration;

verus! {

/// The step `b` is what some report on the process leads to.
pub open spec fn wait_follows(wait: Wait, b: Execution) -> bool {
    exists|event: WaitEvent, elapsed: Duration, cpu: Duration|
        waited_to(wait, event, elapsed, cpu, b)
}

/// The step `b` is what some answer to the step `a` leads to.
pub open spec fn step_follows(a: Execution, b: Execution) -> bool {
    match a {
        Execution::OpenStdoutPipe(pipe) => exists|outcome: Result<(), i32>|
            stdout_opened(pipe, outcome, b),
        Execution::OpenStderrPipe(pipe) => exists|outcome: Result<(), i32>|
            stderr_opened(pipe, outcome, b),
        Execution::OpenSyncPipe(pipe) => exists|outcome: Result<(), i32>|
            sync_opened(pipe, outcome, b),
        Execution::Spawn { pending, .. } => exists|outcome: Result<Pid, i32>|
            spawned_to(pending, outcome, b),
        Execution::MapIds(mapping) => b == Execution::Release(Release { child: mapping.child }),
        Execution::Release(release) => goes_on(release.child, b),
        Execution::StartReader(reader) => exists|outcome: Result<(), Seq<char>>|
            reader_started_to(reader, outcome, b),
        Execution::Streaming(wait) => wait_follows(wait, b),
        Execution::Wait(wait) => wait_follows(wait, b),
        Execution::Kill(late) => exists|outcome: Result<(), i32>| killed_to(late, outcome, b),
        Execution::Finished(_) => false,
    }
}

/// A run of an execution: each step follows the one before it.
pub open spec fn execution_run(run: Seq<Execution>) -> bool {
    &&& run.len() > 0
    &&& forall|i: int|
        #![trigger run[i]]
        0 <= i < run.len() - 1 ==> step_follows(run[i], run[i + 1])
}

/// The execution has a child that it let go: it captures its outputs, waits for
/// it or kills it, or is done without an error.
pub open spec fn child_is_off(step: Execution) -> bool {
    match step {
        Execution::StartReader(_) => true,
        Execution::Streaming(_) => true,
        Execution::Wait(_) => true,
        Execution::Kill(_) => true,
        Execution::Finished(outcome) => outcome is Ok,
        _ => false,
    }
}

/// What is known of a child now is what was known of it when it was created,
/// but for a deadline that may have been given up.
pub open spec fn same_child(now: Created, child: Created) -> bool {
    ||| now == child
    ||| now == (Created { limits: TimeLimits { wall: None, ..child.limits }, ..child })
}

/// The execution is concerned with the given child.
pub open spec fn concerns(step: Execution, child: Created) -> bool {
    match step {
        Execution::StartReader(reader) => reader.child == child && child.streamed,
        Execution::Streaming(wait) => wait == (Wait { child, killed: false }) && child.streamed,
        Execution::Wait(wait) => same_child(wait.child, child) && (wait.killed
            ==> child.limits.wall is Some),
        Execution::Kill(late) => {
            &&& late.wait == (Wait { child, killed: false })
            &&& late.request == (KillRequest { pid: child.pid, signal: SIGKILL })
            &&& child.limits.wall is Some
        },
        Execution::Finished(Ok(ended)) => ended.result.pid == child.pid && ended.streamed
            == child.streamed,
        Execution::Finished(Err(_)) => true,
        _ => false,
    }
}

/// The wait that a step is about.
pub open spec fn wait_of(step: Execution) -> Option<Wait> {
    match step {
        Execution::Streaming(wait) => Some(wait),
        Execution::Wait(wait) => Some(wait),
        _ => None,
    }
}

proof fn lemma_concern_stays(run: Seq<Execution>, from: int, k: int, child: Created)
    requires
        execution_run(run),
        0 <= from <= k < run.len(),
        concerns(run[from], child),
    ensures
        concerns(run[k], child),
    decreases k - from,
{
    if from < k {
        lemma_concern_stays(run, from, k - 1, child);
        assert(step_follows(run[k - 1], run[k]));
    }
}

/// Where a child gets a user namespace, the parent goes on to read its outputs,
/// to wait for it, or to a result, only after it created the child waiting,
/// tried to map its identities, and then let it go, in this order; and what it
/// goes on with is that child.
pub proof fn waiting_child_is_mapped_first(launch: Launch, run: Seq<Execution>, k: int)
    requires
        gated(launch),
        execution_run(run),
        clone_starts(launch, run[0]),
        0 <= k < run.len(),
        child_is_off(run[k]),
    ensures
        k >= 4,
        spawns(launch, true, run[1]),
        run[2] matches Execution::MapIds(mapping) && run[3] == Execution::Release(
            Release { child: mapping.child },
        ) && concerns(run[k], mapping.child) && mapping.child.streamed == launch.streamed
            && mapping.child.limits == time_limits(launch.config),
{
    assert(k > 0);
    assert(step_follows(run[0], run[1]));
    if !spawns(launch, true, run[1]) {
        assert(run[1] is Finished);
        if run.len() > 2 {
            assert(step_follows(run[1], run[2]));
        }
        assert(false);
    }
    assert(k > 1);
    assert(step_follows(run[1], run[2]));
    if !(run[2] is MapIds) {
        assert(run[2] is Finished);
        if run.len() > 3 {
            assert(step_follows(run[2], run[3]));
        }
        assert(false);
    }
    assert(step_follows(run[2], run[3]));
    assert(step_follows(run[3], run[4]));
    let child = run[2]->MapIds_0.child;
    assert(concerns(run[4], child));
    lemma_concern_stays(run, 4, k, child);
}

proof fn lemma_concern_starts(launch: Launch, run: Seq<Execution>) -> (child: Created)
    requires
        execution_run(run),
        spawns(launch, false, run[0]),
        run.len() > 1,
    ensures
        concerns(run[1], child),
        child.streamed == launch.streamed,
        child.limits == time_limits(launch.config),
{
    assert(step_follows(run[0], run[1]));
    let pending = run[0]->Spawn_pending;
    let outcome = choose|outcome: Result<Pid, i32>| spawned_to(pending, outcome, run[1]);
    let pid = match outcome {
        Ok(pid) => pid,
        Err(_) => Pid { raw: 0 },
    };
    Created { pid, streamed: launch.streamed, limits: time_limits(launch.config) }
}

/// Where a child gets no user namespace, it is created at once, it waits for
/// nobody, and no identities are mapped.
pub proof fn other_child_is_not_gated(launch: Launch, run: Seq<Execution>, k: int)
    requires
        !gated(launch),
        execution_run(run),
        clone_starts(launch, run[0]),
        0 <= k < run.len(),
    ensures
        spawns(launch, false, run[0]),
        k > 0 ==> child_is_off(run[k]) || run[k] is Finished,
{
    if k > 0 {
        let child = lemma_concern_starts(launch, run);
        lemma_concern_stays(run, 1, k, child);
    }
}

proof fn lemma_child_of_clone(launch: Launch, run: Seq<Execution>, k: int) -> (child: Created)
    requires
        execution_run(run),
        clone_starts(launch, run[0]),
        0 <= k < run.len(),
        child_is_off(run[k]),
    ensures
        child.streamed == launch.streamed,
        child.limits == time_limits(launch.config),
        forall|j: int| 0 <= j <= k && child_is_off(run[j]) ==> concerns(#[trigger] run[j], child),
{
    if gated(launch) {
        waiting_child_is_mapped_first(launch, run, k);
        let child = run[2]->MapIds_0.child;
        assert forall|j: int| 0 <= j <= k && child_is_off(run[j]) implies concerns(
            #[trigger] run[j],
            child,
        ) by {
            waiting_child_is_mapped_first(launch, run, j);
        }
        child
    } else {
        assert(k > 0);
        let child = lemma_concern_starts(launch, run);
        assert forall|j: int| 0 <= j <= k && child_is_off(run[j]) implies concerns(
            #[trigger] run[j],
            child,
        ) by {
            assert(j > 0);
            lemma_concern_stays(run, 1, j, child);
        }
        child
    }
}

proof fn lemma_skip_is_run(run: Seq<Execution>, n: int)
    requires
        execution_run(run),
        0 <= n < run.len(),
    ensures
        execution_run(run.skip(n)),
{
    let rest = run.skip(n);
    assert forall|i: int| #![trigger rest[i]] 0 <= i < rest.len() - 1 implies step_follows(
        rest[i],
        rest[i + 1],
    ) by {
        assert(rest[i] == run[i + n]);
        assert(rest[i + 1] == run[i + n + 1]);
    }
}

/// An execution is about one child from the moment it let it go: that child is
/// captured or not as was asked for, and has the limits that were asked for.
pub proof fn execution_has_one_child(
    config: ProcessConfig,
    namespaces: NamespaceConfig,
    parent: Seq<(String, String)>,
    streamed: bool,
    run: Seq<Execution>,
    k: int,
) -> (child: Created)
    requires
        execution_run(run),
        execution_starts(config, namespaces, parent, streamed, run[0]),
        0 <= k < run.len(),
        child_is_off(run[k]),
    ensures
        child.streamed == streamed,
        child.limits == time_limits(config),
        forall|j: int| 0 <= j <= k && child_is_off(run[j]) ==> concerns(#[trigger] run[j], child),
{
    if streamed {
        let launch = run[0]->OpenStdoutPipe_0.launch;
        assert(k > 0);
        assert(step_follows(run[0], run[1]));
        if run[1] is Finished {
            if k > 1 {
                assert(step_follows(run[1], run[2]));
            }
            assert(false);
        }
        assert(step_follows(run[1], run[2]));
        if !clone_starts(launch, run[2]) {
            assert(run[2] is Finished);
            if k > 2 {
                assert(step_follows(run[2], run[3]));
            }
            assert(false);
        }
        let rest = run.skip(2);
        lemma_skip_is_run(run, 2);
        assert(rest[k - 2] == run[k]);
        let child = lemma_child_of_clone(launch, rest, k - 2);
        assert forall|j: int| 0 <= j <= k && child_is_off(run[j]) implies concerns(
            #[trigger] run[j],
            child,
        ) by {
            assert(j >= 2);
            assert(rest[j - 2] == run[j]);
        }
        child
    } else {
        let prepared = choose|prepared: ProcessConfig| #[trigger]
            environment_prepared(config, parent, prepared) && clone_starts(
                Launch { config: prepared, namespaces, streamed: false },
                run[0],
            );
        lemma_child_of_clone(Launch { config: prepared, namespaces, streamed: false }, run, k)
    }
}

/// An execution that succeeds has a stream if and only if streams were asked
/// for, and where it has one, it was handed out before.
pub proof fn stream_comes_if_asked_for(
    config: ProcessConfig,
    namespaces: NamespaceConfig,
    parent: Seq<(String, String)>,
    enable_streams: bool,
    run: Seq<Execution>,
    k: int,
)
    requires
        execution_run(run),
        execution_starts(config, namespaces, parent, enable_streams, run[0]),
        0 <= k < run.len(),
        run[k] matches Execution::Finished(outcome) && outcome is Ok,
    ensures
        run[k]->Finished_0->Ok_0.streamed == enable_streams,
        enable_streams ==> exists|j: int| 0 <= j < k && #[trigger] run[j] is Streaming,
        !enable_streams ==> forall|j: int| 0 <= j <= k ==> !(#[trigger] run[j] is Streaming),
{
    let child = execution_has_one_child(config, namespaces, parent, enable_streams, run, k);
    assert(concerns(run[k], child));
    if enable_streams {
        lemma_streaming_precedes(config, namespaces, parent, run, k);
    } else {
        assert forall|j: int| 0 <= j <= k implies !(#[trigger] run[j] is Streaming) by {
            if run[j] is Streaming {
                assert(child_is_off(run[j]));
                assert(concerns(run[j], child));
            }
        }
    }
}

/// With captured outputs, a wait, a kill and a result come only after the
/// stream was handed out.
proof fn lemma_streaming_precedes(
    config: ProcessConfig,
    namespaces: NamespaceConfig,
    parent: Seq<(String, String)>,
    run: Seq<Execution>,
    k: int,
)
    requires
        execution_run(run),
        execution_starts(config, namespaces, parent, true, run[0]),
        0 <= k < run.len(),
        child_is_off(run[k]),
        !(run[k] is StartReader),
        !(run[k] is Streaming),
    ensures
        exists|j: int| 0 <= j < k && #[trigger] run[j] is Streaming,
    decreases k,
{
    let child = execution_has_one_child(config, namespaces, parent, true, run, k);
    assert(k > 0);
    assert(step_follows(run[k - 1], run[k]));
    assert(concerns(run[k], child));
    if run[k - 1] is Streaming {
    } else if run[k - 1] is Wait || run[k - 1] is Kill {
        lemma_streaming_precedes(config, namespaces, parent, run, k - 1);
    } else if run[k - 1] is Spawn || run[k - 1] is Release {
        lemma_created_is_streamed(config, namespaces, parent, run, k - 1);
        assert(false);
    } else {
        assert(false);
    }
}

/// With captured outputs, the step at which a child goes off says so.
proof fn lemma_created_is_streamed(
    config: ProcessConfig,
    namespaces: NamespaceConfig,
    parent: Seq<(String, String)>,
    run: Seq<Execution>,
    k: int,
)
    requires
        execution_run(run),
        execution_starts(config, namespaces, parent, true, run[0]),
        0 <= k < run.len(),
    ensures
        match run[k] {
            Execution::OpenStdoutPipe(pipe) => pipe.launch.streamed,
            Execution::OpenStderrPipe(pipe) => pipe.launch.streamed,
            Execution::OpenSyncPipe(pipe) => pipe.launch.streamed,
            Execution::Spawn { pending, .. } => pending.streamed,
            Execution::MapIds(mapping) => mapping.child.streamed,
            Execution::Release(release) => release.child.streamed,
            _ => true,
        },
    decreases k,
{
    if k > 0 {
        lemma_created_is_streamed(config, namespaces, parent, run, k - 1);
        assert(step_follows(run[k - 1], run[k]));
    }
}

/// A result is what the last report on the child came to: it has the number of
/// the child that was created, and the status or the signal of the report. A
/// child that was killed for being out of time was killed in an earlier step.
pub proof fn result_is_that_of_the_child(
    config: ProcessConfig,
    namespaces: NamespaceConfig,
    parent: Seq<(String, String)>,
    streamed: bool,
    run: Seq<Execution>,
    k: int,
) -> (child: Created)
    requires
        execution_run(run),
        execution_starts(config, namespaces, parent, streamed, run[0]),
        0 <= k < run.len(),
        run[k] matches Execution::Finished(outcome) && outcome is Ok,
    ensures
        child.streamed == streamed,
        child.limits == time_limits(config),
        run[k]->Finished_0->Ok_0.result.pid == child.pid,
        k > 0,
        wait_of(run[k - 1]) matches Some(wait) && wait_follows(wait, run[k]) && same_child(
            wait.child,
            child,
        ) && (wait.killed ==> exists|j: int|
            0 <= j < k && #[trigger] run[j] is Kill),
{
    let child = execution_has_one_child(config, namespaces, parent, streamed, run, k);
    assert(concerns(run[k], child));
    assert(k > 0);
    assert(step_follows(run[k - 1], run[k]));
    assert(child_is_off(run[k - 1]));
    assert(concerns(run[k - 1], child));
    if wait_of(run[k - 1])->0.killed {
        lemma_killed_in_run(config, namespaces, parent, streamed, run, k - 1);
    }
    child
}

proof fn lemma_killed_in_run(
    config: ProcessConfig,
    namespaces: NamespaceConfig,
    parent: Seq<(String, String)>,
    streamed: bool,
    run: Seq<Execution>,
    k: int,
)
    requires
        execution_run(run),
        execution_starts(config, namespaces, parent, streamed, run[0]),
        0 <= k < run.len(),
        wait_of(run[k]) matches Some(wait) && wait.killed,
    ensures
        exists|j: int| 0 <= j < k && #[trigger] run[j] is Kill,
    decreases k,
{
    assert(k > 0);
    assert(step_follows(run[k - 1], run[k]));
    if run[k - 1] is Kill {
    } else {
        assert(wait_of(run[k - 1]) is Some);
        lemma_killed_in_run(config, namespaces, parent, streamed, run, k - 1);
    }
}

/// A child is killed only where it was given a time, and only after a report
/// that it had not ended when that time had passed; the signal goes to that
/// child.
pub proof fn only_overdue_children_are_killed(
    config: ProcessConfig,
    namespaces: NamespaceConfig,
    parent: Seq<(String, String)>,
    streamed: bool,
    run: Seq<Execution>,
    k: int,
) -> (elapsed: Duration)
    requires
        execution_run(run),
        execution_starts(config, namespaces, parent, streamed, run[0]),
        0 <= k < run.len(),
        run[k] is Kill,
    ensures
        config.timeout matches Some(limit) && elapsed.total() >= limit.total(),
        k > 0,
        wait_of(run[k - 1]) == Some(run[k]->Kill_0.wait),
        run[k]->Kill_0.request == (KillRequest {
            pid: run[k]->Kill_0.wait.child.pid,
            signal: SIGKILL,
        }),
{
    let child = execution_has_one_child(config, namespaces, parent, streamed, run, k);
    assert(concerns(run[k], child));
    assert(k > 0);
    assert(step_follows(run[k - 1], run[k]));
    let wait = wait_of(run[k - 1])->0;
    let (event, elapsed, cpu) = choose|event: WaitEvent, elapsed: Duration, cpu: Duration|
        waited_to(wait, event, elapsed, cpu, run[k]);
    assert(overdue(wait, elapsed));
    elapsed
}

/// The step is one at which nobody is killed any more.
spec fn past_kill(step: Execution) -> bool {
    match step {
        Execution::Wait(wait) => wait.killed || wait.child.limits.wall is None,
        Execution::Finished(_) => true,
        _ => false,
    }
}

proof fn lemma_past_kill(run: Seq<Execution>, from: int, k: int)
    requires
        execution_run(run),
        0 <= from < k < run.len(),
        run[from] is Kill,
    ensures
        past_kill(run[k]),
    decreases k - from,
{
    assert(step_follows(run[k - 1], run[k]));
    if from < k - 1 {
        lemma_past_kill(run, from, k - 1);
    }
}

/// In one execution a child is killed at most once.
pub proof fn overdue_child_is_killed_once(run: Seq<Execution>, i: int, j: int)
    requires
        execution_run(run),
        0 <= i < run.len(),
        0 <= j < run.len(),
        run[i] is Kill,
        run[j] is Kill,
    ensures
        i == j,
{
    if i < j {
        lemma_past_kill(run, i, j);
    }
    if j < i {
        lemma_past_kill(run, j, i);
    }
}

} // verus!
