//! What holds of every sandbox, whatever the host answers.

use vstd::prelude::*;

use crate::controller::{
    build_starts, cgroup_name, cpu_read_to, cpu_time_read_to, created, execution_noted,
    group_created, group_limited, group_limits, kill_noted, kill_starts, measuring_starts,
    memory_read_to, peak_read_to, report, run_starts, runs, stream_reports, unmeasured,
    usage_starts, validated, CreateRoot, MeasureStep, Measurement, RunRequest, RunStep, Sandbox,
    SandboxConfig, SandboxResult, UsageStep, PERCENT_PERIOD, PERCENT_QUOTA, SECCOMP_EXIT_CODE,
};
use crate::error::SandboxError;
use crate::execution::child::{child_plan, continues, launch_of, ChildTurn, Operation};
use crate::execution::child_laws::{
    child_run, filter_is_loaded_before_program, performed, preparations_are_ordered, prepared_at,
    program_follows_preparations, ChildEvent,
};
use crate::execution::launch::{
    ended_by_time, environment_prepared, execution_starts, gated, time_limits, waited_to, Ended,
    Execution, Launch, Wait, WaitEvent, SIGNAL_STATUS_BASE,
};
use crate::execution::launch_laws::{
    execution_run, only_overdue_children_are_killed, result_is_that_of_the_child, step_follows,
    stream_comes_if_asked_for, wait_follows, wait_of,
};
use crate::execution::process::{KillRequest, Pid, ProcessConfig, SIGKILL, SIGXCPU};
use crate::privilege::{ResolvedMode, SystemCapabilities};
use crate::seccomp::SeccompFilter;
use crate::time::Duration;

verus! {

/// A sandbox that was built can be used: it has an identifier and a namespace,
/// it holds no process, its invariant holds, and the host has what its mode
/// needs.
pub proof fn built_sandbox_is_usable(
    config: SandboxConfig,
    caps: SystemCapabilities,
    mode: ResolvedMode,
    step: CreateRoot,
    failure: Option<Seq<char>>,
    r: Result<Sandbox, SandboxError>,
)
    requires
        build_starts(config, caps, mode, Ok::<CreateRoot, SandboxError>(step)),
        created(step, failure, r),
    ensures
        r is Ok <==> failure is None,
        r matches Ok(sandbox) ==> {
            &&& sandbox.wf()
            &&& sandbox.pid is None
            &&& sandbox.resolved_mode == mode
            &&& sandbox.config.id@.len() > 0
            &&& sandbox.config.namespace_config.enabled() > 0
            &&& mode is Privileged ==> caps.has_root
            &&& mode is Unprivileged ==> caps.has_seccomp
        },
{
}

/// Validation comes first: a directory is asked for only where the
/// configuration can be used, it is the root of the configuration, and where
/// the configuration cannot be used, building ends with the error of the
/// validation.
pub proof fn invalid_configurations_create_nothing(
    config: SandboxConfig,
    caps: SystemCapabilities,
    mode: ResolvedMode,
    valid: Result<(), SandboxError>,
    r: Result<CreateRoot, SandboxError>,
)
    requires
        validated(config, caps, mode, valid),
        build_starts(config, caps, mode, r),
    ensures
        r is Ok <==> valid is Ok,
        r matches Ok(step) ==> step.path@ == config.root@,
        r is Err ==> r->Err_0.text() == valid->Err_0.text(),
{
}

/// Root is optional: without privileges, a configuration with an identifier and
/// a namespace is valid on every host with seccomp, and a sandbox can be built
/// from it wherever its root directory can be created.
pub proof fn root_is_optional(
    config: SandboxConfig,
    caps: SystemCapabilities,
    valid: Result<(), SandboxError>,
    r: Result<CreateRoot, SandboxError>,
)
    requires
        config.id@.len() > 0,
        config.namespace_config.enabled() > 0,
        caps.has_seccomp,
        validated(config, caps, ResolvedMode::Unprivileged, valid),
        build_starts(config, caps, ResolvedMode::Unprivileged, r),
    ensures
        valid is Ok,
        r is Ok,
        forall|sandbox: Result<Sandbox, SandboxError>|
            created(r->Ok_0, None, sandbox) ==> sandbox is Ok,
{
}

/// Where a run of a program stands.
pub enum RunPhase {
    /// The host must do something.
    Needs(RunStep),
    /// The process is being executed.
    Executing(Execution),
    /// The process ended, and what it used is being read.
    Measuring(Ended, MeasureStep),
    /// The run is over, with a report.
    Reported(SandboxResult),
    /// The run is over, with an error.
    Failed(SandboxError),
}

/// The phase that a result of a step leads to.
pub open spec fn phase_after(r: Result<RunStep, SandboxError>) -> RunPhase {
    match r {
        Ok(step) => RunPhase::Needs(step),
        Err(e) => RunPhase::Failed(e),
    }
}

/// The phase that a report leads to.
pub open spec fn phase_reported(r: Result<SandboxResult, SandboxError>) -> RunPhase {
    match r {
        Ok(result) => RunPhase::Reported(result),
        Err(e) => RunPhase::Failed(e),
    }
}

/// Some answer of the host takes an execution to its next step.
pub open spec fn execution_goes_on(step: Execution, next: RunPhase) -> bool {
    next matches RunPhase::Executing(after) && step_follows(step, after)
}

/// Some answer of the host takes an execution from a step to the next phase,
/// and its sandbox from `s` to `t`: the sandbox holds the process from the end
/// of the execution on, or, with captured outputs, from the moment the stream
/// is handed out.
pub open spec fn execution_follows(s: Sandbox, step: Execution, t: Sandbox, next: RunPhase) -> bool {
    match step {
        Execution::Finished(Err(e)) => t == s && next == RunPhase::Failed(e),
        Execution::Finished(Ok(ended)) => {
            &&& if ended.streamed {
                t == s
            } else {
                execution_noted(s, Ok(ended.result.pid), t, Ok(ended.result.pid))
            }
            &&& next matches RunPhase::Measuring(of, measuring) && of == ended
                && measuring_starts(t, measuring)
        },
        Execution::Streaming(wait) => {
            &&& execution_noted(s, Ok(wait.child.pid), t, Ok(wait.child.pid))
            &&& execution_goes_on(step, next)
        },
        _ => t == s && execution_goes_on(step, next),
    }
}

/// Some answer of the host takes a run from a phase to the next, and its
/// sandbox from `s` to `t`.
pub open spec fn run_follows(
    streamed: bool,
    s: Sandbox,
    phase: RunPhase,
    t: Sandbox,
    next: RunPhase,
) -> bool {
    match phase {
        RunPhase::Needs(RunStep::CreateCgroup(group)) => t == s && exists|
            outcome: Result<(), SandboxError>,
            r: Result<RunStep, SandboxError>,
        | #[trigger]
            group_created(group, outcome, r) && next == phase_after(r),
        RunPhase::Needs(RunStep::LimitCgroup(group)) => exists|
            outcome: Result<(), SandboxError>,
            r: Result<RunStep, SandboxError>,
        | #[trigger]
            group_limited(s, group, outcome, t, r) && next == phase_after(r),
        RunPhase::Needs(RunStep::Execute(request)) => {
            &&& t == s
            &&& next matches RunPhase::Executing(step)
            &&& exists|parent: Seq<(String, String)>|
                execution_starts(
                    request.config,
                    request.namespaces,
                    parent,
                    request.streamed,
                    step,
                )
        },
        RunPhase::Executing(step) => execution_follows(s, step, t, next),
        RunPhase::Measuring(ended, MeasureStep::ReadPeak(read)) => {
            &&& t == s
            &&& next matches RunPhase::Measuring(of, measuring)
            &&& of == ended
            &&& exists|outcome: Result<u64, SandboxError>| peak_read_to(read, outcome, measuring)
        },
        RunPhase::Measuring(ended, MeasureStep::ReadCpuTime(read)) => {
            &&& t == s
            &&& next matches RunPhase::Measuring(of, measuring)
            &&& of == ended
            &&& exists|outcome: Result<u64, SandboxError>|
                cpu_time_read_to(read, outcome, measuring)
        },
        RunPhase::Measuring(ended, MeasureStep::Measured(measured)) => t == s && if streamed {
            exists|elapsed: Duration, r: Result<SandboxResult, SandboxError>| #[trigger]
                stream_reports(ended, elapsed, measured, r) && next == phase_reported(r)
        } else {
            exists|elapsed: Duration|
                next == RunPhase::Reported(#[trigger] report(ended, elapsed, measured))
        },
        RunPhase::Reported(_) => false,
        RunPhase::Failed(_) => false,
    }
}

/// A run of a program in a sandbox that began in the state `sandboxes[0]`, and
/// whose process nobody else killed.
pub open spec fn sandbox_run(
    program: Seq<char>,
    args: Seq<Seq<char>>,
    streamed: bool,
    sandboxes: Seq<Sandbox>,
    phases: Seq<RunPhase>,
) -> bool {
    &&& sandboxes.len() == phases.len()
    &&& phases.len() > 0
    &&& phases[0] matches RunPhase::Needs(step)
    &&& run_starts(sandboxes[0], program, args, streamed, Ok::<RunStep, SandboxError>(step))
    &&& forall|i: int|
        #![trigger phases[i]]
        0 <= i < phases.len() - 1 ==> run_follows(
            streamed,
            sandboxes[i],
            phases[i],
            sandboxes[i + 1],
            phases[i + 1],
        )
}

/// Whether a step is about a process whose outputs are captured, where it is
/// about a process.
pub open spec fn captures(step: Execution) -> Option<bool> {
    match step {
        Execution::OpenStdoutPipe(pipe) => Some(pipe.launch.streamed),
        Execution::OpenStderrPipe(pipe) => Some(pipe.launch.streamed),
        Execution::OpenSyncPipe(pipe) => Some(pipe.launch.streamed),
        Execution::Spawn { pending, .. } => Some(pending.streamed),
        Execution::MapIds(mapping) => Some(mapping.child.streamed),
        Execution::Release(release) => Some(release.child.streamed),
        Execution::StartReader(reader) => Some(reader.child.streamed),
        Execution::Streaming(wait) => Some(wait.child.streamed),
        Execution::Wait(wait) => Some(wait.child.streamed),
        Execution::Kill(late) => Some(late.wait.child.streamed),
        Execution::Finished(Ok(ended)) => Some(ended.streamed),
        Execution::Finished(Err(_)) => None,
    }
}

/// The process that a sandbox holds at a step of an execution: none before its
/// end, or, with captured outputs, none before the stream was handed out.
pub open spec fn held_at(step: Execution) -> Option<Pid> {
    match step {
        Execution::Wait(wait) => if wait.child.streamed {
            Some(wait.child.pid)
        } else {
            None
        },
        Execution::Kill(late) => if late.wait.child.streamed {
            Some(late.wait.child.pid)
        } else {
            None
        },
        Execution::Finished(Ok(ended)) => if ended.streamed {
            Some(ended.result.pid)
        } else {
            None
        },
        _ => None,
    }
}

/// What holds of a sandbox while a process is executed for it, with captured
/// outputs or without.
pub open spec fn execution_fits(streamed: bool, sandbox: Sandbox, step: Execution) -> bool {
    &&& captures(step) matches Some(captured) ==> captured == streamed
    &&& step is StartReader || step is Streaming ==> streamed
    &&& if step matches Execution::Finished(outcome) && outcome is Err {
        !streamed ==> sandbox.pid is None
    } else {
        sandbox.pid == held_at(step)
    }
}

/// What holds of a sandbox in each phase of its run, with captured outputs or
/// without.
pub open spec fn phase_fits(streamed: bool, sandbox: Sandbox, phase: RunPhase) -> bool {
    match phase {
        RunPhase::Needs(_) => sandbox.pid is None,
        RunPhase::Executing(step) => execution_fits(streamed, sandbox, step),
        RunPhase::Measuring(ended, measuring) => {
            &&& sandbox.pid == Some(ended.result.pid)
            &&& ended.streamed == streamed
            &&& sandbox.cgroup is None ==> measuring == MeasureStep::Measured(unmeasured())
        },
        RunPhase::Reported(_) => sandbox.pid is Some,
        RunPhase::Failed(_) => !streamed ==> sandbox.pid is None,
    }
}

/// A run changes neither the configuration nor the mode of its sandbox, keeps
/// its invariant, and makes it hold the process that was executed: from its end
/// on, or, with captured outputs, from its start on, and not before. A run
/// without captured outputs that failed leaves the sandbox without a process.
pub proof fn run_keeps_sandbox(
    program: Seq<char>,
    args: Seq<Seq<char>>,
    streamed: bool,
    sandboxes: Seq<Sandbox>,
    phases: Seq<RunPhase>,
    k: int,
)
    requires
        sandbox_run(program, args, streamed, sandboxes, phases),
        sandboxes[0].wf(),
        0 <= k < phases.len(),
    ensures
        sandboxes[k].config == sandboxes[0].config,
        sandboxes[k].resolved_mode == sandboxes[0].resolved_mode,
        sandboxes[k].has_landlock == sandboxes[0].has_landlock,
        sandboxes[k].wf(),
        phase_fits(streamed, sandboxes[k], phases[k]),
        phases[k] is Failed && !streamed ==> sandboxes[k].pid is None,
        sandboxes[0].resolved_mode is Unprivileged ==> !(phases[k] matches RunPhase::Needs(step)
            && !(step is Execute)),
    decreases k,
{
    if k > 0 {
        run_keeps_sandbox(program, args, streamed, sandboxes, phases, k - 1);
        assert(run_follows(streamed, sandboxes[k - 1], phases[k - 1], sandboxes[k], phases[k]));
        if phases[k] is Executing {
            let after = phases[k]->Executing_0;
            if phases[k - 1] is Executing {
                let step = phases[k - 1]->Executing_0;
                lemma_execution_fits(streamed, sandboxes[k - 1], step, sandboxes[k], after);
            } else {
                lemma_request_stays(program, args, streamed, sandboxes, phases, k - 1);
            }
        }
    }
}

proof fn lemma_execution_fits(
    streamed: bool,
    s: Sandbox,
    step: Execution,
    t: Sandbox,
    after: Execution,
)
    requires
        execution_fits(streamed, s, step),
        execution_follows(s, step, t, RunPhase::Executing(after)),
    ensures
        execution_fits(streamed, t, after),
{
    assert(step_follows(step, after));
}

/// Without privileges a run touches no control group, and its report gives 0
/// for memory and for processor time.
pub proof fn unprivileged_usage_is_zero(
    program: Seq<char>,
    args: Seq<Seq<char>>,
    streamed: bool,
    sandboxes: Seq<Sandbox>,
    phases: Seq<RunPhase>,
    k: int,
)
    requires
        sandbox_run(program, args, streamed, sandboxes, phases),
        sandboxes[0].wf(),
        sandboxes[0].resolved_mode is Unprivileged,
        0 <= k < phases.len(),
    ensures
        phases[k] matches RunPhase::Needs(step) ==> step is Execute,
        phases[k] matches RunPhase::Measuring(_, measuring) ==> measuring is Measured,
        sandboxes[k].cgroup is None,
        phases[k] matches RunPhase::Reported(result) ==> result.memory_peak == 0
            && result.cpu_time_us == 0,
{
    run_keeps_sandbox(program, args, streamed, sandboxes, phases, k);
    if phases[k] is Reported {
        run_keeps_sandbox(program, args, streamed, sandboxes, phases, k - 1);
        assert(run_follows(streamed, sandboxes[k - 1], phases[k - 1], sandboxes[k], phases[k]));
    }
}

proof fn lemma_needs_come_first(
    program: Seq<char>,
    args: Seq<Seq<char>>,
    streamed: bool,
    sandboxes: Seq<Sandbox>,
    phases: Seq<RunPhase>,
    j: int,
    k: int,
)
    requires
        sandbox_run(program, args, streamed, sandboxes, phases),
        0 <= j <= k < phases.len(),
        !(phases[j] is Needs),
    ensures
        !(phases[k] is Needs),
    decreases k - j,
{
    if j < k {
        lemma_needs_come_first(program, args, streamed, sandboxes, phases, j, k - 1);
        assert(run_follows(streamed, sandboxes[k - 1], phases[k - 1], sandboxes[k], phases[k]));
    }
}

/// With privileges a run executes its process only after a control group with
/// the name of the sandbox was created and limited, and from then on the
/// sandbox has that group.
pub proof fn privileged_run_is_grouped(
    program: Seq<char>,
    args: Seq<Seq<char>>,
    streamed: bool,
    sandboxes: Seq<Sandbox>,
    phases: Seq<RunPhase>,
    k: int,
)
    requires
        sandbox_run(program, args, streamed, sandboxes, phases),
        sandboxes[0].resolved_mode is Privileged,
        0 <= k < phases.len(),
        phases[k] matches RunPhase::Needs(step) && step is Execute,
    ensures
        k == 2,
        phases[0] matches RunPhase::Needs(RunStep::CreateCgroup(group)) && phases[1]
            == RunPhase::Needs(RunStep::LimitCgroup(group)) && phases[2] == RunPhase::Needs(
            RunStep::Execute(group.run),
        ) && group.name@ == cgroup_name(sandboxes[0]) && group.limits == group_limits(
            sandboxes[0].config,
        ) && sandboxes[2].cgroup == Some(group.name),
{
    assert(k > 0);
    assert(run_follows(streamed, sandboxes[0], phases[0], sandboxes[1], phases[1]));
    if phases[1] is Failed {
        lemma_needs_come_first(program, args, streamed, sandboxes, phases, 1, k);
    }
    assert(k > 1);
    assert(run_follows(streamed, sandboxes[1], phases[1], sandboxes[2], phases[2]));
    if phases[2] is Failed {
        lemma_needs_come_first(program, args, streamed, sandboxes, phases, 2, k);
    }
    if k > 2 {
        assert(run_follows(streamed, sandboxes[2], phases[2], sandboxes[3], phases[3]));
        lemma_needs_come_first(program, args, streamed, sandboxes, phases, 3, k);
    }
}

/// The request that a step of a run is about.
pub open spec fn request_of(step: RunStep) -> RunRequest {
    match step {
        RunStep::CreateCgroup(group) => group.run,
        RunStep::LimitCgroup(group) => group.run,
        RunStep::Execute(request) => request,
    }
}

proof fn lemma_request_stays(
    program: Seq<char>,
    args: Seq<Seq<char>>,
    streamed: bool,
    sandboxes: Seq<Sandbox>,
    phases: Seq<RunPhase>,
    k: int,
)
    requires
        sandbox_run(program, args, streamed, sandboxes, phases),
        0 <= k < phases.len(),
        phases[k] is Needs,
    ensures
        runs(sandboxes[0], program, args, streamed, request_of(phases[k]->Needs_0)),
    decreases k,
{
    if k > 0 {
        if !(phases[k - 1] is Needs) {
            lemma_needs_come_first(program, args, streamed, sandboxes, phases, k - 1, k);
        }
        lemma_request_stays(program, args, streamed, sandboxes, phases, k - 1);
        assert(run_follows(streamed, sandboxes[k - 1], phases[k - 1], sandboxes[k], phases[k]));
    }
}

/// The steps of the execution between two places of a run.
pub open spec fn steps_between(phases: Seq<RunPhase>, from: int, end: int) -> Seq<Execution> {
    Seq::new((end - from) as nat, |j: int| phases[from + j]->Executing_0)
}

/// The phases from `from` up to `end` are an execution, from its first step on,
/// of a process that a sandbox was asked to run.
pub open spec fn executes_between(
    sandbox: Sandbox,
    program: Seq<char>,
    args: Seq<Seq<char>>,
    streamed: bool,
    phases: Seq<RunPhase>,
    request: RunRequest,
    parent: Seq<(String, String)>,
    from: int,
    end: int,
) -> bool {
    &&& 0 < from < end <= phases.len()
    &&& phases[from - 1] == RunPhase::Needs(RunStep::Execute(request))
    &&& runs(sandbox, program, args, streamed, request)
    &&& forall|j: int| from <= j < end ==> #[trigger] phases[j] is Executing
    &&& execution_run(steps_between(phases, from, end))
    &&& execution_starts(
        request.config,
        request.namespaces,
        parent,
        streamed,
        steps_between(phases, from, end)[0],
    )
}

/// An execution between two places goes on to the next place.
proof fn lemma_execution_grows(
    sandbox: Sandbox,
    program: Seq<char>,
    args: Seq<Seq<char>>,
    streamed: bool,
    phases: Seq<RunPhase>,
    request: RunRequest,
    parent: Seq<(String, String)>,
    from: int,
    end: int,
)
    requires
        executes_between(sandbox, program, args, streamed, phases, request, parent, from, end),
        end < phases.len(),
        execution_goes_on(phases[end - 1]->Executing_0, phases[end]),
    ensures
        executes_between(sandbox, program, args, streamed, phases, request, parent, from, end + 1),
{
    let shorter = steps_between(phases, from, end);
    let steps = steps_between(phases, from, end + 1);
    assert forall|i: int| #![trigger steps[i]] 0 <= i < steps.len() - 1 implies step_follows(
        steps[i],
        steps[i + 1],
    ) by {
        assert(steps[i] == shorter[i]);
        if i < shorter.len() - 1 {
            assert(steps[i + 1] == shorter[i + 1]);
        }
    }
    assert(steps[0] == shorter[0]);
}

/// The first step of an execution is an execution.
proof fn lemma_execution_begins(
    program: Seq<char>,
    args: Seq<Seq<char>>,
    streamed: bool,
    sandboxes: Seq<Sandbox>,
    phases: Seq<RunPhase>,
    k: int,
) -> (r: (RunRequest, Seq<(String, String)>))
    requires
        sandbox_run(program, args, streamed, sandboxes, phases),
        0 < k < phases.len(),
        phases[k] is Executing,
        phases[k - 1] is Needs,
    ensures
        executes_between(sandboxes[0], program, args, streamed, phases, r.0, r.1, k, k + 1),
{
    assert(run_follows(streamed, sandboxes[k - 1], phases[k - 1], sandboxes[k], phases[k]));
    let step = phases[k]->Executing_0;
    let request = request_of(phases[k - 1]->Needs_0);
    lemma_request_stays(program, args, streamed, sandboxes, phases, k - 1);
    let parent = choose|parent: Seq<(String, String)>|
        execution_starts(request.config, request.namespaces, parent, request.streamed, step);
    let steps = steps_between(phases, k, k + 1);
    assert(steps.len() == 1 && steps[0] == step);
    (request, parent)
}

/// An execution comes from the request of the run, or from its step before.
proof fn lemma_before_execution(
    program: Seq<char>,
    args: Seq<Seq<char>>,
    streamed: bool,
    sandboxes: Seq<Sandbox>,
    phases: Seq<RunPhase>,
    k: int,
)
    requires
        sandbox_run(program, args, streamed, sandboxes, phases),
        0 <= k < phases.len(),
        phases[k] is Executing,
    ensures
        k > 0,
        phases[k - 1] is Needs || phases[k - 1] is Executing,
        phases[k - 1] is Executing ==> execution_goes_on(
            phases[k - 1]->Executing_0,
            phases[k],
        ),
{
    assert(k > 0);
    assert(run_follows(streamed, sandboxes[k - 1], phases[k - 1], sandboxes[k], phases[k]));
}

/// A run that executes a process executes the one that it was asked for, from
/// the first step of its execution on.
pub proof fn run_executes_what_was_asked_for(
    program: Seq<char>,
    args: Seq<Seq<char>>,
    streamed: bool,
    sandboxes: Seq<Sandbox>,
    phases: Seq<RunPhase>,
    k: int,
) -> (r: (RunRequest, Seq<(String, String)>, int))
    requires
        sandbox_run(program, args, streamed, sandboxes, phases),
        0 <= k < phases.len(),
        phases[k] is Executing,
    ensures
        executes_between(sandboxes[0], program, args, streamed, phases, r.0, r.1, r.2, k + 1),
    decreases k,
{
    lemma_before_execution(program, args, streamed, sandboxes, phases, k);
    if phases[k - 1] is Executing {
        let r = run_executes_what_was_asked_for(program, args, streamed, sandboxes, phases, k - 1);
        lemma_execution_grows(
            sandboxes[0],
            program,
            args,
            streamed,
            phases,
            r.0,
            r.1,
            r.2,
            k,
        );
        r
    } else {
        let r = lemma_execution_begins(program, args, streamed, sandboxes, phases, k);
        (r.0, r.1, k)
    }
}

proof fn lemma_measured(
    program: Seq<char>,
    args: Seq<Seq<char>>,
    streamed: bool,
    sandboxes: Seq<Sandbox>,
    phases: Seq<RunPhase>,
    k: int,
) -> (m: int)
    requires
        sandbox_run(program, args, streamed, sandboxes, phases),
        0 <= k < phases.len(),
        phases[k] is Measuring,
    ensures
        0 <= m < k,
        phases[m] == RunPhase::Executing(Execution::Finished(Ok(phases[k]->Measuring_0))),
        forall|j: int| m < j <= k ==> #[trigger] phases[j] is Measuring,
    decreases k,
{
    assert(k > 0);
    assert(run_follows(streamed, sandboxes[k - 1], phases[k - 1], sandboxes[k], phases[k]));
    if phases[k - 1] is Measuring {
        lemma_measured(program, args, streamed, sandboxes, phases, k - 1)
    } else {
        k - 1
    }
}

/// A process that ended was executed for the request of the run, and has a
/// stream if and only if one was asked for.
proof fn lemma_ended(
    program: Seq<char>,
    args: Seq<Seq<char>>,
    streamed: bool,
    sandboxes: Seq<Sandbox>,
    phases: Seq<RunPhase>,
    k: int,
) -> (r: (RunRequest, Seq<(String, String)>, int, int))
    requires
        sandbox_run(program, args, streamed, sandboxes, phases),
        0 <= k < phases.len(),
        phases[k] is Measuring,
    ensures
        r.3 <= k,
        executes_between(sandboxes[0], program, args, streamed, phases, r.0, r.1, r.2, r.3),
        steps_between(phases, r.2, r.3).last() == Execution::Finished(Ok(phases[k]->Measuring_0)),
        phases[k]->Measuring_0.streamed == streamed,
{
    let m = lemma_measured(program, args, streamed, sandboxes, phases, k);
    let (request, parent, from) = run_executes_what_was_asked_for(
        program,
        args,
        streamed,
        sandboxes,
        phases,
        m,
    );
    let steps = steps_between(phases, from, m + 1);
    assert(steps.last() == phases[m]->Executing_0);
    stream_comes_if_asked_for(
        request.config,
        request.namespaces,
        parent,
        streamed,
        steps,
        steps.len() - 1,
    );
    (request, parent, from, m + 1)
}

/// A report is about the process that was executed for the request of the run:
/// it has the exit status and the signal with which that execution ended, and
/// the sandbox holds that process. This is so with captured outputs too.
pub proof fn report_is_of_the_executed_process(
    program: Seq<char>,
    args: Seq<Seq<char>>,
    streamed: bool,
    sandboxes: Seq<Sandbox>,
    phases: Seq<RunPhase>,
    k: int,
) -> (r: (RunRequest, Seq<(String, String)>, int, int))
    requires
        sandbox_run(program, args, streamed, sandboxes, phases),
        sandboxes[0].wf(),
        0 <= k < phases.len(),
        phases[k] is Reported,
    ensures
        r.3 < k,
        executes_between(sandboxes[0], program, args, streamed, phases, r.0, r.1, r.2, r.3),
        steps_between(phases, r.2, r.3).last() matches Execution::Finished(Ok(ended)) && {
            let result = phases[k]->Reported_0;
            &&& result.exit_code == ended.result.exit_status
            &&& result.signal == ended.result.signal
            &&& result.timed_out == ended.timed_out
            &&& sandboxes[k].pid == Some(ended.result.pid)
            &&& ended.streamed == streamed
        },
{
    assert(k > 0);
    assert(run_follows(streamed, sandboxes[k - 1], phases[k - 1], sandboxes[k], phases[k]));
    run_keeps_sandbox(program, args, streamed, sandboxes, phases, k - 1);
    lemma_ended(program, args, streamed, sandboxes, phases, k - 1)
}

/// Once its process ended, a run fails no more: a run that captures outputs has
/// its stream.
pub proof fn ended_processes_are_reported(
    program: Seq<char>,
    args: Seq<Seq<char>>,
    streamed: bool,
    sandboxes: Seq<Sandbox>,
    phases: Seq<RunPhase>,
    k: int,
)
    requires
        sandbox_run(program, args, streamed, sandboxes, phases),
        0 < k < phases.len(),
        phases[k - 1] is Measuring,
    ensures
        phases[k] is Measuring || phases[k] is Reported,
{
    assert(run_follows(streamed, sandboxes[k - 1], phases[k - 1], sandboxes[k], phases[k]));
    let _ = lemma_ended(program, args, streamed, sandboxes, phases, k - 1);
}

/// What a report on a run in a control group says of its resources is what was
/// read from that group after the process ended: the peak of its memory, and
/// its processor time; where one of them could not be read, it says 0 of both.
pub proof fn report_gives_the_peak(
    program: Seq<char>,
    args: Seq<Seq<char>>,
    streamed: bool,
    sandboxes: Seq<Sandbox>,
    phases: Seq<RunPhase>,
    k: int,
) -> (r: (MeasureStep, Result<u64, SandboxError>, Result<u64, SandboxError>))
    requires
        sandbox_run(program, args, streamed, sandboxes, phases),
        sandboxes[0].wf(),
        0 <= k < phases.len(),
        phases[k] is Reported,
        sandboxes[k].cgroup is Some,
    ensures
        r.0 matches MeasureStep::ReadPeak(read) && read.group@ == sandboxes[k].cgroup->0@,
        exists|j: int|
            0 <= j < k && (#[trigger] phases[j] matches RunPhase::Measuring(_, measuring)
                && measuring == r.0),
        ({
            let result = phases[k]->Reported_0;
            (result.memory_peak, result.cpu_time_us) == match (r.1, r.2) {
                (Ok(peak), Ok(cpu)) => (peak, cpu),
                _ => (0, 0),
            }
        }),
        r.1 is Ok ==> exists|j: int|
            0 <= j < k && (#[trigger] phases[j] matches RunPhase::Measuring(_, measuring)
                && measuring matches MeasureStep::ReadCpuTime(read) && read.group
                == r.0->ReadPeak_0.group && read.memory_peak == r.1->Ok_0),
{
    assert(k > 0);
    assert(run_follows(streamed, sandboxes[k - 1], phases[k - 1], sandboxes[k], phases[k]));
    assert(phases[k - 1] is Measuring);
    lemma_measured_from(program, args, streamed, sandboxes, phases, k - 1)
}

proof fn lemma_measured_from(
    program: Seq<char>,
    args: Seq<Seq<char>>,
    streamed: bool,
    sandboxes: Seq<Sandbox>,
    phases: Seq<RunPhase>,
    k: int,
) -> (r: (MeasureStep, Result<u64, SandboxError>, Result<u64, SandboxError>))
    requires
        sandbox_run(program, args, streamed, sandboxes, phases),
        0 <= k < phases.len(),
        phases[k] matches RunPhase::Measuring(_, measuring) && measuring is Measured,
        sandboxes[k].cgroup is Some,
    ensures
        r.0 matches MeasureStep::ReadPeak(read) && read.group@ == sandboxes[k].cgroup->0@,
        exists|j: int|
            0 <= j < k && (#[trigger] phases[j] matches RunPhase::Measuring(_, measuring)
                && measuring == r.0),
        ({
            let measured = phases[k]->Measuring_1->Measured_0;
            (measured.memory_peak, measured.cpu_time_us) == match (r.1, r.2) {
                (Ok(peak), Ok(cpu)) => (peak, cpu),
                _ => (0, 0),
            }
        }),
        r.1 is Ok ==> exists|j: int|
            0 <= j < k && (#[trigger] phases[j] matches RunPhase::Measuring(_, measuring)
                && measuring matches MeasureStep::ReadCpuTime(read) && read.group
                == r.0->ReadPeak_0.group && read.memory_peak == r.1->Ok_0),
{
    assert(k > 0);
    assert(run_follows(streamed, sandboxes[k - 1], phases[k - 1], sandboxes[k], phases[k]));
    assert(phases[k - 1] is Measuring);
    let last = phases[k]->Measuring_1;
    match phases[k - 1]->Measuring_1 {
        MeasureStep::ReadPeak(read) => {
            lemma_peak_first(program, args, streamed, sandboxes, phases, k - 1);
            let outcome = choose|outcome: Result<u64, SandboxError>|
                peak_read_to(read, outcome, last);
            (MeasureStep::ReadPeak(read), outcome, outcome)
        },
        MeasureStep::ReadCpuTime(read) => {
            let cpu = choose|outcome: Result<u64, SandboxError>|
                cpu_time_read_to(read, outcome, last);
            assert(k - 1 > 0);
            assert(run_follows(
                streamed,
                sandboxes[k - 2],
                phases[k - 2],
                sandboxes[k - 1],
                phases[k - 1],
            ));
            assert(phases[k - 2] is Measuring);
            let first = phases[k - 2]->Measuring_1;
            assert(first is ReadPeak);
            lemma_peak_first(program, args, streamed, sandboxes, phases, k - 2);
            (first, Ok(read.memory_peak), cpu)
        },
        MeasureStep::Measured(_) => (last, Ok(0), Ok(0)),
    }
}

/// The peak is read first, from the group of the sandbox.
proof fn lemma_peak_first(
    program: Seq<char>,
    args: Seq<Seq<char>>,
    streamed: bool,
    sandboxes: Seq<Sandbox>,
    phases: Seq<RunPhase>,
    k: int,
)
    requires
        sandbox_run(program, args, streamed, sandboxes, phases),
        0 <= k < phases.len(),
        phases[k] matches RunPhase::Measuring(_, measuring) && measuring is ReadPeak,
    ensures
        sandboxes[k].cgroup matches Some(name) && phases[k]->Measuring_1->ReadPeak_0.group@
            == name@,
{
    assert(k > 0);
    assert(run_follows(streamed, sandboxes[k - 1], phases[k - 1], sandboxes[k], phases[k]));
}

/// The resource usage of a sandbox with a control group is what is read from
/// that group: the memory in use, then the processor time, or the first error.
/// Without one it is 0 of both.
pub proof fn usage_is_read_from_the_group(
    sandbox: Sandbox,
    memory: Result<u64, SandboxError>,
    cpu: Result<u64, SandboxError>,
    first: UsageStep,
    second: UsageStep,
    third: UsageStep,
)
    requires
        usage_starts(sandbox, first),
        first matches UsageStep::ReadMemory(read) ==> memory_read_to(read, memory, second),
        second matches UsageStep::ReadCpu(read) ==> cpu_read_to(read, cpu, third),
    ensures
        sandbox.cgroup is None ==> first == UsageStep::Known(Ok((0, 0))),
        sandbox.cgroup matches Some(name) ==> {
            &&& first matches UsageStep::ReadMemory(read) && read.group@ == name@
            &&& memory matches Err(e) ==> second == UsageStep::Known(Err(e))
            &&& memory matches Ok(m) ==> {
                &&& second matches UsageStep::ReadCpu(read) && read.group@ == name@
                &&& third == UsageStep::Known(
                    match cpu {
                        Ok(c) => Ok((m, c)),
                        Err(e) => Err(e),
                    },
                )
            }
        },
{
}

/// The seconds of processor time after which the kernel ends the program of a
/// sandbox: without privileges those of the timeout.
pub open spec fn cpu_seconds(sandbox: Sandbox) -> Option<u64> {
    match (sandbox.resolved_mode, sandbox.config.timeout) {
        (ResolvedMode::Unprivileged, Some(timeout)) => Some(timeout.secs),
        _ => None,
    }
}

/// The end of a process is that of the last report on it: by itself with a
/// status, or by a signal; and it timed out if and only if that signal ended it
/// because it was out of time.
pub open spec fn tells_the_end(
    sandbox: Sandbox,
    wait: Wait,
    event: WaitEvent,
    cpu: Duration,
    status: int,
    signal: Option<i32>,
    timed_out: bool,
) -> bool {
    &&& wait.child.limits.cpu_secs == cpu_seconds(sandbox)
    &&& wait.killed ==> sandbox.config.timeout is Some
    &&& timed_out == ended_by_time(wait, event, cpu)
    &&& match event {
        WaitEvent::Exited { status: code } => status == code && signal is None,
        WaitEvent::Signaled { signal: number } => status == SIGNAL_STATUS_BASE + number && signal
            == Some(number as i32),
        _ => false,
    }
}

/// A sandbox limits the processor time of a process as its timeout says.
proof fn lemma_cpu_seconds(
    sandbox: Sandbox,
    program: Seq<char>,
    args: Seq<Seq<char>>,
    streamed: bool,
    request: RunRequest,
)
    requires
        runs(sandbox, program, args, streamed, request),
    ensures
        time_limits(request.config).cpu_secs == cpu_seconds(sandbox),
        time_limits(request.config).wall == sandbox.config.timeout,
{
}

proof fn lemma_waited_end(wait: Wait, step: Execution) -> (r: (WaitEvent, Duration))
    requires
        wait_follows(wait, step),
        step matches Execution::Finished(outcome) && outcome is Ok,
    ensures
        ({
            let ended = step->Finished_0->Ok_0;
            &&& ended.timed_out == ended_by_time(wait, r.0, r.1)
            &&& match r.0 {
                WaitEvent::Exited { status } => ended.result.exit_status == status
                    && ended.result.signal is None,
                WaitEvent::Signaled { signal } => ended.result.exit_status == SIGNAL_STATUS_BASE
                    + signal && ended.result.signal == Some(signal as i32),
                _ => false,
            }
        }),
{
    let (event, elapsed, cpu) = choose|event: WaitEvent, elapsed: Duration, cpu: Duration|
        waited_to(wait, event, elapsed, cpu, step);
    (event, cpu)
}

/// An execution for a sandbox that ended tells how.
proof fn lemma_end_of_execution(
    sandbox: Sandbox,
    program: Seq<char>,
    args: Seq<Seq<char>>,
    streamed: bool,
    request: RunRequest,
    parent: Seq<(String, String)>,
    steps: Seq<Execution>,
) -> (r: (Wait, WaitEvent, Duration))
    requires
        runs(sandbox, program, args, streamed, request),
        execution_run(steps),
        execution_starts(request.config, request.namespaces, parent, streamed, steps[0]),
        steps.last() matches Execution::Finished(outcome) && outcome is Ok,
    ensures
        ({
            let ended = steps.last()->Finished_0->Ok_0;
            tells_the_end(
                sandbox,
                r.0,
                r.1,
                r.2,
                ended.result.exit_status as int,
                ended.result.signal,
                ended.timed_out,
            )
        }),
        r.0.killed ==> exists|j: int| 0 <= j < steps.len() && #[trigger] steps[j] is Kill,
{
    let last = steps.len() - 1;
    let child = result_is_that_of_the_child(
        request.config,
        request.namespaces,
        parent,
        streamed,
        steps,
        last,
    );
    let wait = wait_of(steps[last - 1])->0;
    lemma_cpu_seconds(sandbox, program, args, streamed, request);
    let (event, cpu) = lemma_waited_end(wait, steps[last]);
    if wait.killed {
        let j = choose|j: int| 0 <= j < last && #[trigger] steps[j] is Kill;
        let _ = only_overdue_children_are_killed(
            request.config,
            request.namespaces,
            parent,
            streamed,
            steps,
            j,
        );
    }
    (wait, event, cpu)
}

/// A report gives the actual end of the program, with captured outputs or
/// without: its status or its signal. It says that the program timed out if and
/// only if it was killed, in a step of the run, for being out of time, and that
/// ended it, or the limit on processor time that stands for the timeout did,
/// and the program had used that much. Without a timeout no program times out.
pub proof fn report_gives_the_actual_end(
    program: Seq<char>,
    args: Seq<Seq<char>>,
    streamed: bool,
    sandboxes: Seq<Sandbox>,
    phases: Seq<RunPhase>,
    k: int,
) -> (r: (Wait, WaitEvent, Duration))
    requires
        sandbox_run(program, args, streamed, sandboxes, phases),
        sandboxes[0].wf(),
        0 <= k < phases.len(),
        phases[k] is Reported,
    ensures
        ({
            let result = phases[k]->Reported_0;
            &&& tells_the_end(
                sandboxes[0],
                r.0,
                r.1,
                r.2,
                result.exit_code as int,
                result.signal,
                result.timed_out,
            )
            &&& sandboxes[0].config.timeout is None ==> !result.timed_out
            &&& result.timed_out ==> r.0.killed || (cpu_seconds(sandboxes[0]) matches Some(max)
                && r.2.secs >= max && r.2.secs >= 1)
            &&& result.timed_out ==> result.signal == Some(SIGKILL as i32) || result.signal == Some(
                SIGXCPU as i32,
            )
        }),
        r.0.killed ==> exists|j: int|
            0 <= j < k && (#[trigger] phases[j] matches RunPhase::Executing(step) && step is Kill),
{
    let (request, parent, from, end) = report_is_of_the_executed_process(
        program,
        args,
        streamed,
        sandboxes,
        phases,
        k,
    );
    let steps = steps_between(phases, from, end);
    let r = lemma_end_of_execution(
        sandboxes[0],
        program,
        args,
        streamed,
        request,
        parent,
        steps,
    );
    if r.0.killed {
        let j = choose|j: int| 0 <= j < steps.len() && #[trigger] steps[j] is Kill;
        assert(phases[from + j] is Executing);
        assert(phases[from + j]->Executing_0 == steps[j]);
    }
    r
}

/// A run kills its program only where the sandbox has a timeout, and only after
/// the program had not ended when that time had passed.
pub proof fn programs_are_killed_only_when_out_of_time(
    program: Seq<char>,
    args: Seq<Seq<char>>,
    streamed: bool,
    sandboxes: Seq<Sandbox>,
    phases: Seq<RunPhase>,
    k: int,
) -> (elapsed: Duration)
    requires
        sandbox_run(program, args, streamed, sandboxes, phases),
        0 <= k < phases.len(),
        phases[k] matches RunPhase::Executing(step) && step is Kill,
    ensures
        sandboxes[0].config.timeout matches Some(timeout) && elapsed.total() >= timeout.total(),
{
    let (request, parent, from) = run_executes_what_was_asked_for(
        program,
        args,
        streamed,
        sandboxes,
        phases,
        k,
    );
    let steps = steps_between(phases, from, k + 1);
    assert(steps[k - from] == phases[k]->Executing_0);
    only_overdue_children_are_killed(
        request.config,
        request.namespaces,
        parent,
        streamed,
        steps,
        k - from,
    )
}

/// A sandbox that holds a process refuses every run, whatever the program,
/// until the process is killed. Killing sends the signal that ends a process
/// for certain, to that process and no other; a kill that failed changes
/// nothing.
pub proof fn runs_are_refused_until_killed(
    before: Sandbox,
    pid: Pid,
    running: Sandbox,
    noted: Result<Pid, SandboxError>,
    request: Option<KillRequest>,
    failure: Option<Seq<char>>,
    after: Sandbox,
    killed: Result<(), SandboxError>,
    program: Seq<char>,
    args: Seq<Seq<char>>,
    streamed: bool,
    refused: Result<RunStep, SandboxError>,
    next: Result<RunStep, SandboxError>,
)
    requires
        execution_noted(before, Ok(pid), running, noted),
        kill_starts(running, request),
        kill_noted(running, failure, after, killed),
        run_starts(running, program, args, streamed, refused),
        run_starts(after, program, args, streamed, next),
    ensures
        refused == Err::<RunStep, SandboxError>(SandboxError::AlreadyRunning),
        request == Some(KillRequest { pid, signal: SIGKILL }),
        after == (Sandbox { pid: after.pid, ..running }),
        killed is Ok <==> failure is None,
        killed is Ok ==> after.pid is None && next is Ok,
        killed is Err ==> after == running && next == Err::<RunStep, SandboxError>(
            SandboxError::AlreadyRunning,
        ),
{
}

/// Killing a sandbox that was killed changes nothing, succeeds, and sends no
/// signal.
pub proof fn kill_is_idempotent(
    before: Sandbox,
    first: Option<Seq<char>>,
    between: Sandbox,
    r1: Result<(), SandboxError>,
    request: Option<KillRequest>,
    second: Option<Seq<char>>,
    after: Sandbox,
    r2: Result<(), SandboxError>,
)
    requires
        kill_noted(before, first, between, r1),
        r1 is Ok,
        kill_starts(between, request),
        kill_noted(between, second, after, r2),
    ensures
        between.pid is None,
        request is None,
        r2 is Ok,
        after == between,
{
}

/// The limits of a configuration reach what enforces them: without privileges
/// the process gets the memory limit, the process limit, and the timeout as a
/// limit on processor seconds; with privileges the control group gets the
/// memory limit, the process limit and the processor quota, and the process
/// none. Either way the execution gets the timeout.
pub proof fn limits_are_enforced(
    sandbox: Sandbox,
    program: Seq<char>,
    args: Seq<Seq<char>>,
    streamed: bool,
    step: RunStep,
)
    requires
        run_starts(sandbox, program, args, streamed, Ok::<RunStep, SandboxError>(step)),
    ensures
        sandbox.resolved_mode is Unprivileged ==> {
            &&& step matches RunStep::Execute(run)
            &&& run.config.timeout == sandbox.config.timeout
            &&& run.config.rlimits matches Some(limits)
            &&& limits.max_memory == sandbox.config.memory_limit
            &&& limits.max_processes is Some <==> sandbox.config.max_pids is Some
            &&& sandbox.config.max_pids matches Some(n) ==> limits.max_processes == Some(n as u64)
            &&& limits.max_cpu_seconds is Some <==> sandbox.config.timeout is Some
            &&& sandbox.config.timeout matches Some(t) ==> limits.max_cpu_seconds == Some(t.secs)
        },
        sandbox.resolved_mode is Privileged ==> {
            &&& step matches RunStep::CreateCgroup(group)
            &&& group.run.config.timeout == sandbox.config.timeout
            &&& group.run.config.rlimits is None
            &&& group.limits.memory_limit == sandbox.config.memory_limit
            &&& group.limits.max_pids == sandbox.config.max_pids
            &&& group.limits.cpu_quota == sandbox.config.cpu_quota
            &&& group.limits.cpu_period == sandbox.config.cpu_period
        },
{
}

/// Without privileges every process gets a user namespace, and is kept waiting
/// until its identities are mapped.
pub proof fn unprivileged_processes_are_gated(
    sandbox: Sandbox,
    program: Seq<char>,
    args: Seq<Seq<char>>,
    request: RunRequest,
    parent: Seq<(String, String)>,
    prepared: ProcessConfig,
)
    requires
        sandbox.wf(),
        sandbox.resolved_mode is Unprivileged,
        runs(sandbox, program, args, request.streamed, request),
        environment_prepared(request.config, parent, prepared),
    ensures
        gated(
            Launch {
                config: prepared,
                namespaces: request.namespaces,
                streamed: request.streamed,
            },
        ),
{
}

/// Whatever the mode, a process of a sandbox comes to its program only after it
/// changed its root to that of the sandbox, and after it loaded the filter of
/// the profile of the sandbox, the last thing before. Without privileges, on a
/// host with Landlock, its file access was restricted in between, to what lies
/// beneath the new root.
pub proof fn sandboxed_programs_are_confined(
    sandbox: Sandbox,
    program: Seq<char>,
    args: Seq<Seq<char>>,
    request: RunRequest,
    parent: Seq<(String, String)>,
    prepared: ProcessConfig,
    turns: Seq<ChildTurn>,
    events: Seq<ChildEvent>,
    k: int,
)
    requires
        runs(sandbox, program, args, request.streamed, request),
        environment_prepared(request.config, parent, prepared),
        child_run(turns, events),
        continues(
            launch_of(prepared),
            child_plan(prepared, request.streamed),
            seq![],
            turns[0],
        ),
        0 <= k < turns.len(),
        turns[k].step is Probe || turns[k].step is Exec,
    ensures
        ({
            let last = child_plan(prepared, request.streamed).len() - 1;
            let filter = SeccompFilter { profile: sandbox.config.seccomp_profile };
            &&& 0 <= last < k
            &&& performed(turns, events, last, Operation::LoadFilter(filter))
            &&& exists|i: int|
                0 <= i < last && #[trigger] performed(
                    turns,
                    events,
                    i,
                    Operation::Chroot(sandbox.config.root@),
                )
            &&& sandbox.resolved_mode is Unprivileged && sandbox.has_landlock ==> exists|
                i: int,
                j: int,
            |
                0 <= i < j < last && #[trigger] performed(
                    turns,
                    events,
                    i,
                    Operation::Chroot(sandbox.config.root@),
                ) && #[trigger] performed(turns, events, j, Operation::RestrictFiles("/"@))
        }),
{
    let plan = child_plan(prepared, request.streamed);
    filter_is_loaded_before_program(prepared, request.streamed, turns, events, k);
    program_follows_preparations(prepared, request.streamed, turns, events, k);
    preparations_are_ordered(prepared, request.streamed);
    let root = Operation::Chroot(sandbox.config.root@);
    let i = choose|i: int| 0 <= i < plan.len() && plan[i] == root;
    assert(prepared_at(plan, turns, events, i));
    assert(performed(turns, events, i, root));
    if sandbox.resolved_mode is Unprivileged && sandbox.has_landlock {
        let files = Operation::RestrictFiles("/"@);
        let j = choose|j: int| 0 <= j < plan.len() && plan[j] == files;
        assert(prepared_at(plan, turns, events, j));
        assert(performed(turns, events, j, files));
        assert(!(j <= i));
    }
}

/// A limit in percent is that share of the period.
pub proof fn percent_is_share_of_period(percent: u32)
    requires
        1 <= percent <= 100,
    ensures
        percent * PERCENT_QUOTA * 100 == percent * PERCENT_PERIOD,
        percent * PERCENT_QUOTA <= PERCENT_PERIOD,
{
}

/// The signal with which the kernel kills a process for a filtered system call.
pub const SIGSYS: u8 = 31;

/// A process that a signal killed counts as killed by the system call filter
/// if and only if the signal is the one for filtered system calls, with
/// captured outputs or without; and the report names the signal.
pub proof fn filter_kills_are_recognised(
    wait: Wait,
    signal: u8,
    run_time: Duration,
    cpu: Duration,
    ended: Ended,
    elapsed: Duration,
    measured: Measurement,
)
    requires
        waited_to(
            wait,
            WaitEvent::Signaled { signal },
            run_time,
            cpu,
            Execution::Finished(Ok(ended)),
        ),
    ensures
        report(ended, elapsed, measured).exit_code == SECCOMP_EXIT_CODE <==> signal == SIGSYS,
        report(ended, elapsed, measured).signal == Some(signal as i32),
{
}

} // verus!
