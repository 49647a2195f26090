//! What a new process executes in the end, and how it ends where it cannot.

use vstd::prelude::*;

use crate::errno::errno_text;
use crate::execution::child::{
    assignment, child_plan, child_probed_to, continues, encodable, encodable_arg, exec_returned,
    exec_returned_with, failure_lines, launch_of, launches, operations, prepared_to_with,
    ChildSearch, ChildSetup, ChildStep, ChildTurn, Outcome, Output, Preparation,
};
use crate::execution::child_laws::{
    child_run, execution_is_that_of_the_configuration, follows, ChildEvent,
};
use crate::execution::environment::vars;
use crate::execution::lookup_laws::{candidates_come_from_path, dirs_of_path, program_in};
use crate::execution::path_search::{
    candidates, probed_to, resolution_starts, searches, Resolution,
};
use crate::execution::process::{ProcessConfig, ProcessExecutor};
use crate::execution::setup_laws::{
    after_filter, lemma_plan_at, preparations_have_their_places, setup_begins,
};
use crate::text::{decimal, texts};

verus! {

/// A program gets the arguments of its configuration, every one, behind the
/// path that is executed: each as it is, or empty where it holds a NUL. That
/// the program was named by a path or found in `PATH` makes no difference.
pub proof fn program_gets_its_arguments(
    config: ProcessConfig,
    captured: bool,
    turns: Seq<ChildTurn>,
    events: Seq<ChildEvent>,
    k: int,
)
    requires
        setup_begins(config, captured, turns[0]),
        child_run(turns, events),
        0 <= k < turns.len(),
        turns[k].step is Exec,
    ensures
        ({
            let request = turns[k].step->Exec_0;
            &&& request.args@.len() == config.args@.len() + 1
            &&& request.args@[0]@ == request.program@
            &&& forall|i: int|
                0 <= i < config.args@.len() ==> if (#[trigger] config.args@[i])@.contains('\0') {
                    request.args@[i + 1]@.len() == 0
                } else {
                    request.args@[i + 1]@ == config.args@[i]@
                }
        }),
{
    execution_is_that_of_the_configuration(config, captured, turns, events, k);
    let request = turns[k].step->Exec_0;
    let given = texts(config.args@);
    let tail = given.map_values(|arg: Seq<char>| encodable_arg(arg));
    let all = texts(request.args@);
    assert(all.len() == request.args@.len());
    assert(given.len() == config.args@.len());
    assert(all[0] == request.args@[0]@);
    assert forall|i: int| 0 <= i < config.args@.len() implies if (
    #[trigger] config.args@[i])@.contains('\0') {
        request.args@[i + 1]@.len() == 0
    } else {
        request.args@[i + 1]@ == config.args@[i]@
    } by {
        assert(all[i + 1] == tail[i]);
        assert(all[i + 1] == request.args@[i + 1]@);
        assert(given[i] == config.args@[i]@);
    }
}

/// A program gets the environment of its configuration, every variable of it,
/// in order, as its name, an equals sign and its value.
pub proof fn program_gets_its_environment(
    config: ProcessConfig,
    captured: bool,
    turns: Seq<ChildTurn>,
    events: Seq<ChildEvent>,
    k: int,
)
    requires
        setup_begins(config, captured, turns[0]),
        child_run(turns, events),
        0 <= k < turns.len(),
        turns[k].step is Exec,
    ensures
        ({
            let request = turns[k].step->Exec_0;
            &&& request.env@.len() == config.env@.len()
            &&& forall|i: int|
                0 <= i < config.env@.len() ==> request.env@[i]@ == (#[trigger] config.env@[i]).0@
                    + seq!['='] + config.env@[i].1@
        }),
{
    execution_is_that_of_the_configuration(config, captured, turns, events, k);
    let request = turns[k].step->Exec_0;
    let given = vars(config.env@);
    let lines = given.map_values(|variable: (Seq<char>, Seq<char>)| assignment(variable));
    let all = texts(request.env@);
    assert(all.len() == request.env@.len());
    assert(given.len() == config.env@.len());
    assert forall|i: int| 0 <= i < config.env@.len() implies request.env@[i]@ == (
    #[trigger] config.env@[i]).0@ + seq!['='] + config.env@[i].1@ by {
        assert(all[i] == lines[i]);
        assert(all[i] == request.env@[i]@);
        assert(given[i] == (config.env@[i].0@, config.env@[i].1@));
        reveal_strlit("=");
        assert("="@ =~= seq!['=']);
    }
}

/// From the end of the preparations on, a process that has yet to find its
/// program has tried the paths before the present one, and none could be
/// executed.
proof fn lemma_search_at(
    config: ProcessConfig,
    captured: bool,
    turns: Seq<ChildTurn>,
    events: Seq<ChildEvent>,
    j: int,
    k: int,
)
    requires
        setup_begins(config, captured, turns[0]),
        child_run(turns, events),
        after_filter(config, captured) <= j <= k < turns.len(),
        turns[k].step is Probe || turns[k].step is Exec,
        turns[j].step is Probe,
    ensures
        !config.program@.contains('/'),
        ({
            let n = j - after_filter(config, captured);
            let paths = candidates(config.program@, vars(config.env@));
            let child = turns[j].step->Probe_0;
            &&& n < paths.len()
            &&& child.launch == launch_of(config)
            &&& child.search.program@ == config.program@
            &&& child.search.candidate@ == paths[n]
            &&& texts(child.search.rest@) == paths.skip(n + 1)
        }),
        forall|i: int|
            after_filter(config, captured) <= i < j ==> #[trigger] events[i] == ChildEvent::Probed(
                false,
            ),
    decreases j,
{
    let p = after_filter(config, captured);
    let plan = child_plan(config, captured);
    let launch = launch_of(config);
    let paths = candidates(config.program@, vars(config.env@));
    preparations_have_their_places(config, captured);
    if j == p {
        let lines = lemma_plan_at(launch, plan, turns, events, p, k);
        assert(plan.skip(p).len() == 0);
        let r = choose|r: Resolution| #[trigger]
            resolution_starts(launch.program@, vars(launch.env@), r) && launches(
                launch,
                lines,
                r,
                turns[j],
            );
        assert(paths.skip(1) =~= paths.drop_first());
    } else {
        assert(follows(turns[j - 1], events[j - 1], turns[j]));
        lemma_probe_before(config, captured, turns, events, j, k);
        lemma_search_at(config, captured, turns, events, j - 1, k);
        let child = turns[j - 1].step->Probe_0;
        let executable = events[j - 1]->Probed_0;
        let r = choose|r: Resolution| #[trigger]
            probed_to(child.search, executable, r) && launches(child.launch, seq![], r, turns[j]);
        let n = j - 1 - p;
        let rest = paths.skip(n + 1);
        assert(!executable);
        assert(searches(r, config.program@, rest));
        assert(rest[0] == paths[n + 1]);
        assert(rest.drop_first() =~= paths.skip(n + 2));
    }
}

/// Only a probe leads to a probe, once the preparations are over.
proof fn lemma_probe_before(
    config: ProcessConfig,
    captured: bool,
    turns: Seq<ChildTurn>,
    events: Seq<ChildEvent>,
    j: int,
    k: int,
)
    requires
        setup_begins(config, captured, turns[0]),
        child_run(turns, events),
        after_filter(config, captured) < j <= k < turns.len(),
        turns[k].step is Probe || turns[k].step is Exec,
        turns[j].step is Probe || turns[j].step is Exec,
    ensures
        turns[j - 1].step is Probe,
        events[j - 1] is Probed,
    decreases j,
{
    let p = after_filter(config, captured);
    let plan = child_plan(config, captured);
    preparations_have_their_places(config, captured);
    assert(follows(turns[j - 1], events[j - 1], turns[j]));
    if j - 1 == p {
        let lines = lemma_plan_at(launch_of(config), plan, turns, events, p, k);
        assert(plan.skip(p).len() == 0);
    } else {
        lemma_no_preparation(config, captured, turns, events, j - 1, k);
    }
}

proof fn lemma_no_preparation(
    config: ProcessConfig,
    captured: bool,
    turns: Seq<ChildTurn>,
    events: Seq<ChildEvent>,
    j: int,
    k: int,
)
    requires
        setup_begins(config, captured, turns[0]),
        child_run(turns, events),
        after_filter(config, captured) <= j <= k < turns.len(),
        turns[k].step is Probe || turns[k].step is Exec,
    ensures
        !(turns[j].step is Prepare),
    decreases j,
{
    let p = after_filter(config, captured);
    let plan = child_plan(config, captured);
    preparations_have_their_places(config, captured);
    if j == p {
        let lines = lemma_plan_at(launch_of(config), plan, turns, events, p, k);
        assert(plan.skip(p).len() == 0);
    } else {
        lemma_no_preparation(config, captured, turns, events, j - 1, k);
        assert(follows(turns[j - 1], events[j - 1], turns[j]));
    }
}

/// A program with a slash in its name is executed at that path, right after the
/// preparations.
pub proof fn named_programs_are_executed(
    config: ProcessConfig,
    captured: bool,
    turns: Seq<ChildTurn>,
    events: Seq<ChildEvent>,
    k: int,
)
    requires
        setup_begins(config, captured, turns[0]),
        child_run(turns, events),
        0 <= k < turns.len(),
        turns[k].step is Probe || turns[k].step is Exec,
        config.program@.contains('/'),
    ensures
        k == after_filter(config, captured),
        turns[k].step matches ChildStep::Exec(request) && request.program@ == config.program@,
{
    let p = after_filter(config, captured);
    let plan = child_plan(config, captured);
    let launch = launch_of(config);
    preparations_have_their_places(config, captured);
    let lines = lemma_plan_at(launch, plan, turns, events, p, k);
    assert(plan.skip(p).len() == 0);
    if k > p {
        lemma_probe_before(config, captured, turns, events, k, k);
        lemma_search_at(config, captured, turns, events, k - 1, k);
    }
}

/// Any other program is executed at the first of its paths in the directories
/// of `PATH` that could be executed: every earlier one was tried and could not.
pub proof fn found_programs_are_executed(
    config: ProcessConfig,
    captured: bool,
    turns: Seq<ChildTurn>,
    events: Seq<ChildEvent>,
    k: int,
) -> (dirs: Seq<Seq<char>>)
    requires
        setup_begins(config, captured, turns[0]),
        child_run(turns, events),
        0 <= k < turns.len(),
        turns[k].step is Exec,
        !config.program@.contains('/'),
    ensures
        dirs_of_path(dirs, config.env@),
        ({
            let n = k - after_filter(config, captured) - 1;
            &&& 0 <= n < dirs.len()
            &&& turns[k].step->Exec_0.program@ == program_in(dirs[n], config.program@)
            &&& events[k - 1] == ChildEvent::Probed(true)
            &&& forall|i: int|
                0 <= i <= n ==> (#[trigger] turns[after_filter(config, captured)
                    + i].step matches ChildStep::Probe(child) && child.search.candidate@
                    == program_in(dirs[i], config.program@))
            &&& forall|i: int|
                after_filter(config, captured) <= i < k - 1 ==> #[trigger] events[i]
                    == ChildEvent::Probed(false)
        }),
{
    let p = after_filter(config, captured);
    let plan = child_plan(config, captured);
    let launch = launch_of(config);
    let dirs = candidates_come_from_path(config.program@, config.env@);
    let paths = candidates(config.program@, vars(config.env@));
    preparations_have_their_places(config, captured);
    let lines = lemma_plan_at(launch, plan, turns, events, p, k);
    assert(plan.skip(p).len() == 0);
    if k == p {
        let r = choose|r: Resolution| #[trigger]
            resolution_starts(launch.program@, vars(launch.env@), r) && launches(
                launch,
                lines,
                r,
                turns[k],
            );
        assert(false);
    }
    lemma_probe_before(config, captured, turns, events, k, k);
    lemma_search_at(config, captured, turns, events, k - 1, k);
    assert(follows(turns[k - 1], events[k - 1], turns[k]));
    let child = turns[k - 1].step->Probe_0;
    let executable = events[k - 1]->Probed_0;
    assert(child_probed_to(child, executable, turns[k]));
    let n = k - p - 1;
    assert(paths[n] == program_in(dirs[n], config.program@));
    assert forall|i: int| 0 <= i <= n implies (#[trigger] turns[p + i].step matches ChildStep::Probe(
        child,
    ) && child.search.candidate@ == program_in(dirs[i], config.program@)) by {
        lemma_probes_between(config, captured, turns, events, p + i, k);
        lemma_search_at(config, captured, turns, events, p + i, k);
        assert(paths[i] == program_in(dirs[i], config.program@));
    }
    dirs
}

proof fn lemma_probes_between(
    config: ProcessConfig,
    captured: bool,
    turns: Seq<ChildTurn>,
    events: Seq<ChildEvent>,
    j: int,
    k: int,
)
    requires
        setup_begins(config, captured, turns[0]),
        child_run(turns, events),
        after_filter(config, captured) <= j < k < turns.len(),
        turns[k].step is Probe || turns[k].step is Exec,
    ensures
        turns[j].step is Probe,
    decreases k - j,
{
    if j + 1 < k {
        lemma_probes_between(config, captured, turns, events, j + 1, k);
    }
    lemma_probe_before(config, captured, turns, events, j + 1, k);
}

/// The line that is printed where a preparation failed whose failure ends the
/// process; `kernel` is the text of the error number, `detail` that of the
/// failure.
pub open spec fn last_line(
    action: Preparation,
    kernel: Seq<char>,
    detail: Seq<char>,
    line: Seq<char>,
) -> bool {
    match action {
        Preparation::Redirect(Output::Stdout) => line == "dup2 stdout failed"@,
        Preparation::Redirect(Output::Stderr) => line == "dup2 stderr failed"@,
        Preparation::ApplyLimits(_) => line == "Failed to apply rlimits: "@ + detail,
        Preparation::Chroot(_) => line == "chroot failed: "@ + kernel,
        Preparation::Chdir(_) => line == "chdir failed: "@ + kernel,
        Preparation::SetGid(_) => line == "setgid failed"@,
        Preparation::SetUid(_) => line == "setuid failed"@,
        Preparation::RestrictFiles(_) => line == "Failed to apply landlock: "@ + detail,
        Preparation::LoadFilter(_) => line == "Failed to load seccomp: "@ + detail,
        _ => false,
    }
}

/// Whether a preparation may fail: only what makes host paths visible, and the
/// closing of a descriptor that is not needed any more.
pub open spec fn may_fail(action: Preparation) -> bool {
    action is CreateDir || action is BindMount || action is CloseSource
}

proof fn lemma_failure(
    setup: ChildSetup,
    errno: i32,
    detail: String,
    kernel: Seq<char>,
    t: ChildTurn,
)
    requires
        prepared_to_with(setup, Outcome::Failed { errno, detail }, kernel, t),
        !may_fail(setup.action),
    ensures
        t.step == ChildStep::Exit(1),
        t.reports@.len() == 1,
        last_line(setup.action, kernel, detail@, t.reports@[0]@),
{
    assert(texts(t.reports@).len() == t.reports@.len());
    assert(texts(t.reports@)[0] == t.reports@[0]@);
}

proof fn lemma_goes_on(setup: ChildSetup, outcome: Outcome, kernel: Seq<char>, t: ChildTurn)
    requires
        prepared_to_with(setup, outcome, kernel, t),
        outcome is Done || may_fail(setup.action),
        setup.rest@.len() > 0,
    ensures
        t.step matches ChildStep::Prepare(next) && next.launch == setup.launch && next.action@
            == setup.rest@[0]@ && next.rest@.len() + 1 == setup.rest@.len() && forall|i: int|
            0 <= i < next.rest@.len() ==> (#[trigger] next.rest@[i])@ == setup.rest@[i + 1]@,
        outcome is Done || !(setup.action is BindMount) ==> t.reports@.len() == 0,
        outcome matches Outcome::Failed { errno, detail } ==> (
        setup.action matches Preparation::BindMount { source, target } ==> t.reports@.len() == 1
            && t.reports@[0]@ == "bind mount "@ + source@ + " -> "@ + target@ + " failed: "@
            + detail@ + " (errno "@ + decimal(errno as int) + ")"@),
{
    let all = operations(setup.rest@);
    assert(all.len() == setup.rest@.len());
    assert(all[0] == setup.rest@[0]@);
    assert(texts(t.reports@).len() == t.reports@.len());
    let lines = texts(t.reports@);
    assert(continues(setup.launch, all, lines, t));
    let next = t.step->Prepare_0;
    let rest = operations(next.rest@);
    assert(rest.len() == next.rest@.len());
    assert forall|i: int| 0 <= i < next.rest@.len() implies (#[trigger] next.rest@[i])@
        == setup.rest@[i + 1]@ by {
        assert(rest[i] == next.rest@[i]@);
        assert(rest[i] == all.drop_first()[i]);
        assert(all[i + 1] == setup.rest@[i + 1]@);
    }
    if setup.action is BindMount && outcome is Failed {
        assert(lines[0] == t.reports@[0]@);
    }
}

/// A preparation that failed ends the process with code 1 and one line that
/// says which it was and why, unless it may fail.
pub proof fn failed_preparations_end_the_process(
    setup: ChildSetup,
    errno: i32,
    detail: String,
    kernel: &str,
    with: ChildTurn,
    t: ChildTurn,
)
    requires
        call_ensures(
            ChildSetup::prepared_with,
            (setup, Outcome::Failed { errno, detail }, kernel),
            with,
        ),
        call_ensures(ChildSetup::prepared, (setup, Outcome::Failed { errno, detail }), t),
        !may_fail(setup.action),
    ensures
        with.step == ChildStep::Exit(1),
        with.reports@.len() == 1,
        last_line(setup.action, kernel@, detail@, with.reports@[0]@),
        t.step == ChildStep::Exit(1),
        t.reports@.len() == 1,
        last_line(setup.action, errno_text(errno), detail@, t.reports@[0]@),
{
    lemma_failure(setup, errno, detail, kernel@, with);
    lemma_failure(setup, errno, detail, errno_text(errno), t);
}

/// A preparation that was done, or that may fail, is followed by the next one,
/// and the others after it stay. Nothing is printed, but for a mount that
/// failed: its line says which it was and why.
pub proof fn preparations_follow_each_other(
    setup: ChildSetup,
    outcome: Outcome,
    kernel: &str,
    with: ChildTurn,
    t: ChildTurn,
)
    requires
        call_ensures(ChildSetup::prepared_with, (setup, outcome, kernel), with),
        call_ensures(ChildSetup::prepared, (setup, outcome), t),
        outcome is Done || may_fail(setup.action),
        setup.rest@.len() > 0,
    ensures
        with.step matches ChildStep::Prepare(next) && next.launch == setup.launch && next.action@
            == setup.rest@[0]@ && next.rest@.len() + 1 == setup.rest@.len() && forall|i: int|
            0 <= i < next.rest@.len() ==> (#[trigger] next.rest@[i])@ == setup.rest@[i + 1]@,
        t.step matches ChildStep::Prepare(next) && next.launch == setup.launch && next.action@
            == setup.rest@[0]@ && next.rest@.len() + 1 == setup.rest@.len() && forall|i: int|
            0 <= i < next.rest@.len() ==> (#[trigger] next.rest@[i])@ == setup.rest@[i + 1]@,
        outcome is Done || !(setup.action is BindMount) ==> t.reports@.len() == 0
            && with.reports@.len() == 0,
        outcome matches Outcome::Failed { errno, detail } ==> (
        setup.action matches Preparation::BindMount { source, target } ==> t.reports@.len() == 1
            && t.reports@[0]@ == "bind mount "@ + source@ + " -> "@ + target@ + " failed: "@
            + detail@ + " (errno "@ + decimal(errno as int) + ")"@),
{
    let errno = match outcome {
        Outcome::Done => 0,
        Outcome::Failed { errno, .. } => errno,
    };
    lemma_goes_on(setup, outcome, kernel@, with);
    lemma_goes_on(setup, outcome, errno_text(errno), t);
}

/// After the last preparation that was done, or that may fail, a program with a
/// slash in its name is executed, unless its name holds a NUL, which is
/// reported; any other program is looked for.
pub proof fn last_preparation_leads_to_the_program(
    setup: ChildSetup,
    outcome: Outcome,
    t: ChildTurn,
)
    requires
        call_ensures(ChildSetup::prepared, (setup, outcome), t),
        outcome is Done || may_fail(setup.action),
        setup.rest@.len() == 0,
    ensures
        ({
            let program = setup.launch.program@;
            let printed: int = if outcome is Failed && setup.action is BindMount {
                1
            } else {
                0
            };
            if !program.contains('/') {
                &&& t.step matches ChildStep::Probe(child)
                &&& child.launch == setup.launch
                &&& child.search.program@ == program
                &&& t.reports@.len() == printed
            } else if program.contains('\0') {
                &&& t.step == ChildStep::Exit(1)
                &&& t.reports@.len() == printed + 1
                &&& t.reports@[printed]@ == "program name contains nul byte"@
            } else {
                &&& t.step matches ChildStep::Exec(request)
                &&& request.program@ == program
                &&& t.reports@.len() == printed
            }
        }),
{
    assert(operations(setup.rest@).len() == 0);
    assert(texts(t.reports@).len() == t.reports@.len());
    let launch = setup.launch;
    let lines: Seq<Seq<char>> = match outcome {
        Outcome::Done => seq![],
        Outcome::Failed { errno, detail } => failure_lines(
            setup.action@,
            errno_text(errno),
            errno,
            detail@,
        ),
    };
    assert(continues(launch, operations(setup.rest@), lines, t));
    let r = choose|r: Resolution| #[trigger]
        resolution_starts(launch.program@, vars(launch.env@), r) && launches(
            launch,
            lines,
            r,
            t,
        );
    let dirs = candidates_come_from_path(launch.program@, launch.env@);
    if launch.program@.contains('\0') && launch.program@.contains('/') {
        assert(texts(t.reports@)[lines.len() as int] == t.reports@[lines.len() as int]@);
    }
}

/// A setup begins with its first preparation, prints nothing before, and knows
/// the program, the arguments and the environment of the configuration.
pub proof fn setups_begin_quietly(config: ProcessConfig, captured: bool, t: ChildTurn)
    requires
        setup_begins(config, captured, t),
    ensures
        t.reports@.len() == 0,
        t.step matches ChildStep::Prepare(setup) && setup.launch.program == config.program
            && setup.launch.args == config.args && setup.launch.env == config.env
            && setup.rest@.len() + 1 == after_filter(config, captured),
{
    preparations_have_their_places(config, captured);
    assert(texts(t.reports@).len() == t.reports@.len());
    let setup = t.step->Prepare_0;
    assert(operations(setup.rest@).len() == setup.rest@.len());
}

/// Every configuration whose root and environment hold no NUL can be set up,
/// with captured outputs or without.
pub proof fn encodable_configurations_can_be_set_up(config: ProcessConfig)
    requires
        config.chroot_dir matches Some(root) ==> !root@.contains('\0'),
        forall|i: int|
            0 <= i < config.env@.len() ==> !(#[trigger] config.env@[i]).0@.contains('\0')
                && !config.env@[i].1@.contains('\0'),
    ensures
        call_requires(ProcessExecutor::child_setup, (config,)),
        call_requires(ProcessExecutor::child_setup_with_pipes, (config,)),
{
    let all = vars(config.env@);
    assert(all.len() == config.env@.len());
    assert forall|i: int| 0 <= i < config.env@.len() implies !(#[trigger] all[i]).0.contains('\0')
        && !all[i].1.contains('\0') by {
        assert(all[i] == (config.env@[i].0@, config.env@[i].1@));
        assert(!config.env@[i].0@.contains('\0'));
    }
    assert(encodable(config));
}

/// The report on a preparation that failed has one line that says which it was
/// and why, and none where the failure is passed over in silence.
pub proof fn failures_are_reported(
    action: Preparation,
    kernel: &str,
    errno: i32,
    detail: &str,
    r: Vec<String>,
)
    requires
        call_ensures(Preparation::failure_report, (&action, kernel, errno, detail), r),
    ensures
        action is CloseSource || action is CreateDir <==> r@.len() == 0,
        r@.len() <= 1,
        !may_fail(action) ==> last_line(action, kernel@, detail@, r@[0]@),
        action matches Preparation::BindMount { source, target } ==> r@[0]@ == "bind mount "@
            + source@ + " -> "@ + target@ + " failed: "@ + detail@ + " (errno "@ + decimal(
            errno as int,
        ) + ")"@,
{
    assert(texts(r@).len() == r@.len());
    if r@.len() > 0 {
        assert(texts(r@)[0] == r@[0]@);
    }
}

/// A path that can be executed is executed, unless it holds a NUL, which is
/// reported; otherwise the next path is tried, and where there is none, the
/// process ends with code 1 and the name of its program.
pub proof fn search_ends_in_the_program(child: ChildSearch, executable: bool, t: ChildTurn)
    requires
        call_ensures(ChildSearch::probed, (child, executable), t),
    ensures
        executable && !child.search.candidate@.contains('\0') ==> (
        t.step matches ChildStep::Exec(request) && request.program@ == child.search.candidate@
            && t.reports@.len() == 0),
        executable && child.search.candidate@.contains('\0') ==> t.step == ChildStep::Exit(1)
            && t.reports@.len() == 1 && t.reports@[0]@ == "program name contains nul byte"@,
        !executable && child.search.rest@.len() > 0 ==> (t.step matches ChildStep::Probe(next)
            && next.launch == child.launch && next.search.program@ == child.search.program@
            && next.search.candidate@ == child.search.rest@[0]@ && next.search.rest@.len() + 1
            == child.search.rest@.len() && t.reports@.len() == 0),
        !executable && child.search.rest@.len() == 0 ==> t.step == ChildStep::Exit(1)
            && t.reports@.len() == 1 && t.reports@[0]@ == "execve failed: command not found: "@
            + child.search.program@,
{
    let r = choose|r: Resolution| #[trigger]
        probed_to(child.search, executable, r) && launches(child.launch, seq![], r, t);
    let lines = texts(t.reports@);
    assert(lines.len() == t.reports@.len());
    let rest = texts(child.search.rest@);
    assert(rest.len() == child.search.rest@.len());
    if rest.len() > 0 {
        assert(rest[0] == child.search.rest@[0]@);
    }
    if t.step is Exit {
        assert(lines[0] == t.reports@[0]@);
    }
    if t.step is Probe {
        assert(texts(t.step->Probe_0.search.rest@).len() == t.step->Probe_0.search.rest@.len());
    }
}

/// A process whose execution came back ends: with code 0 where the kernel
/// reported no error, and otherwise with code 1 and the error.
pub proof fn returned_executions_end_the_process(
    errno: i32,
    text: String,
    done: ChildTurn,
    done_with: ChildTurn,
    failed: ChildTurn,
    failed_with: ChildTurn,
)
    requires
        call_ensures(exec_returned, (None::<i32>,), done),
        call_ensures(exec_returned_with, (None::<String>,), done_with),
        call_ensures(exec_returned, (Some(errno),), failed),
        call_ensures(exec_returned_with, (Some(text),), failed_with),
    ensures
        done.step == ChildStep::Exit(0) && done.reports@.len() == 0,
        done_with.step == ChildStep::Exit(0) && done_with.reports@.len() == 0,
        failed.step == ChildStep::Exit(1) && failed.reports@.len() == 1 && failed.reports@[0]@
            == "execve failed: "@ + errno_text(errno),
        failed_with.step == ChildStep::Exit(1) && failed_with.reports@.len() == 1
            && failed_with.reports@[0]@ == "execve failed: "@ + text@,
{
    assert(texts(failed.reports@).len() == failed.reports@.len());
    assert(texts(failed.reports@)[0] == failed.reports@[0]@);
    assert(texts(failed_with.reports@).len() == failed_with.reports@.len());
    assert(texts(failed_with.reports@)[0] == failed_with.reports@[0]@);
}

/// A configuration can be handed to the kernel if and only if neither its root
/// nor a name or value of its environment holds a NUL.
pub proof fn encodable_means_no_nul(config: ProcessConfig, r: bool)
    requires
        call_ensures(ProcessConfig::is_encodable, (&config,), r),
    ensures
        r <==> (config.chroot_dir matches Some(root) ==> !root@.contains('\0')) && forall|i: int|
            0 <= i < config.env@.len() ==> !(#[trigger] config.env@[i]).0@.contains('\0')
                && !config.env@[i].1@.contains('\0'),
{
    let all = vars(config.env@);
    assert(all.len() == config.env@.len());
    assert forall|i: int| 0 <= i < config.env@.len() implies (#[trigger] all[i])
        == (config.env@[i].0@, config.env@[i].1@) by {}
    if !r && (config.chroot_dir matches Some(root) ==> !root@.contains('\0')) {
        let i = choose|i: int|
            0 <= i < config.env@.len() && !(!(#[trigger] all[i]).0.contains('\0')
                && !all[i].1.contains('\0'));
        assert(all[i] == (config.env@[i].0@, config.env@[i].1@));
        assert(config.env@[i].0@ == all[i].0);
    }
    if r {
        assert forall|i: int| 0 <= i < config.env@.len() implies !(
        #[trigger] config.env@[i]).0@.contains('\0') && !config.env@[i].1@.contains('\0') by {
            assert(all[i] == (config.env@[i].0@, config.env@[i].1@));
        }
    }
}

/// Which preparations may fail is told apart by their kind.
pub proof fn tolerance_goes_by_kind(action: Preparation, r: bool)
    requires
        call_ensures(Preparation::is_tolerated, (&action,), r),
    ensures
        r <==> may_fail(action),
{
}

} // verus!
