//! What holds of every run of a new process, whatever the kernel answers.

use vstd::prelude::*;

use crate::errno::errno_text;
use crate::execution::child::{
    assignment, child_plan, child_probed_to, continues, cwd_operations, encodable, encodable_arg,
    executes, filter_operations, identity_operations, landlock_operations, launch_of, launches,
    limit_operations, mount_pair, mounts, operations, preparations, prepared_to, redirections,
    returned_to, root_operations, system_paths, tolerated, ChildLaunch, ChildStep, ChildTurn,
    Operation, Outcome,
};
use crate::execution::environment::{vars, Vars};
use crate::execution::path_search::{
    candidates, candidates_are_paths, probed_to, resolution_starts, searches, ProgramSearch,
    Resolution,
};
use crate::execution::process::ProcessConfig;
use crate::text::texts;

verus! {

/// An answer of the kernel to what a process did.
pub enum ChildEvent {
    /// A preparation came out like this.
    Prepared(Outcome),
    /// The candidate can be executed, or not.
    Probed(bool),
    /// The execution came back, with its error number if it failed.
    Returned(Option<i32>),
}

/// The turn `b` is what a process does after turn `a` was answered by `e`.
pub open spec fn follows(a: ChildTurn, e: ChildEvent, b: ChildTurn) -> bool {
    match (a.step, e) {
        (ChildStep::Prepare(setup), ChildEvent::Prepared(outcome)) => prepared_to(
            setup,
            outcome,
            b,
        ),
        (ChildStep::Probe(child), ChildEvent::Probed(executable)) => child_probed_to(
            child,
            executable,
            b,
        ),
        (ChildStep::Exec(_), ChildEvent::Returned(failure)) => returned_to(
            match failure {
                Some(errno) => Some(errno_text(errno)),
                None => None,
            },
            b,
        ),
        _ => false,
    }
}

/// A run of a process: its turns, with the answers between them.
pub open spec fn child_run(turns: Seq<ChildTurn>, events: Seq<ChildEvent>) -> bool {
    &&& turns.len() == events.len() + 1
    &&& forall|i: int|
        #![trigger events[i]]
        0 <= i < events.len() ==> follows(turns[i], events[i], turns[i + 1])
}

/// The preparation at place `i` of a run was the one that the plan has there,
/// and it was done, or may fail.
pub open spec fn prepared_at(
    plan: Seq<Operation>,
    turns: Seq<ChildTurn>,
    events: Seq<ChildEvent>,
    i: int,
) -> bool {
    &&& turns[i].step matches ChildStep::Prepare(setup)
    &&& setup.action@ == plan[i]
    &&& events[i] matches ChildEvent::Prepared(outcome)
    &&& outcome is Done || tolerated(plan[i])
}

proof fn lemma_tail_is_run(turns: Seq<ChildTurn>, events: Seq<ChildEvent>)
    requires
        child_run(turns, events),
        events.len() > 0,
    ensures
        child_run(turns.drop_first(), events.drop_first()),
{
    let t = turns.drop_first();
    let e = events.drop_first();
    assert forall|i: int| #![trigger e[i]] 0 <= i < e.len() implies follows(
        t[i],
        e[i],
        t[i + 1],
    ) by {
        assert(e[i] == events[i + 1]);
        assert(t[i] == turns[i + 1]);
        assert(t[i + 1] == turns[i + 2]);
    }
}

proof fn lemma_preparations_first(
    launch: ChildLaunch,
    plan: Seq<Operation>,
    lines: Seq<Seq<char>>,
    turns: Seq<ChildTurn>,
    events: Seq<ChildEvent>,
    k: int,
)
    requires
        child_run(turns, events),
        continues(launch, plan, lines, turns[0]),
        0 <= k < turns.len(),
        turns[k].step is Probe || turns[k].step is Exec,
    ensures
        k >= plan.len(),
        forall|i: int| 0 <= i < plan.len() ==> #[trigger] prepared_at(plan, turns, events, i),
    decreases plan.len(),
{
    if plan.len() > 0 {
        let setup = turns[0].step->Prepare_0;
        assert(k > 0);
        assert(follows(turns[0], events[0], turns[1]));
        let outcome = events[0]->Prepared_0;
        let t = turns.drop_first();
        let e = events.drop_first();
        lemma_tail_is_run(turns, events);
        if !(outcome is Done || tolerated(setup.action@)) {
            assert(turns[1].step == ChildStep::Exit(1));
            if k > 1 {
                assert(follows(turns[1], events[1], turns[2]));
            }
            assert(false);
        }
        let rest = plan.drop_first();
        assert(exists|after: Seq<Seq<char>>| continues(launch, rest, after, turns[1]));
        let after = choose|after: Seq<Seq<char>>| continues(launch, rest, after, turns[1]);
        assert(t[0] == turns[1]);
        assert(t[k - 1] == turns[k]);
        lemma_preparations_first(launch, rest, after, t, e, k - 1);
        assert forall|i: int| 0 <= i < plan.len() implies #[trigger] prepared_at(
            plan,
            turns,
            events,
            i,
        ) by {
            if i > 0 {
                assert(prepared_at(rest, t, e, i - 1));
                assert(t[i - 1] == turns[i]);
                assert(e[i - 1] == events[i]);
                assert(rest[i - 1] == plan[i]);
            }
        }
    }
}

/// A process comes to look for its program, or to execute it, only after it
/// performed all that its configuration asks for, in order, and nothing of it
/// failed but what may. What the kernel answers cannot change that.
pub proof fn program_follows_preparations(
    config: ProcessConfig,
    captured: bool,
    turns: Seq<ChildTurn>,
    events: Seq<ChildEvent>,
    k: int,
)
    requires
        child_run(turns, events),
        continues(launch_of(config), child_plan(config, captured), seq![], turns[0]),
        0 <= k < turns.len(),
        turns[k].step is Probe || turns[k].step is Exec,
    ensures
        k >= child_plan(config, captured).len(),
        forall|i: int|
            0 <= i < child_plan(config, captured).len() ==> #[trigger] prepared_at(
                child_plan(config, captured),
                turns,
                events,
                i,
            ),
{
    lemma_preparations_first(
        launch_of(config),
        child_plan(config, captured),
        seq![],
        turns,
        events,
        k,
    );
}

/// The place of an operation in the order of preparations.
pub open spec fn rank(op: Operation) -> int {
    match op {
        Operation::Redirect(_) => 0,
        Operation::CloseSource(_) => 0,
        Operation::ApplyLimits(_) => 1,
        Operation::CreateDir(_) => 2,
        Operation::BindMount(_, _) => 2,
        Operation::Chroot(_) => 3,
        Operation::Chdir(_) => 4,
        Operation::SetGid(_) => 5,
        Operation::SetUid(_) => 6,
        Operation::RestrictFiles(_) => 7,
        Operation::LoadFilter(_) => 8,
    }
}

/// Every operation ranks between two bounds, and none ranks before an earlier
/// one.
spec fn ordered(ops: Seq<Operation>, low: int, high: int) -> bool {
    &&& forall|i: int| 0 <= i < ops.len() ==> low <= rank(#[trigger] ops[i]) <= high
    &&& forall|i: int, j: int|
        0 <= i <= j < ops.len() ==> rank(#[trigger] ops[i]) <= rank(#[trigger] ops[j])
}

proof fn lemma_ordered_concat(a: Seq<Operation>, b: Seq<Operation>, low: int, mid: int, high: int)
    requires
        ordered(a, low, mid),
        ordered(b, mid, high),
        low <= mid <= high,
    ensures
        ordered(a + b, low, high),
{
    let c = a + b;
    assert forall|i: int, j: int| 0 <= i <= j < c.len() implies rank(#[trigger] c[i]) <= rank(
        #[trigger] c[j],
    ) by {
        if i < a.len() && j < a.len() {
            assert(c[i] == a[i] && c[j] == a[j]);
        } else if i < a.len() {
            assert(c[i] == a[i] && c[j] == b[j - a.len()]);
        } else {
            assert(c[i] == b[i - a.len()] && c[j] == b[j - a.len()]);
        }
    }
    assert forall|i: int| 0 <= i < c.len() implies low <= rank(#[trigger] c[i]) <= high by {
        if i < a.len() {
            assert(c[i] == a[i]);
        } else {
            assert(c[i] == b[i - a.len()]);
        }
    }
}

proof fn lemma_mounts_ordered(root: Seq<char>, paths: Seq<Seq<char>>)
    ensures
        ordered(mounts(root, paths), 2, 2),
    decreases paths.len(),
{
    if paths.len() > 0 {
        lemma_mounts_ordered(root, paths.drop_last());
        assert(ordered(mount_pair(root, paths.last()), 2, 2));
        lemma_ordered_concat(
            mounts(root, paths.drop_last()),
            mount_pair(root, paths.last()),
            2,
            2,
            2,
        );
    }
}

/// What a process does with its outputs first.
spec fn outputs(captured: bool) -> Seq<Operation> {
    if captured {
        redirections()
    } else {
        seq![]
    }
}

proof fn lemma_root_ordered(config: ProcessConfig)
    ensures
        ordered(root_operations(config), 2, 3),
{
    if let Some(root) = config.chroot_dir {
        let m = mounts(root@, system_paths());
        let last = seq![Operation::Chroot(root@)];
        lemma_mounts_ordered(root@, system_paths());
        assert(ordered(last, 2, 3));
        lemma_ordered_concat(m, last, 2, 2, 3);
        assert(root_operations(config) =~= m + last);
    }
}

proof fn lemma_plan_ordered(config: ProcessConfig, captured: bool)
    ensures
        ordered(child_plan(config, captured), 0, 8),
{
    let o = outputs(captured);
    let l = limit_operations(config);
    let r = root_operations(config);
    let c = cwd_operations(config);
    let i = identity_operations(config);
    let a = landlock_operations(config);
    let f = filter_operations(config);
    lemma_root_ordered(config);
    assert(ordered(o, 0, 1));
    assert(ordered(l, 1, 2));
    assert(ordered(c, 3, 4));
    assert(ordered(i, 4, 6));
    assert(ordered(a, 6, 7));
    assert(ordered(f, 7, 8));
    lemma_ordered_concat(l, r, 1, 2, 3);
    lemma_ordered_concat(l + r, c, 1, 3, 4);
    lemma_ordered_concat(l + r + c, i, 1, 4, 6);
    lemma_ordered_concat(l + r + c + i, a, 1, 6, 7);
    lemma_ordered_concat(l + r + c + i + a, f, 1, 7, 8);
    lemma_ordered_concat(o, preparations(config), 0, 1, 8);
    assert(child_plan(config, captured) =~= o + preparations(config));
}

/// What is in one of two sequences is in the two joined.
proof fn lemma_concat_contains(a: Seq<Operation>, b: Seq<Operation>, op: Operation)
    ensures
        a.contains(op) ==> (a + b).contains(op),
        b.contains(op) ==> (a + b).contains(op),
{
    if a.contains(op) {
        let i = choose|i: int| 0 <= i < a.len() && a[i] == op;
        assert((a + b)[i] == op);
    }
    if b.contains(op) {
        let i = choose|i: int| 0 <= i < b.len() && b[i] == op;
        assert((a + b)[a.len() + i] == op);
    }
}

/// What one kind of preparation asks for is in the plan.
proof fn lemma_plan_contains(config: ProcessConfig, captured: bool, op: Operation)
    requires
        limit_operations(config).contains(op) || root_operations(config).contains(op)
            || identity_operations(config).contains(op) || landlock_operations(config).contains(
            op,
        ),
    ensures
        child_plan(config, captured).contains(op),
{
    let l = limit_operations(config);
    let r = root_operations(config);
    let c = cwd_operations(config);
    let i = identity_operations(config);
    let a = landlock_operations(config);
    let f = filter_operations(config);
    lemma_concat_contains(l, r, op);
    lemma_concat_contains(l + r, c, op);
    lemma_concat_contains(l + r + c, i, op);
    lemma_concat_contains(l + r + c + i, a, op);
    lemma_concat_contains(l + r + c + i + a, f, op);
    lemma_concat_contains(redirections(), preparations(config), op);
}

/// What a process does before its program comes in a fixed order: the outputs,
/// resource limits, mounts, the change of the root, the change of the working
/// directory, the group, the user, file access, and last the system call filter.
pub proof fn preparations_are_ordered(config: ProcessConfig, captured: bool)
    ensures
        forall|i: int, j: int|
            0 <= i <= j < child_plan(config, captured).len() ==> rank(
                #[trigger] child_plan(config, captured)[i],
            ) <= rank(#[trigger] child_plan(config, captured)[j]),
        config.seccomp matches Some(filter) ==> child_plan(config, captured).len() > 0
            && child_plan(config, captured).last() == Operation::LoadFilter(filter),
        config.rlimits matches Some(limits) ==> child_plan(config, captured).contains(
            Operation::ApplyLimits(limits),
        ),
        config.chroot_dir matches Some(root) ==> child_plan(config, captured).contains(
            Operation::Chroot(root@),
        ),
        config.gid matches Some(gid) ==> child_plan(config, captured).contains(
            Operation::SetGid(gid),
        ),
        config.uid matches Some(uid) ==> child_plan(config, captured).contains(
            Operation::SetUid(uid),
        ),
        config.landlock matches Some(path) ==> child_plan(config, captured).contains(
            Operation::RestrictFiles(path@),
        ),
{
    lemma_plan_ordered(config, captured);
    if let Some(limits) = config.rlimits {
        assert(limit_operations(config)[0] == Operation::ApplyLimits(limits));
        lemma_plan_contains(config, captured, Operation::ApplyLimits(limits));
    }
    if let Some(root) = config.chroot_dir {
        let r = root_operations(config);
        assert(r[r.len() - 1] == Operation::Chroot(root@));
        lemma_plan_contains(config, captured, Operation::Chroot(root@));
    }
    let i = identity_operations(config);
    if let Some(gid) = config.gid {
        assert(i[0] == Operation::SetGid(gid));
        lemma_plan_contains(config, captured, Operation::SetGid(gid));
    }
    if let Some(uid) = config.uid {
        assert(i[i.len() - 1] == Operation::SetUid(uid));
        lemma_plan_contains(config, captured, Operation::SetUid(uid));
    }
    if let Some(path) = config.landlock {
        assert(landlock_operations(config)[0] == Operation::RestrictFiles(path@));
        lemma_plan_contains(config, captured, Operation::RestrictFiles(path@));
    }
}

/// A process with a system call filter comes to its program only after the
/// filter was loaded: loading it is the last thing before, and it did not fail.
pub proof fn filter_is_loaded_before_program(
    config: ProcessConfig,
    captured: bool,
    turns: Seq<ChildTurn>,
    events: Seq<ChildEvent>,
    k: int,
)
    requires
        config.seccomp is Some,
        child_run(turns, events),
        continues(launch_of(config), child_plan(config, captured), seq![], turns[0]),
        0 <= k < turns.len(),
        turns[k].step is Probe || turns[k].step is Exec,
    ensures
        ({
            let last = child_plan(config, captured).len() - 1;
            &&& 0 <= last < k
            &&& performed(turns, events, last, Operation::LoadFilter(config.seccomp->0))
        }),
{
    program_follows_preparations(config, captured, turns, events, k);
    preparations_are_ordered(config, captured);
    let plan = child_plan(config, captured);
    assert(prepared_at(plan, turns, events, plan.len() - 1));
}

/// In a run of a new process, the turn at place `i` performed an operation, and
/// it did not fail.
pub open spec fn performed(
    turns: Seq<ChildTurn>,
    events: Seq<ChildEvent>,
    i: int,
    op: Operation,
) -> bool {
    &&& turns[i].step matches ChildStep::Prepare(setup)
    &&& setup.action@ == op
    &&& events[i] == ChildEvent::Prepared(Outcome::Done)
}

/// A process that Landlock is to restrict comes to its program only after its
/// file access was restricted, and that did not fail.
pub proof fn files_are_restricted_before_program(
    config: ProcessConfig,
    captured: bool,
    turns: Seq<ChildTurn>,
    events: Seq<ChildEvent>,
    k: int,
)
    requires
        config.landlock is Some,
        child_run(turns, events),
        continues(launch_of(config), child_plan(config, captured), seq![], turns[0]),
        0 <= k < turns.len(),
        turns[k].step is Probe || turns[k].step is Exec,
    ensures
        exists|i: int|
            0 <= i < k && #[trigger] performed(
                turns,
                events,
                i,
                Operation::RestrictFiles(config.landlock->0@),
            ),
{
    program_follows_preparations(config, captured, turns, events, k);
    preparations_are_ordered(config, captured);
    let plan = child_plan(config, captured);
    let op = Operation::RestrictFiles(config.landlock->0@);
    let i = choose|i: int| 0 <= i < plan.len() && plan[i] == op;
    assert(prepared_at(plan, turns, events, i));
    assert(performed(turns, events, i, op));
}

/// A process ends with code 0 only where the kernel said that it executed the
/// program; after it ended it does nothing.
pub proof fn exit_codes(turns: Seq<ChildTurn>, events: Seq<ChildEvent>, k: int)
    requires
        child_run(turns, events),
        0 < k < turns.len(),
        turns[k].step is Exit,
    ensures
        k == turns.len() - 1,
        turns[k].step->Exit_0 == 0 || turns[k].step->Exit_0 == 1,
        turns[k].step->Exit_0 == 0 <==> turns[k - 1].step is Exec && events[k - 1]
            == ChildEvent::Returned(None),
{
    assert(follows(turns[k - 1], events[k - 1], turns[k]));
    if k < turns.len() - 1 {
        assert(follows(turns[k], events[k], turns[k + 1]));
    }
}

/// Every path that a search may still come to holds a slash.
spec fn search_is_pathwise(search: ProgramSearch) -> bool {
    &&& search.candidate@.contains('/')
    &&& forall|i: int|
        0 <= i < search.rest@.len() ==> (#[trigger] texts(search.rest@)[i]).contains('/')
}

/// Whatever a resolution comes to holds a slash.
spec fn resolution_is_pathwise(r: Resolution) -> bool {
    match r {
        Resolution::Resolved(path) => path@.contains('/'),
        Resolution::Probe(search) => search_is_pathwise(search),
        Resolution::NotFound(_) => true,
    }
}

proof fn lemma_searches_pathwise(r: Resolution, program: Seq<char>, paths: Seq<Seq<char>>)
    requires
        searches(r, program, paths),
        forall|i: int| 0 <= i < paths.len() ==> (#[trigger] paths[i]).contains('/'),
    ensures
        resolution_is_pathwise(r),
{
    if paths.len() > 0 {
        let search = r->Probe_0;
        assert forall|i: int| 0 <= i < search.rest@.len() implies (#[trigger] texts(
            search.rest@,
        )[i]).contains('/') by {
            assert(texts(search.rest@).len() == search.rest@.len());
            assert(texts(search.rest@)[i] == paths.drop_first()[i]);
            assert(paths.drop_first()[i] == paths[i + 1]);
        }
    }
}

/// A turn that belongs to `launch`, and whose paths hold a slash.
spec fn turn_is_sound(launch: ChildLaunch, t: ChildTurn) -> bool {
    match t.step {
        ChildStep::Prepare(setup) => setup.launch == launch,
        ChildStep::Probe(child) => child.launch == launch && search_is_pathwise(child.search),
        ChildStep::Exec(request) => executes(launch, request.program@, request)
            && request.program@.contains('/') && !request.program@.contains('\0'),
        ChildStep::Exit(_) => true,
    }
}

proof fn lemma_continues_sound(
    launch: ChildLaunch,
    plan: Seq<Operation>,
    lines: Seq<Seq<char>>,
    t: ChildTurn,
)
    requires
        continues(launch, plan, lines, t),
    ensures
        turn_is_sound(launch, t),
{
    if plan.len() == 0 {
        let env = vars(launch.env@);
        let r = choose|r: Resolution| #[trigger]
            resolution_starts(launch.program@, env, r) && launches(launch, lines, r, t);
        if !launch.program@.contains('/') {
            candidates_are_paths(launch.program@, env);
            lemma_searches_pathwise(r, launch.program@, candidates(launch.program@, env));
        }
    }
}

proof fn lemma_run_sound(
    launch: ChildLaunch,
    turns: Seq<ChildTurn>,
    events: Seq<ChildEvent>,
    k: int,
)
    requires
        child_run(turns, events),
        turn_is_sound(launch, turns[0]),
        0 <= k < turns.len(),
    ensures
        turn_is_sound(launch, turns[k]),
    decreases k,
{
    if k > 0 {
        lemma_run_sound(launch, turns, events, k - 1);
        assert(follows(turns[k - 1], events[k - 1], turns[k]));
        match turns[k - 1].step {
            ChildStep::Prepare(setup) => {
                let outcome = events[k - 1]->Prepared_0;
                if outcome is Done || tolerated(setup.action@) {
                    let rest = operations(setup.rest@);
                    assert(exists|after: Seq<Seq<char>>|
                        continues(launch, rest, after, turns[k]));
                    let after = choose|after: Seq<Seq<char>>|
                        continues(launch, rest, after, turns[k]);
                    lemma_continues_sound(launch, rest, after, turns[k]);
                }
            },
            ChildStep::Probe(child) => {
                let executable = events[k - 1]->Probed_0;
                let r = choose|r: Resolution| #[trigger]
                    probed_to(child.search, executable, r) && launches(
                        child.launch,
                        seq![],
                        r,
                        turns[k],
                    );
                if !executable {
                    lemma_searches_pathwise(
                        r,
                        child.search.program@,
                        texts(child.search.rest@),
                    );
                }
            },
            _ => {},
        }
    }
}

/// What a process asks the kernel to execute belongs to its configuration.
pub proof fn execution_is_that_of_the_configuration(
    config: ProcessConfig,
    captured: bool,
    turns: Seq<ChildTurn>,
    events: Seq<ChildEvent>,
    k: int,
)
    requires
        child_run(turns, events),
        continues(launch_of(config), child_plan(config, captured), seq![], turns[0]),
        0 <= k < turns.len(),
        turns[k].step is Exec,
    ensures
        executes(launch_of(config), turns[k].step->Exec_0.program@, turns[k].step->Exec_0),
{
    let launch = launch_of(config);
    lemma_continues_sound(launch, child_plan(config, captured), seq![], turns[0]);
    lemma_run_sound(launch, turns, events, k);
}

/// What a process asks the kernel to execute is a path, it belongs to the
/// configuration of the process, and none of its strings holds a NUL, so that
/// every one can be handed to the kernel.
pub proof fn execution_can_be_encoded(
    config: ProcessConfig,
    captured: bool,
    turns: Seq<ChildTurn>,
    events: Seq<ChildEvent>,
    k: int,
)
    requires
        encodable(config),
        child_run(turns, events),
        continues(launch_of(config), child_plan(config, captured), seq![], turns[0]),
        0 <= k < turns.len(),
        turns[k].step is Exec,
    ensures
        ({
            let request = turns[k].step->Exec_0;
            &&& executes(launch_of(config), request.program@, request)
            &&& request.program@.contains('/')
            &&& !request.program@.contains('\0')
            &&& forall|i: int|
                0 <= i < request.args@.len() ==> !(#[trigger] texts(request.args@)[i]).contains(
                    '\0',
                )
            &&& forall|i: int|
                0 <= i < request.env@.len() ==> !(#[trigger] texts(request.env@)[i]).contains('\0')
        }),
{
    let launch = launch_of(config);
    lemma_continues_sound(launch, child_plan(config, captured), seq![], turns[0]);
    lemma_run_sound(launch, turns, events, k);
    let request = turns[k].step->Exec_0;
    let path = request.program@;
    let tail = texts(launch.args@).map_values(|arg: Seq<char>| encodable_arg(arg));
    let env: Vars = vars(launch.env@);
    let assignments = env.map_values(|variable: (Seq<char>, Seq<char>)| assignment(variable));
    assert forall|i: int| 0 <= i < request.args@.len() implies !(#[trigger] texts(
        request.args@,
    )[i]).contains('\0') by {
        assert(texts(request.args@).len() == request.args@.len());
        if i > 0 {
            assert(texts(request.args@)[i] == tail[i - 1]);
            assert(tail[i - 1] == encodable_arg(texts(launch.args@)[i - 1]));
        } else {
            assert(texts(request.args@)[i] == path);
        }
    }
    assert forall|i: int| 0 <= i < request.env@.len() implies !(#[trigger] texts(
        request.env@,
    )[i]).contains('\0') by {
        assert(texts(request.env@).len() == request.env@.len());
        assert(texts(request.env@)[i] == assignment(env[i]));
        reveal_strlit("=");
        let whole = assignment(env[i]);
        if whole.contains('\0') {
            let at = choose|at: int| 0 <= at < whole.len() && whole[at] == '\0';
            let n = env[i].0.len();
            if at < n {
                assert(env[i].0[at] == '\0');
            } else if at > n {
                assert(env[i].1[at - n - 1] == '\0');
            }
            assert(false);
        }
    }
}

proof fn lemma_no_nul_concat(a: Seq<char>, b: Seq<char>)
    requires
        !a.contains('\0'),
        !b.contains('\0'),
    ensures
        !(a + b).contains('\0'),
{
    if (a + b).contains('\0') {
        let at = choose|at: int| 0 <= at < (a + b).len() && (a + b)[at] == '\0';
        if at < a.len() {
            assert(a[at] == '\0');
        } else {
            assert(b[at - a.len()] == '\0');
        }
    }
}

proof fn lemma_system_paths_encodable(i: int)
    requires
        0 <= i < system_paths().len(),
    ensures
        !system_paths()[i].contains('\0'),
{
    reveal_strlit("/usr");
    reveal_strlit("/lib");
    reveal_strlit("/lib64");
    reveal_strlit("/bin");
    reveal_strlit("/sbin");
    reveal_strlit("/etc");
    reveal_strlit("/dev");
    reveal_strlit("/proc");
    reveal_strlit("/sys");
    reveal_strlit("/tmp");
}

/// No string of the operation holds a NUL, if it is a mount.
pub open spec fn mount_is_encodable(op: Operation) -> bool {
    op matches Operation::BindMount(source, target) ==> !source.contains('\0')
        && !target.contains('\0')
}

proof fn lemma_mounts_encodable(root: Seq<char>, n: int)
    requires
        !root.contains('\0'),
        0 <= n <= system_paths().len(),
    ensures
        forall|i: int|
            0 <= i < mounts(root, system_paths().take(n)).len() ==> mount_is_encodable(
                #[trigger] mounts(root, system_paths().take(n))[i],
            ),
    decreases n,
{
    if n > 0 {
        let paths = system_paths().take(n);
        let path = system_paths()[n - 1];
        assert(paths.drop_last() =~= system_paths().take(n - 1));
        lemma_mounts_encodable(root, n - 1);
        lemma_system_paths_encodable(n - 1);
        lemma_no_nul_concat(root, path);
        let before = mounts(root, paths.drop_last());
        assert forall|i: int| 0 <= i < mounts(root, paths).len() implies mount_is_encodable(
            #[trigger] mounts(root, paths)[i],
        ) by {
            if i < before.len() {
                assert(mounts(root, paths)[i] == before[i]);
            } else {
                assert(mounts(root, paths)[i] == mount_pair(root, path)[i - before.len()]);
            }
        }
    }
}

/// No mount of these operations holds a NUL.
spec fn all_encodable(ops: Seq<Operation>) -> bool {
    forall|i: int| 0 <= i < ops.len() ==> mount_is_encodable(#[trigger] ops[i])
}

proof fn lemma_all_encodable_concat(a: Seq<Operation>, b: Seq<Operation>)
    requires
        all_encodable(a),
        all_encodable(b),
    ensures
        all_encodable(a + b),
{
    let c = a + b;
    assert forall|i: int| 0 <= i < c.len() implies mount_is_encodable(#[trigger] c[i]) by {
        if i < a.len() {
            assert(c[i] == a[i]);
        } else {
            assert(c[i] == b[i - a.len()]);
        }
    }
}

proof fn lemma_root_encodable(config: ProcessConfig)
    requires
        encodable(config),
    ensures
        all_encodable(root_operations(config)),
{
    if let Some(root) = config.chroot_dir {
        let n = system_paths().len() as int;
        let m = mounts(root@, system_paths());
        assert(system_paths().take(n) =~= system_paths());
        lemma_mounts_encodable(root@, n);
        assert(all_encodable(m));
        assert(all_encodable(seq![Operation::Chroot(root@)]));
        lemma_all_encodable_concat(m, seq![Operation::Chroot(root@)]);
        assert(root_operations(config) =~= m + seq![Operation::Chroot(root@)]);
    }
}

/// The mounts of a process can be handed to the kernel: no path of theirs
/// holds a NUL.
pub proof fn mounts_can_be_encoded(config: ProcessConfig)
    requires
        encodable(config),
    ensures
        forall|i: int|
            0 <= i < preparations(config).len() ==> mount_is_encodable(
                #[trigger] preparations(config)[i],
            ),
{
    let l = limit_operations(config);
    let r = root_operations(config);
    let c = cwd_operations(config);
    let i = identity_operations(config);
    let a = landlock_operations(config);
    let f = filter_operations(config);
    lemma_root_encodable(config);
    lemma_all_encodable_concat(l, r);
    lemma_all_encodable_concat(l + r, c);
    lemma_all_encodable_concat(l + r + c, i);
    lemma_all_encodable_concat(l + r + c + i, a);
    lemma_all_encodable_concat(l + r + c + i + a, f);
}

/// How many paths there are at which a program is looked for.
pub open spec fn candidate_count(launch: ChildLaunch) -> nat {
    candidates(launch.program@, vars(launch.env@)).len()
}

/// A bound on the turns of a process from `t` on.
spec fn turns_left(t: ChildTurn) -> nat {
    match t.step {
        ChildStep::Prepare(setup) => setup.rest@.len() + candidate_count(setup.launch) + 3,
        ChildStep::Probe(child) => child.search.rest@.len() + 3,
        ChildStep::Exec(_) => 2,
        ChildStep::Exit(_) => 1,
    }
}

proof fn lemma_search_left(r: Resolution, program: Seq<char>, paths: Seq<Seq<char>>)
    requires
        searches(r, program, paths),
    ensures
        r matches Resolution::Probe(search) ==> search.rest@.len() == paths.len() - 1,
{
    if paths.len() > 0 {
        assert(texts(r->Probe_0.rest@).len() == r->Probe_0.rest@.len());
    }
}

proof fn lemma_continues_left(
    launch: ChildLaunch,
    plan: Seq<Operation>,
    lines: Seq<Seq<char>>,
    t: ChildTurn,
)
    requires
        continues(launch, plan, lines, t),
    ensures
        turns_left(t) <= plan.len() + candidate_count(launch) + 2,
{
    if plan.len() == 0 {
        let env = vars(launch.env@);
        let r = choose|r: Resolution| #[trigger]
            resolution_starts(launch.program@, env, r) && launches(launch, lines, r, t);
        if !launch.program@.contains('/') {
            lemma_search_left(r, launch.program@, candidates(launch.program@, env));
        }
    } else {
        let setup = t.step->Prepare_0;
        assert(operations(setup.rest@).len() == setup.rest@.len());
    }
}

proof fn lemma_turns_decrease(a: ChildTurn, e: ChildEvent, b: ChildTurn)
    requires
        follows(a, e, b),
    ensures
        turns_left(b) < turns_left(a),
{
    match a.step {
        ChildStep::Prepare(setup) => {
            let outcome = e->Prepared_0;
            if outcome is Done || tolerated(setup.action@) {
                let rest = operations(setup.rest@);
                assert(exists|after: Seq<Seq<char>>| continues(setup.launch, rest, after, b));
                let after = choose|after: Seq<Seq<char>>| continues(setup.launch, rest, after, b);
                lemma_continues_left(setup.launch, rest, after, b);
            }
        },
        ChildStep::Probe(child) => {
            let executable = e->Probed_0;
            let r = choose|r: Resolution| #[trigger]
                probed_to(child.search, executable, r) && launches(child.launch, seq![], r, b);
            if !executable {
                lemma_search_left(r, child.search.program@, texts(child.search.rest@));
            }
        },
        _ => {},
    }
}

proof fn lemma_turns_bounded(turns: Seq<ChildTurn>, events: Seq<ChildEvent>)
    requires
        child_run(turns, events),
    ensures
        turns.len() <= turns_left(turns[0]),
    decreases turns.len(),
{
    if events.len() > 0 {
        lemma_tail_is_run(turns, events);
        lemma_turns_bounded(turns.drop_first(), events.drop_first());
        assert(follows(turns[0], events[0], turns[1]));
        lemma_turns_decrease(turns[0], events[0], turns[1]);
    }
}

/// Every run of a process ends: besides its preparations and one probe for each
/// candidate it has at most an execution and an exit.
pub proof fn child_runs_end(
    config: ProcessConfig,
    captured: bool,
    turns: Seq<ChildTurn>,
    events: Seq<ChildEvent>,
)
    requires
        child_run(turns, events),
        continues(launch_of(config), child_plan(config, captured), seq![], turns[0]),
    ensures
        turns.len() <= child_plan(config, captured).len() + candidate_count(launch_of(config)) + 2,
{
    lemma_continues_left(
        launch_of(config),
        child_plan(config, captured),
        seq![],
        turns[0],
    );
    lemma_turns_bounded(turns, events);
}

} // verus!
