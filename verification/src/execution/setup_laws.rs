//! What a new process does before its program, place by place.

use vstd::prelude::*;

use crate::execution::child::{
    child_plan, continues, cwd_operations, filter_operations, identity_operations,
    landlock_operations, launch_of, limit_operations, mount_pair, mounts, operations, preparations,
    redirections, root_operations, system_paths, tolerated, ChildLaunch, ChildStep, ChildTurn,
    Operation, Output, Preparation,
};
use crate::execution::child_laws::{child_run, follows, performed, ChildEvent};
use crate::execution::process::{ProcessConfig, ProcessExecutor};

verus! {

/// What is said of a preparation is what it holds, of whatever kind it is.
pub proof fn preparations_are_taken_as_they_are(p: Preparation)
    ensures
        p matches Preparation::Redirect(output) ==> p@ == Operation::Redirect(output),
        p matches Preparation::CloseSource(output) ==> p@ == Operation::CloseSource(output),
        p matches Preparation::ApplyLimits(limits) ==> p@ == Operation::ApplyLimits(limits),
        p matches Preparation::CreateDir(path) ==> p@ == Operation::CreateDir(path@),
        p matches Preparation::BindMount { source, target } ==> p@ == Operation::BindMount(
            source@,
            target@,
        ),
        p matches Preparation::Chroot(path) ==> p@ == Operation::Chroot(path@),
        p matches Preparation::Chdir(path) ==> p@ == Operation::Chdir(path@),
        p matches Preparation::SetGid(gid) ==> p@ == Operation::SetGid(gid),
        p matches Preparation::SetUid(uid) ==> p@ == Operation::SetUid(uid),
        p matches Preparation::RestrictFiles(path) ==> p@ == Operation::RestrictFiles(path@),
        p matches Preparation::LoadFilter(filter) ==> p@ == Operation::LoadFilter(filter),
{
}

/// One for a thing that is there, none for one that is not.
pub open spec fn one_for<T>(thing: Option<T>) -> int {
    if thing is Some {
        1
    } else {
        0
    }
}

/// The place after the operations on the outputs.
pub open spec fn after_outputs(captured: bool) -> int {
    if captured {
        4
    } else {
        0
    }
}

/// The place after the resource limits.
pub open spec fn after_limits(config: ProcessConfig, captured: bool) -> int {
    after_outputs(captured) + one_for(config.rlimits)
}

/// The place after the change of the root.
pub open spec fn after_root(config: ProcessConfig, captured: bool) -> int {
    after_limits(config, captured) + one_for(config.chroot_dir) * 21
}

/// The place after the change of the group.
pub open spec fn after_group(config: ProcessConfig, captured: bool) -> int {
    after_root(config, captured) + 1 + one_for(config.gid)
}

/// The place after the change of the user.
pub open spec fn after_user(config: ProcessConfig, captured: bool) -> int {
    after_group(config, captured) + one_for(config.uid)
}

/// The place after the restriction of file access.
pub open spec fn after_landlock(config: ProcessConfig, captured: bool) -> int {
    after_user(config, captured) + one_for(config.landlock)
}

/// The place after all preparations.
pub open spec fn after_filter(config: ProcessConfig, captured: bool) -> int {
    after_landlock(config, captured) + one_for(config.seccomp)
}

/// The host path that is mounted at the given place among the mounts.
pub open spec fn visible_path(n: int) -> Seq<char> {
    if n == 0 {
        "/usr"@
    } else if n == 1 {
        "/lib"@
    } else if n == 2 {
        "/lib64"@
    } else if n == 3 {
        "/bin"@
    } else if n == 4 {
        "/sbin"@
    } else if n == 5 {
        "/etc"@
    } else if n == 6 {
        "/dev"@
    } else if n == 7 {
        "/proc"@
    } else if n == 8 {
        "/sys"@
    } else {
        "/tmp"@
    }
}

proof fn lemma_mounts_at(root: Seq<char>, n: int)
    requires
        0 <= n <= system_paths().len(),
    ensures
        mounts(root, system_paths().take(n)).len() == 2 * n,
        forall|i: int|
            #![trigger system_paths()[i]]
            0 <= i < n ==> mounts(root, system_paths().take(n))[2 * i] == Operation::CreateDir(
                root + system_paths()[i],
            ) && mounts(root, system_paths().take(n))[2 * i + 1] == Operation::BindMount(
                system_paths()[i],
                root + system_paths()[i],
            ),
    decreases n,
{
    if n > 0 {
        let paths = system_paths().take(n);
        assert(paths.drop_last() =~= system_paths().take(n - 1));
        assert(paths.last() == system_paths()[n - 1]);
        lemma_mounts_at(root, n - 1);
        let before = mounts(root, system_paths().take(n - 1));
        let pair = mount_pair(root, system_paths()[n - 1]);
        let all = mounts(root, paths);
        assert(all == before + pair);
        assert forall|i: int| #![trigger system_paths()[i]] 0 <= i < n implies all[2 * i]
            == Operation::CreateDir(root + system_paths()[i]) && all[2 * i + 1]
            == Operation::BindMount(system_paths()[i], root + system_paths()[i]) by {
            if i < n - 1 {
                assert(all[2 * i] == before[2 * i]);
                assert(all[2 * i + 1] == before[2 * i + 1]);
            } else {
                assert(all[2 * i] == pair[0]);
                assert(all[2 * i + 1] == pair[1]);
            }
        }
    }
}

proof fn lemma_root_places(config: ProcessConfig)
    ensures
        root_operations(config).len() == one_for(config.chroot_dir) * 21,
        config.chroot_dir matches Some(root) ==> root_operations(config)[20] == Operation::Chroot(
            root@,
        ),
        config.chroot_dir matches Some(root) ==> forall|n: int|
            #![trigger visible_path(n)]
            0 <= n < 10 ==> root_operations(config)[2 * n] == Operation::CreateDir(
                root@ + visible_path(n),
            ) && root_operations(config)[2 * n + 1] == Operation::BindMount(
                visible_path(n),
                root@ + visible_path(n),
            ),
        forall|i: int|
            0 <= i < root_operations(config).len() ==> (#[trigger] root_operations(config)[i]
                is CreateDir || root_operations(config)[i] is BindMount || root_operations(
                config,
            )[i] is Chroot),
{
    if let Some(root) = config.chroot_dir {
        let ops = root_operations(config);
        let m = mounts(root@, system_paths());
        assert(system_paths().take(10) =~= system_paths());
        lemma_mounts_at(root@, 10);
        assert forall|n: int| #![trigger visible_path(n)] 0 <= n < 10 implies ops[2 * n]
            == Operation::CreateDir(root@ + visible_path(n)) && ops[2 * n + 1]
            == Operation::BindMount(visible_path(n), root@ + visible_path(n)) by {
            assert(system_paths()[n] == visible_path(n));
            assert(ops[2 * n] == m[2 * n]);
            assert(ops[2 * n + 1] == m[2 * n + 1]);
        }
        assert forall|i: int| 0 <= i < ops.len() implies (#[trigger] ops[i] is CreateDir
            || ops[i] is BindMount || ops[i] is Chroot) by {
            if i < 20 {
                let n = i / 2;
                assert(visible_path(n) == system_paths()[n]);
                assert(i == 2 * n || i == 2 * n + 1);
            }
        }
    }
}

/// The operation at a place of two sequences in a row is that of the first or
/// of the second.
proof fn lemma_at(a: Seq<Operation>, b: Seq<Operation>)
    ensures
        (a + b).len() == a.len() + b.len(),
        forall|i: int| 0 <= i < a.len() ==> #[trigger] (a + b)[i] == a[i],
        forall|i: int| 0 <= i < b.len() ==> (a + b)[a.len() + i] == #[trigger] b[i],
        forall|i: int| a.len() <= i < a.len() + b.len() ==> #[trigger] (a + b)[i] == b[i
            - a.len()],
{
}

/// The first part of a plan: the outputs, the limits and the root.
spec fn front(config: ProcessConfig, captured: bool) -> Seq<Operation> {
    let outputs = if captured {
        redirections()
    } else {
        Seq::<Operation>::empty()
    };
    outputs + limit_operations(config) + root_operations(config)
}

/// The rest of a plan after the change of the working directory.
spec fn back(config: ProcessConfig) -> Seq<Operation> {
    identity_operations(config) + landlock_operations(config) + filter_operations(config)
}

proof fn lemma_front(config: ProcessConfig, captured: bool)
    ensures
        front(config, captured).len() == after_root(config, captured),
        captured ==> front(config, captured)[0] == Operation::Redirect(Output::Stdout) && front(
            config,
            captured,
        )[1] == Operation::Redirect(Output::Stderr) && front(config, captured)[2]
            == Operation::CloseSource(Output::Stdout) && front(config, captured)[3]
            == Operation::CloseSource(Output::Stderr),
        config.rlimits matches Some(limits) ==> front(config, captured)[after_outputs(captured)]
            == Operation::ApplyLimits(limits),
        forall|i: int|
            0 <= i < root_operations(config).len() ==> front(config, captured)[after_limits(
                config,
                captured,
            ) + i] == #[trigger] root_operations(config)[i],
        forall|i: int|
            0 <= i < front(config, captured).len() ==> !(#[trigger] front(config, captured)[i]
                is Chdir) && !(front(config, captured)[i] is SetGid) && !(front(
                config,
                captured,
            )[i] is SetUid) && !(front(config, captured)[i] is RestrictFiles) && !(front(
                config,
                captured,
            )[i] is LoadFilter),
{
    let outputs = if captured {
        redirections()
    } else {
        Seq::<Operation>::empty()
    };
    let l = limit_operations(config);
    let r = root_operations(config);
    lemma_root_places(config);
    lemma_at(outputs, l);
    lemma_at(outputs + l, r);
    let all = front(config, captured);
    assert forall|i: int| 0 <= i < r.len() implies all[after_limits(config, captured) + i]
        == #[trigger] r[i] by {
        assert(all[(outputs + l).len() + i] == r[i]);
    }
    assert forall|i: int| 0 <= i < all.len() implies !(#[trigger] all[i] is Chdir) && !(all[i]
        is SetGid) && !(all[i] is SetUid) && !(all[i] is RestrictFiles) && !(all[i]
        is LoadFilter) by {
        if i < outputs.len() {
            assert(all[i] == (outputs + l)[i]);
            assert((outputs + l)[i] == outputs[i]);
        } else if i < outputs.len() + l.len() {
            assert(all[i] == (outputs + l)[i]);
            assert((outputs + l)[i] == l[i - outputs.len()]);
        } else {
            assert(all[i] == r[i - (outputs + l).len()]);
        }
    }
}

proof fn lemma_back(config: ProcessConfig)
    ensures
        back(config).len() == one_for(config.gid) + one_for(config.uid) + one_for(config.landlock)
            + one_for(config.seccomp),
        config.gid matches Some(gid) ==> back(config)[0] == Operation::SetGid(gid),
        config.uid matches Some(uid) ==> back(config)[one_for(config.gid)] == Operation::SetUid(uid),
        config.landlock matches Some(path) ==> back(config)[one_for(config.gid) + one_for(
            config.uid,
        )] == Operation::RestrictFiles(path@),
        config.seccomp matches Some(filter) ==> back(config)[one_for(config.gid) + one_for(
            config.uid,
        ) + one_for(config.landlock)] == Operation::LoadFilter(filter),
        forall|i: int| 0 <= i < back(config).len() ==> !(#[trigger] back(config)[i] is Chdir),
{
    let i = identity_operations(config);
    let a = landlock_operations(config);
    let f = filter_operations(config);
    assert(i.len() == one_for(config.gid) + one_for(config.uid));
    lemma_at(i, a);
    lemma_at(i + a, f);
}

/// A plan is the front, one change of the working directory, and the back.
proof fn lemma_plan_parts(config: ProcessConfig, captured: bool)
    ensures
        child_plan(config, captured) == front(config, captured) + cwd_operations(config) + back(
            config,
        ),
{
    let l = limit_operations(config);
    let r = root_operations(config);
    let c = cwd_operations(config);
    let i = identity_operations(config);
    let a = landlock_operations(config);
    let f = filter_operations(config);
    assert(preparations(config) =~= l + r + c + (i + a + f));
    if captured {
        let o = redirections();
        assert(o + (l + r + c + (i + a + f)) =~= o + l + r + c + (i + a + f));
    } else {
        let o = Seq::<Operation>::empty();
        assert(l + r + c + (i + a + f) =~= o + l + r + c + (i + a + f));
    }
}

/// The places of a plan before the change of the working directory are those of
/// its front, and the places after it those of its back.
proof fn lemma_plan_is_parts(config: ProcessConfig, captured: bool)
    ensures
        child_plan(config, captured).len() == after_filter(config, captured),
        forall|i: int|
            0 <= i < after_root(config, captured) ==> #[trigger] child_plan(config, captured)[i]
                == front(config, captured)[i],
        child_plan(config, captured)[after_root(config, captured)] == cwd_operations(config)[0],
        forall|i: int|
            after_root(config, captured) < i < after_filter(config, captured)
                ==> #[trigger] child_plan(config, captured)[i] == back(config)[i - after_root(
                config,
                captured,
            ) - 1],
{
    let a = front(config, captured);
    let c = cwd_operations(config);
    let b = back(config);
    lemma_plan_parts(config, captured);
    lemma_front(config, captured);
    lemma_back(config);
    assert(c.len() == 1);
    assert(child_plan(config, captured) == a + c + b);
}

proof fn lemma_root_in_plan(config: ProcessConfig, captured: bool, n: int)
    requires
        config.chroot_dir is Some,
        0 <= n < 10,
    ensures
        after_limits(config, captured) + 20 < after_root(config, captured),
        child_plan(config, captured)[after_limits(config, captured) + 20] == Operation::Chroot(
            config.chroot_dir->0@,
        ),
        child_plan(config, captured)[after_limits(config, captured) + 2 * n]
            == Operation::CreateDir(config.chroot_dir->0@ + visible_path(n)),
        child_plan(config, captured)[after_limits(config, captured) + 2 * n + 1]
            == Operation::BindMount(visible_path(n), config.chroot_dir->0@ + visible_path(n)),
{
    let a = front(config, captured);
    let r = root_operations(config);
    let at = after_limits(config, captured);
    lemma_plan_is_parts(config, captured);
    lemma_front(config, captured);
    lemma_root_places(config);
    assert(visible_path(n) == visible_path(n));
    assert(a[at + 20] == r[20]);
    assert(a[at + 2 * n] == r[2 * n]);
    assert(a[at + (2 * n + 1)] == r[2 * n + 1]);
}

proof fn lemma_back_in_plan(config: ProcessConfig, captured: bool)
    ensures
        config.gid matches Some(gid) ==> child_plan(config, captured)[after_group(config, captured)
            - 1] == Operation::SetGid(gid),
        config.uid matches Some(uid) ==> child_plan(config, captured)[after_user(config, captured)
            - 1] == Operation::SetUid(uid),
        config.landlock matches Some(path) ==> child_plan(config, captured)[after_landlock(
            config,
            captured,
        ) - 1] == Operation::RestrictFiles(path@),
        config.seccomp matches Some(filter) ==> child_plan(config, captured)[after_filter(
            config,
            captured,
        ) - 1] == Operation::LoadFilter(filter),
{
    lemma_plan_is_parts(config, captured);
    lemma_back(config);
}

proof fn lemma_front_in_plan(config: ProcessConfig, captured: bool)
    ensures
        captured ==> child_plan(config, captured)[0] == Operation::Redirect(Output::Stdout)
            && child_plan(config, captured)[1] == Operation::Redirect(Output::Stderr)
            && child_plan(config, captured)[2] == Operation::CloseSource(Output::Stdout)
            && child_plan(config, captured)[3] == Operation::CloseSource(Output::Stderr),
        config.rlimits matches Some(limits) ==> child_plan(config, captured)[after_outputs(
            captured,
        )] == Operation::ApplyLimits(limits),
{
    lemma_plan_is_parts(config, captured);
    lemma_front(config, captured);
}

proof fn lemma_one_chdir(config: ProcessConfig, captured: bool)
    ensures
        forall|i: int|
            0 <= i < child_plan(config, captured).len() && #[trigger] child_plan(
                config,
                captured,
            )[i] is Chdir ==> i == after_root(config, captured),
{
    lemma_plan_is_parts(config, captured);
    lemma_front(config, captured);
    lemma_back(config);
}

/// Each preparation that a configuration asks for has its place in the plan,
/// with what the configuration says of it, and there is nothing else: the two
/// outputs if they are captured; the limits; ten host paths made visible under
/// the new root, and the change to it; one change of the working directory, to
/// the one of the configuration or to the top of whatever the root is; group,
/// user, file access and filter.
pub proof fn preparations_have_their_places(config: ProcessConfig, captured: bool)
    ensures
        ({
            let plan = child_plan(config, captured);
            &&& plan.len() == after_filter(config, captured)
            &&& captured ==> plan[0] == Operation::Redirect(Output::Stdout) && plan[1]
                == Operation::Redirect(Output::Stderr) && plan[2] == Operation::CloseSource(
                Output::Stdout,
            ) && plan[3] == Operation::CloseSource(Output::Stderr)
            &&& config.rlimits matches Some(limits) ==> plan[after_outputs(captured)]
                == Operation::ApplyLimits(limits)
            &&& config.chroot_dir matches Some(root) ==> plan[after_limits(config, captured) + 20]
                == Operation::Chroot(root@) && forall|n: int|
                #![trigger visible_path(n)]
                0 <= n < 10 ==> plan[after_limits(config, captured) + 2 * n]
                    == Operation::CreateDir(root@ + visible_path(n)) && plan[after_limits(
                    config,
                    captured,
                ) + 2 * n + 1] == Operation::BindMount(
                    visible_path(n),
                    root@ + visible_path(n),
                )
            &&& config.cwd matches Some(cwd) ==> plan[after_root(config, captured)]
                == Operation::Chdir(cwd@)
            &&& config.cwd is None ==> plan[after_root(config, captured)] == Operation::Chdir("/"@)
            &&& config.gid matches Some(gid) ==> plan[after_group(config, captured) - 1]
                == Operation::SetGid(gid)
            &&& config.uid matches Some(uid) ==> plan[after_user(config, captured) - 1]
                == Operation::SetUid(uid)
            &&& config.landlock matches Some(path) ==> plan[after_landlock(config, captured) - 1]
                == Operation::RestrictFiles(path@)
            &&& config.seccomp matches Some(filter) ==> plan[after_filter(config, captured) - 1]
                == Operation::LoadFilter(filter)
            &&& forall|i: int|
                0 <= i < plan.len() && #[trigger] plan[i] is Chdir ==> i == after_root(
                    config,
                    captured,
                )
        }),
{
    let plan = child_plan(config, captured);
    lemma_plan_is_parts(config, captured);
    lemma_front_in_plan(config, captured);
    lemma_back_in_plan(config, captured);
    lemma_one_chdir(config, captured);
    if let Some(root) = config.chroot_dir {
        let at = after_limits(config, captured);
        lemma_root_in_plan(config, captured, 0);
        assert forall|n: int| #![trigger visible_path(n)] 0 <= n < 10 implies plan[at + 2 * n]
            == Operation::CreateDir(root@ + visible_path(n)) && plan[at + 2 * n + 1]
            == Operation::BindMount(visible_path(n), root@ + visible_path(n)) by {
            lemma_root_in_plan(config, captured, n);
        }
    }
}

/// The setup of a process begins, with captured outputs or without.
pub open spec fn setup_begins(config: ProcessConfig, captured: bool, t: ChildTurn) -> bool {
    if captured {
        call_ensures(ProcessExecutor::child_setup_with_pipes, (config,), t)
    } else {
        call_ensures(ProcessExecutor::child_setup, (config,), t)
    }
}

/// In a run that comes to its program, each place of the plan is followed by
/// the rest of it.
pub proof fn lemma_plan_at(
    launch: ChildLaunch,
    plan: Seq<Operation>,
    turns: Seq<ChildTurn>,
    events: Seq<ChildEvent>,
    i: int,
    k: int,
) -> (lines: Seq<Seq<char>>)
    requires
        child_run(turns, events),
        continues(launch, plan, seq![], turns[0]),
        0 <= k < turns.len(),
        turns[k].step is Probe || turns[k].step is Exec,
        0 <= i <= plan.len(),
    ensures
        i <= k,
        continues(launch, plan.skip(i), lines, turns[i]),
        i > 0 ==> {
            &&& turns[i - 1].step matches ChildStep::Prepare(setup)
            &&& setup.action@ == plan[i - 1]
            &&& events[i - 1] matches ChildEvent::Prepared(outcome)
            &&& outcome is Done || tolerated(plan[i - 1])
        },
    decreases i,
{
    if i == 0 {
        assert(plan.skip(0) =~= plan);
        seq![]
    } else {
        let before = lemma_plan_at(launch, plan, turns, events, i - 1, k);
        let rest = plan.skip(i - 1);
        assert(rest[0] == plan[i - 1]);
        assert(rest.drop_first() =~= plan.skip(i));
        let setup = turns[i - 1].step->Prepare_0;
        assert(i - 1 < k);
        assert(follows(turns[i - 1], events[i - 1], turns[i]));
        let outcome = events[i - 1]->Prepared_0;
        if !(outcome is Done || tolerated(setup.action@)) {
            assert(turns[i].step == ChildStep::Exit(1));
            if k > i {
                assert(follows(turns[i], events[i], turns[i + 1]));
            }
            assert(false);
        }
        assert(exists|after: Seq<Seq<char>>|
            continues(launch, operations(setup.rest@), after, turns[i]));
        choose|after: Seq<Seq<char>>| continues(launch, plan.skip(i), after, turns[i])
    }
}

proof fn lemma_performed_at(
    launch: ChildLaunch,
    plan: Seq<Operation>,
    turns: Seq<ChildTurn>,
    events: Seq<ChildEvent>,
    i: int,
    k: int,
)
    requires
        child_run(turns, events),
        continues(launch, plan, seq![], turns[0]),
        0 <= k < turns.len(),
        turns[k].step is Probe || turns[k].step is Exec,
        0 <= i < plan.len(),
        !(plan[i] is CloseSource || plan[i] is CreateDir || plan[i] is BindMount),
    ensures
        i < k,
        performed(turns, events, i, plan[i]),
{
    let _ = lemma_plan_at(launch, plan, turns, events, i + 1, k);
}

/// In a run of a new process, the turn at place `i` tried an operation.
pub open spec fn tried(turns: Seq<ChildTurn>, i: int, op: Operation) -> bool {
    turns[i].step matches ChildStep::Prepare(setup) && setup.action@ == op
}

/// Whether an operation must not fail.
spec fn must_succeed(op: Operation) -> bool {
    !(op is CloseSource || op is CreateDir || op is BindMount)
}

/// Every operation of a plan that must not fail was performed, in its place.
spec fn all_performed(
    plan: Seq<Operation>,
    turns: Seq<ChildTurn>,
    events: Seq<ChildEvent>,
) -> bool {
    forall|i: int|
        0 <= i < plan.len() && must_succeed(#[trigger] plan[i]) ==> performed(
            turns,
            events,
            i,
            plan[i],
        )
}

proof fn lemma_all_performed(
    config: ProcessConfig,
    captured: bool,
    turns: Seq<ChildTurn>,
    events: Seq<ChildEvent>,
    k: int,
)
    requires
        setup_begins(config, captured, turns[0]),
        child_run(turns, events),
        0 <= k < turns.len(),
        turns[k].step is Probe || turns[k].step is Exec,
    ensures
        k >= child_plan(config, captured).len(),
        all_performed(child_plan(config, captured), turns, events),
{
    let plan = child_plan(config, captured);
    let launch = launch_of(config);
    let _ = lemma_plan_at(launch, plan, turns, events, plan.len() as int, k);
    assert forall|i: int| 0 <= i < plan.len() && must_succeed(#[trigger] plan[i]) implies performed(
        turns,
        events,
        i,
        plan[i],
    ) by {
        lemma_performed_at(launch, plan, turns, events, i, k);
    }
}

proof fn lemma_places_are_performed(
    config: ProcessConfig,
    captured: bool,
    turns: Seq<ChildTurn>,
    events: Seq<ChildEvent>,
)
    requires
        all_performed(child_plan(config, captured), turns, events),
    ensures
        captured ==> performed(turns, events, 0, Operation::Redirect(Output::Stdout)),
        captured ==> performed(turns, events, 1, Operation::Redirect(Output::Stderr)),
        config.rlimits matches Some(limits) ==> performed(
            turns,
            events,
            after_outputs(captured),
            Operation::ApplyLimits(limits),
        ),
        config.chroot_dir matches Some(root) ==> performed(
            turns,
            events,
            after_limits(config, captured) + 20,
            Operation::Chroot(root@),
        ),
        config.gid matches Some(gid) ==> performed(
            turns,
            events,
            after_group(config, captured) - 1,
            Operation::SetGid(gid),
        ),
        config.uid matches Some(uid) ==> performed(
            turns,
            events,
            after_user(config, captured) - 1,
            Operation::SetUid(uid),
        ),
        config.landlock matches Some(path) ==> performed(
            turns,
            events,
            after_landlock(config, captured) - 1,
            Operation::RestrictFiles(path@),
        ),
        config.seccomp matches Some(filter) ==> performed(
            turns,
            events,
            after_filter(config, captured) - 1,
            Operation::LoadFilter(filter),
        ),
{
    preparations_have_their_places(config, captured);
}

/// A process comes to look for its program, or to execute it, only after the
/// kernel did what its configuration asks for: limits, root, group, user, file
/// access and filter, each as the configuration says.
pub proof fn program_needs_every_preparation(
    config: ProcessConfig,
    captured: bool,
    turns: Seq<ChildTurn>,
    events: Seq<ChildEvent>,
    k: int,
)
    requires
        setup_begins(config, captured, turns[0]),
        child_run(turns, events),
        0 <= k < turns.len(),
        turns[k].step is Probe || turns[k].step is Exec,
    ensures
        k >= after_filter(config, captured),
        captured ==> performed(turns, events, 0, Operation::Redirect(Output::Stdout)),
        captured ==> performed(turns, events, 1, Operation::Redirect(Output::Stderr)),
        config.rlimits matches Some(limits) ==> performed(
            turns,
            events,
            after_outputs(captured),
            Operation::ApplyLimits(limits),
        ),
        config.chroot_dir matches Some(root) ==> performed(
            turns,
            events,
            after_limits(config, captured) + 20,
            Operation::Chroot(root@),
        ),
        config.gid matches Some(gid) ==> performed(
            turns,
            events,
            after_group(config, captured) - 1,
            Operation::SetGid(gid),
        ),
        config.uid matches Some(uid) ==> performed(
            turns,
            events,
            after_user(config, captured) - 1,
            Operation::SetUid(uid),
        ),
        config.landlock matches Some(path) ==> performed(
            turns,
            events,
            after_landlock(config, captured) - 1,
            Operation::RestrictFiles(path@),
        ),
        config.seccomp matches Some(filter) ==> performed(
            turns,
            events,
            after_filter(config, captured) - 1,
            Operation::LoadFilter(filter),
        ),
{
    preparations_have_their_places(config, captured);
    lemma_all_performed(config, captured, turns, events, k);
    lemma_places_are_performed(config, captured, turns, events);
}

/// A process changes its working directory once before its program: to the one
/// of its configuration, and without one to the top of the root that it has
/// then, whatever that root was called before.
pub proof fn program_starts_in_its_directory(
    config: ProcessConfig,
    captured: bool,
    turns: Seq<ChildTurn>,
    events: Seq<ChildEvent>,
    k: int,
)
    requires
        setup_begins(config, captured, turns[0]),
        child_run(turns, events),
        0 <= k < turns.len(),
        turns[k].step is Probe || turns[k].step is Exec,
    ensures
        after_root(config, captured) < k,
        config.cwd matches Some(cwd) ==> performed(
            turns,
            events,
            after_root(config, captured),
            Operation::Chdir(cwd@),
        ),
        config.cwd is None ==> performed(
            turns,
            events,
            after_root(config, captured),
            Operation::Chdir("/"@),
        ),
        forall|i: int|
            0 <= i <= k && (#[trigger] turns[i].step matches ChildStep::Prepare(setup)
                && setup.action is Chdir) ==> i == after_root(config, captured),
{
    lemma_cwd_in_plan(config, captured);
    lemma_all_performed(config, captured, turns, events, k);
    assert(must_succeed(child_plan(config, captured)[after_root(config, captured)]));
    assert forall|i: int|
        0 <= i <= k && (#[trigger] turns[i].step matches ChildStep::Prepare(setup)
            && setup.action is Chdir) implies i == after_root(config, captured) by {
        lemma_chdir_is_there(config, captured, turns, events, i, k);
    }
}

proof fn lemma_cwd_in_plan(config: ProcessConfig, captured: bool)
    ensures
        after_root(config, captured) < child_plan(config, captured).len(),
        0 <= after_root(config, captured),
        config.cwd matches Some(cwd) ==> child_plan(config, captured)[after_root(config, captured)]
            == Operation::Chdir(cwd@),
        config.cwd is None ==> child_plan(config, captured)[after_root(config, captured)]
            == Operation::Chdir("/"@),
{
    lemma_plan_is_parts(config, captured);
}

proof fn lemma_chdir_is_there(
    config: ProcessConfig,
    captured: bool,
    turns: Seq<ChildTurn>,
    events: Seq<ChildEvent>,
    i: int,
    k: int,
)
    requires
        setup_begins(config, captured, turns[0]),
        child_run(turns, events),
        0 <= i <= k < turns.len(),
        turns[k].step is Probe || turns[k].step is Exec,
        turns[i].step matches ChildStep::Prepare(setup) && setup.action is Chdir,
    ensures
        i == after_root(config, captured),
{
    if i < child_plan(config, captured).len() {
        lemma_tried_at(config, captured, turns, events, i, k);
        lemma_one_chdir(config, captured);
    } else {
        lemma_prepared_no_more(config, captured, turns, events, i, k);
    }
}

/// After the last place of the plan nothing is prepared any more.
proof fn lemma_prepared_no_more(
    config: ProcessConfig,
    captured: bool,
    turns: Seq<ChildTurn>,
    events: Seq<ChildEvent>,
    i: int,
    k: int,
)
    requires
        setup_begins(config, captured, turns[0]),
        child_run(turns, events),
        0 <= k < turns.len(),
        turns[k].step is Probe || turns[k].step is Exec,
        child_plan(config, captured).len() <= i <= k,
    ensures
        !(turns[i].step is Prepare),
    decreases i,
{
    let plan = child_plan(config, captured);
    if i == plan.len() {
        let lines = lemma_plan_at(launch_of(config), plan, turns, events, i, k);
        assert(plan.skip(i).len() == 0);
    } else {
        lemma_prepared_no_more(config, captured, turns, events, i - 1, k);
        assert(follows(turns[i - 1], events[i - 1], turns[i]));
    }
}

/// Under a new root ten host paths are made visible before the change to it:
/// for each, its directory under the root is created, and then it is mounted
/// there.
pub proof fn host_paths_are_made_visible(
    config: ProcessConfig,
    captured: bool,
    turns: Seq<ChildTurn>,
    events: Seq<ChildEvent>,
    k: int,
    n: int,
)
    requires
        setup_begins(config, captured, turns[0]),
        child_run(turns, events),
        0 <= k < turns.len(),
        turns[k].step is Probe || turns[k].step is Exec,
        config.chroot_dir is Some,
        0 <= n < 10,
    ensures
        tried(
            turns,
            after_limits(config, captured) + 2 * n,
            Operation::CreateDir(config.chroot_dir->0@ + visible_path(n)),
        ),
        tried(
            turns,
            after_limits(config, captured) + 2 * n + 1,
            Operation::BindMount(visible_path(n), config.chroot_dir->0@ + visible_path(n)),
        ),
{
    let at = after_limits(config, captured) + 2 * n;
    lemma_root_in_plan(config, captured, n);
    lemma_plan_is_parts(config, captured);
    lemma_tried_at(config, captured, turns, events, at, k);
    lemma_tried_at(config, captured, turns, events, at + 1, k);
}

proof fn lemma_tried_at(
    config: ProcessConfig,
    captured: bool,
    turns: Seq<ChildTurn>,
    events: Seq<ChildEvent>,
    i: int,
    k: int,
)
    requires
        setup_begins(config, captured, turns[0]),
        child_run(turns, events),
        0 <= k < turns.len(),
        turns[k].step is Probe || turns[k].step is Exec,
        0 <= i < child_plan(config, captured).len(),
    ensures
        tried(turns, i, child_plan(config, captured)[i]),
{
    let _ = lemma_plan_at(
        launch_of(config),
        child_plan(config, captured),
        turns,
        events,
        i + 1,
        k,
    );
}

/// A process does nothing before its program that its configuration does not
/// ask for: without limits, a root, a group, a user, a directory for Landlock
/// or a filter there is no such step, and outputs are touched only if they are
/// captured.
pub proof fn nothing_else_is_prepared(
    config: ProcessConfig,
    captured: bool,
    turns: Seq<ChildTurn>,
    events: Seq<ChildEvent>,
    k: int,
    i: int,
)
    requires
        setup_begins(config, captured, turns[0]),
        child_run(turns, events),
        0 <= i <= k < turns.len(),
        turns[k].step is Probe || turns[k].step is Exec,
        turns[i].step is Prepare,
    ensures
        i < after_filter(config, captured),
        ({
            let action = turns[i].step->Prepare_0.action@;
            &&& action is Redirect || action is CloseSource ==> captured
            &&& action is ApplyLimits ==> config.rlimits is Some
            &&& action is CreateDir || action is BindMount || action is Chroot
                ==> config.chroot_dir is Some
            &&& action is SetGid ==> config.gid is Some
            &&& action is SetUid ==> config.uid is Some
            &&& action is RestrictFiles ==> config.landlock is Some
            &&& action is LoadFilter ==> config.seccomp is Some
        }),
{
    let plan = child_plan(config, captured);
    preparations_have_their_places(config, captured);
    if i >= plan.len() {
        lemma_prepared_no_more(config, captured, turns, events, i, k);
    }
    let _ = lemma_plan_at(launch_of(config), plan, turns, events, i + 1, k);
    lemma_kinds(config, captured, i);
}

proof fn lemma_kinds(config: ProcessConfig, captured: bool, i: int)
    requires
        0 <= i < child_plan(config, captured).len(),
    ensures
        ({
            let action = child_plan(config, captured)[i];
            &&& action is Redirect || action is CloseSource ==> captured
            &&& action is ApplyLimits ==> config.rlimits is Some
            &&& action is CreateDir || action is BindMount || action is Chroot
                ==> config.chroot_dir is Some
            &&& action is SetGid ==> config.gid is Some
            &&& action is SetUid ==> config.uid is Some
            &&& action is RestrictFiles ==> config.landlock is Some
            &&& action is LoadFilter ==> config.seccomp is Some
        }),
{
    lemma_plan_is_parts(config, captured);
    lemma_part_lengths(config, captured);
    let at = after_root(config, captured);
    if i < at {
        lemma_front_kinds(config, captured, i);
    } else if i > at {
        lemma_back_kinds(config, i - at - 1);
    }
}

proof fn lemma_part_lengths(config: ProcessConfig, captured: bool)
    ensures
        front(config, captured).len() == after_root(config, captured),
        back(config).len() == after_filter(config, captured) - after_root(config, captured) - 1,
{
    lemma_front(config, captured);
    lemma_back(config);
}

proof fn lemma_front_kinds(config: ProcessConfig, captured: bool, i: int)
    requires
        0 <= i < front(config, captured).len(),
    ensures
        ({
            let action = front(config, captured)[i];
            &&& !(action is SetGid || action is SetUid || action is RestrictFiles
                || action is LoadFilter)
            &&& action is Redirect || action is CloseSource ==> captured
            &&& action is ApplyLimits ==> config.rlimits is Some
            &&& action is CreateDir || action is BindMount || action is Chroot
                ==> config.chroot_dir is Some
        }),
{
    let outputs = if captured {
        redirections()
    } else {
        Seq::<Operation>::empty()
    };
    let l = limit_operations(config);
    let r = root_operations(config);
    lemma_root_places(config);
    lemma_at(outputs, l);
    lemma_at(outputs + l, r);
    let all = front(config, captured);
    if i < outputs.len() {
        assert(all[i] == (outputs + l)[i] && (outputs + l)[i] == outputs[i]);
    } else if i < outputs.len() + l.len() {
        assert(all[i] == (outputs + l)[i] && (outputs + l)[i] == l[i - outputs.len()]);
    } else {
        assert(all[i] == r[i - (outputs + l).len()]);
    }
}

proof fn lemma_back_kinds(config: ProcessConfig, i: int)
    requires
        0 <= i < back(config).len(),
    ensures
        ({
            let action = back(config)[i];
            &&& action is SetGid || action is SetUid || action is RestrictFiles
                || action is LoadFilter
            &&& action is SetGid ==> config.gid is Some
            &&& action is SetUid ==> config.uid is Some
            &&& action is RestrictFiles ==> config.landlock is Some
            &&& action is LoadFilter ==> config.seccomp is Some
        }),
{
    let d = identity_operations(config);
    let a = landlock_operations(config);
    let f = filter_operations(config);
    lemma_at(d, a);
    lemma_at(d + a, f);
    if i < d.len() {
        assert(back(config)[i] == (d + a)[i] && (d + a)[i] == d[i]);
    } else if i < d.len() + a.len() {
        assert(back(config)[i] == (d + a)[i] && (d + a)[i] == a[i - d.len()]);
    } else {
        assert(back(config)[i] == f[i - (d + a).len()]);
    }
}

} // verus!
