//! What a new process does between its creation and its program.
//!
//! The kernel is called from outside: each turn says what to print and which
//! operation to perform, and takes the outcome of that operation back.

use vstd::prelude::*;

use crate::errno::{describe_errno, errno_text};
use crate::execution::environment::vars;
use crate::execution::path_search::{
    probed_to, resolution_starts, resolve_program_path, ProgramSearch, Resolution,
};
use crate::execution::process::{ProcessConfig, ProcessExecutor};
use crate::limits::RlimitConfig;
use crate::seccomp::SeccompFilter;
use crate::text;
use crate::text::{decimal, texts};

verus! {

/// The line for a resolved path that the kernel cannot be given.
pub const NUL_IN_PROGRAM: &'static str = "program name contains nul byte";

/// An output of a process.
#[derive(Debug, Clone, Copy, PartialEq, Eq, Structural)]
pub enum Output {
    Stdout,
    Stderr,
}

/// An operation that prepares the process.
#[derive(Debug)]
pub enum Preparation {
    /// Make an output go to its pipe.
    Redirect(Output),
    /// Close the descriptor from which an output was redirected.
    CloseSource(Output),
    /// Apply resource limits.
    ApplyLimits(RlimitConfig),
    /// Create a directory and its parents.
    CreateDir(String),
    /// Make a host path visible inside the new root.
    BindMount { source: String, target: String },
    /// Change the root directory.
    Chroot(String),
    /// Change the working directory.
    Chdir(String),
    /// Change the group.
    SetGid(u32),
    /// Change the user.
    SetUid(u32),
    /// Restrict file access to what lies beneath a directory, through Landlock.
    RestrictFiles(String),
    /// Load a system call filter.
    LoadFilter(SeccompFilter),
}

/// A preparation, over character sequences.
pub enum Operation {
    Redirect(Output),
    CloseSource(Output),
    ApplyLimits(RlimitConfig),
    CreateDir(Seq<char>),
    BindMount(Seq<char>, Seq<char>),
    Chroot(Seq<char>),
    Chdir(Seq<char>),
    SetGid(u32),
    SetUid(u32),
    RestrictFiles(Seq<char>),
    LoadFilter(SeccompFilter),
}

impl View for Preparation {
    type V = Operation;

    open spec fn view(&self) -> Operation {
        match *self {
            Preparation::Redirect(output) => Operation::Redirect(output),
            Preparation::CloseSource(output) => Operation::CloseSource(output),
            Preparation::ApplyLimits(limits) => Operation::ApplyLimits(limits),
            Preparation::CreateDir(path) => Operation::CreateDir(path@),
            Preparation::BindMount { source, target } => Operation::BindMount(source@, target@),
            Preparation::Chroot(path) => Operation::Chroot(path@),
            Preparation::Chdir(path) => Operation::Chdir(path@),
            Preparation::SetGid(gid) => Operation::SetGid(gid),
            Preparation::SetUid(uid) => Operation::SetUid(uid),
            Preparation::RestrictFiles(path) => Operation::RestrictFiles(path@),
            Preparation::LoadFilter(filter) => Operation::LoadFilter(filter),
        }
    }
}

/// The views of a sequence of preparations.
pub open spec fn operations(s: Seq<Preparation>) -> Seq<Operation> {
    s.map_values(|p: Preparation| p@)
}

/// What became of a preparation.
#[derive(Debug)]
pub enum Outcome {
    Done,
    /// It failed with a kernel error number, and, where the failure has a text
    /// of its own, that text.
    Failed { errno: i32, detail: String },
}

/// The host paths that a changed root keeps visible, in the order in which
/// they are mounted.
pub open spec fn system_paths() -> Seq<Seq<char>> {
    seq![
        "/usr"@,
        "/lib"@,
        "/lib64"@,
        "/bin"@,
        "/sbin"@,
        "/etc"@,
        "/dev"@,
        "/proc"@,
        "/sys"@,
        "/tmp"@,
    ]
}

/// Creating the mount point of a host path under `root`, and mounting it.
pub open spec fn mount_pair(root: Seq<char>, path: Seq<char>) -> Seq<Operation> {
    seq![Operation::CreateDir(root + path), Operation::BindMount(path, root + path)]
}

/// The mounts of `paths` under `root`.
pub open spec fn mounts(root: Seq<char>, paths: Seq<Seq<char>>) -> Seq<Operation>
    decreases paths.len(),
{
    if paths.len() == 0 {
        seq![]
    } else {
        mounts(root, paths.drop_last()) + mount_pair(root, paths.last())
    }
}

/// The operations that limit the process.
pub open spec fn limit_operations(config: ProcessConfig) -> Seq<Operation> {
    match config.rlimits {
        Some(limits) => seq![Operation::ApplyLimits(limits)],
        None => seq![],
    }
}

/// The operations that change the root.
pub open spec fn root_operations(config: ProcessConfig) -> Seq<Operation> {
    match config.chroot_dir {
        Some(root) => mounts(root@, system_paths()).push(Operation::Chroot(root@)),
        None => seq![],
    }
}

/// The operation that changes the working directory.
pub open spec fn cwd_operations(config: ProcessConfig) -> Seq<Operation> {
    match config.cwd {
        Some(cwd) => seq![Operation::Chdir(cwd@)],
        None => seq![Operation::Chdir("/"@)],
    }
}

/// The operations that give up the identity of the parent.
pub open spec fn identity_operations(config: ProcessConfig) -> Seq<Operation> {
    let group = match config.gid {
        Some(gid) => seq![Operation::SetGid(gid)],
        None => seq![],
    };
    match config.uid {
        Some(uid) => group.push(Operation::SetUid(uid)),
        None => group,
    }
}

/// The operations that restrict file access.
pub open spec fn landlock_operations(config: ProcessConfig) -> Seq<Operation> {
    match config.landlock {
        Some(path) => seq![Operation::RestrictFiles(path@)],
        None => seq![],
    }
}

/// The operations that restrict system calls.
pub open spec fn filter_operations(config: ProcessConfig) -> Seq<Operation> {
    match config.seccomp {
        Some(filter) => seq![Operation::LoadFilter(filter)],
        None => seq![],
    }
}

/// All preparations of a process, in order.
pub open spec fn preparations(config: ProcessConfig) -> Seq<Operation> {
    limit_operations(config) + root_operations(config) + cwd_operations(config)
        + identity_operations(config) + landlock_operations(config) + filter_operations(config)
}

/// The operations that send the outputs of the process into pipes.
pub open spec fn redirections() -> Seq<Operation> {
    seq![
        Operation::Redirect(Output::Stdout),
        Operation::Redirect(Output::Stderr),
        Operation::CloseSource(Output::Stdout),
        Operation::CloseSource(Output::Stderr),
    ]
}

/// All that a process does before it looks for its program, where its outputs
/// are captured or not.
pub open spec fn child_plan(config: ProcessConfig, captured: bool) -> Seq<Operation> {
    if captured {
        redirections() + preparations(config)
    } else {
        preparations(config)
    }
}

/// Whether the process goes on although the operation failed.
pub open spec fn tolerated(op: Operation) -> bool {
    op is CloseSource || op is CreateDir || op is BindMount
}

/// What is printed where an operation failed: `kernel` is the text of the
/// error number, `detail` the text of the failure itself.
pub open spec fn failure_lines(
    op: Operation,
    kernel: Seq<char>,
    errno: i32,
    detail: Seq<char>,
) -> Seq<Seq<char>> {
    match op {
        Operation::Redirect(Output::Stdout) => seq!["dup2 stdout failed"@],
        Operation::Redirect(Output::Stderr) => seq!["dup2 stderr failed"@],
        Operation::CloseSource(_) => seq![],
        Operation::ApplyLimits(_) => seq!["Failed to apply rlimits: "@ + detail],
        Operation::CreateDir(_) => seq![],
        Operation::BindMount(source, target) => seq![
            "bind mount "@ + source + " -> "@ + target + " failed: "@ + detail + " (errno "@
                + decimal(errno as int) + ")"@,
        ],
        Operation::Chroot(_) => seq!["chroot failed: "@ + kernel],
        Operation::Chdir(_) => seq!["chdir failed: "@ + kernel],
        Operation::SetGid(_) => seq!["setgid failed"@],
        Operation::SetUid(_) => seq!["setuid failed"@],
        Operation::RestrictFiles(_) => seq!["Failed to apply landlock: "@ + detail],
        Operation::LoadFilter(_) => seq!["Failed to load seccomp: "@ + detail],
    }
}

/// The program that a process is to become.
#[derive(Debug)]
pub struct ChildLaunch {
    /// Its name or path.
    pub program: String,
    /// Its arguments.
    pub args: Vec<String>,
    /// Its environment.
    pub env: Vec<(String, String)>,
}

/// A preparation to perform now, with what follows it.
#[derive(Debug)]
pub struct ChildSetup {
    pub launch: ChildLaunch,
    /// The preparation to perform now.
    pub action: Preparation,
    /// The preparations after it, in order.
    pub rest: Vec<Preparation>,
}

/// A path to probe for execute permission now, with what follows it.
#[derive(Debug)]
pub struct ChildSearch {
    pub launch: ChildLaunch,
    pub search: ProgramSearch,
}

/// What the kernel is asked to execute.
#[derive(Debug)]
pub struct ExecRequest {
    /// The path of the program.
    pub program: String,
    /// All arguments, the path first.
    pub args: Vec<String>,
    /// The environment, one `name=value` each.
    pub env: Vec<String>,
}

/// What a process does next.
#[derive(Debug)]
pub enum ChildStep {
    Prepare(ChildSetup),
    Probe(ChildSearch),
    Exec(ExecRequest),
    /// End with this exit code.
    Exit(i32),
}

/// The lines that a process prints, and what it does after.
#[derive(Debug)]
pub struct ChildTurn {
    pub reports: Vec<String>,
    pub step: ChildStep,
}

/// An argument as the kernel can take it: one with a NUL becomes empty.
pub open spec fn encodable_arg(arg: Seq<char>) -> Seq<char> {
    if arg.contains('\0') {
        Seq::<char>::empty()
    } else {
        arg
    }
}

/// The `name=value` form of a variable.
pub open spec fn assignment(variable: (Seq<char>, Seq<char>)) -> Seq<char> {
    variable.0 + "="@ + variable.1
}

/// The request that makes `path` run for `launch`.
pub open spec fn executes(launch: ChildLaunch, path: Seq<char>, request: ExecRequest) -> bool {
    &&& request.program@ == path
    &&& texts(request.args@) == seq![path] + texts(launch.args@).map_values(
        |arg: Seq<char>| encodable_arg(arg),
    )
    &&& texts(request.env@) == vars(launch.env@).map_values(
        |variable: (Seq<char>, Seq<char>)| assignment(variable),
    )
}

/// The turn `t` prints `lines` and goes where the resolution `r` of the
/// program leads.
pub open spec fn launches(
    launch: ChildLaunch,
    lines: Seq<Seq<char>>,
    r: Resolution,
    t: ChildTurn,
) -> bool {
    match r {
        Resolution::Resolved(path) => if path@.contains('\0') {
            texts(t.reports@) == lines.push(NUL_IN_PROGRAM@) && t.step == ChildStep::Exit(1)
        } else {
            texts(t.reports@) == lines && (t.step matches ChildStep::Exec(request) && executes(
                launch,
                path@,
                request,
            ))
        },
        Resolution::Probe(search) => texts(t.reports@) == lines && t.step == ChildStep::Probe(
            ChildSearch { launch, search },
        ),
        Resolution::NotFound(message) => texts(t.reports@) == lines.push(message@) && t.step
            == ChildStep::Exit(1),
    }
}

/// The turn `t` prints `lines` and goes on with the preparations `rest`, or,
/// where none is left, with the program.
pub open spec fn continues(
    launch: ChildLaunch,
    rest: Seq<Operation>,
    lines: Seq<Seq<char>>,
    t: ChildTurn,
) -> bool {
    if rest.len() == 0 {
        exists|r: Resolution| #[trigger]
            resolution_starts(launch.program@, vars(launch.env@), r) && launches(
                launch,
                lines,
                r,
                t,
            )
    } else {
        &&& texts(t.reports@) == lines
        &&& t.step matches ChildStep::Prepare(setup)
        &&& setup.launch == launch
        &&& setup.action@ == rest[0]
        &&& operations(setup.rest@) == rest.drop_first()
    }
}

/// The turn `t` follows a preparation with the given outcome, where `kernel`
/// is the text of the error number.
pub open spec fn prepared_to_with(
    setup: ChildSetup,
    outcome: Outcome,
    kernel: Seq<char>,
    t: ChildTurn,
) -> bool {
    match outcome {
        Outcome::Done => continues(setup.launch, operations(setup.rest@), seq![], t),
        Outcome::Failed { errno, detail } => {
            let lines = failure_lines(setup.action@, kernel, errno, detail@);
            if tolerated(setup.action@) {
                continues(setup.launch, operations(setup.rest@), lines, t)
            } else {
                texts(t.reports@) == lines && t.step == ChildStep::Exit(1)
            }
        },
    }
}

/// The turn `t` follows a preparation with the given outcome.
pub open spec fn prepared_to(setup: ChildSetup, outcome: Outcome, t: ChildTurn) -> bool {
    let errno = match outcome {
        Outcome::Done => 0,
        Outcome::Failed { errno, .. } => errno,
    };
    prepared_to_with(setup, outcome, errno_text(errno), t)
}

/// The turn `t` follows the probe of a path.
pub open spec fn child_probed_to(child: ChildSearch, executable: bool, t: ChildTurn) -> bool {
    exists|r: Resolution| #[trigger]
        probed_to(child.search, executable, r) && launches(child.launch, seq![], r, t)
}

/// How the line about a failed execution starts.
pub const EXEC_FAILED: &'static str = "execve failed: ";

/// The turn `t` follows an execution that came back, with the text of its
/// error if it failed.
pub open spec fn returned_to(failure: Option<Seq<char>>, t: ChildTurn) -> bool {
    match failure {
        None => t.reports@.len() == 0 && t.step == ChildStep::Exit(0),
        Some(kernel) => texts(t.reports@) == seq![EXEC_FAILED@ + kernel] && t.step
            == ChildStep::Exit(1),
    }
}

/// The strings of a configuration that a process must hand to the kernel hold
/// no NUL.
pub open spec fn encodable(config: ProcessConfig) -> bool {
    &&& config.chroot_dir matches Some(root) ==> !root@.contains('\0')
    &&& forall|i: int|
        0 <= i < config.env@.len() ==> !(#[trigger] vars(config.env@)[i]).0.contains('\0')
            && !vars(config.env@)[i].1.contains('\0')
}

/// What a configuration says of the program.
pub open spec fn launch_of(config: ProcessConfig) -> ChildLaunch {
    ChildLaunch { program: config.program, args: config.args, env: config.env }
}

impl Preparation {
    /// What to print where the operation failed.
    pub fn failure_report(&self, kernel: &str, errno: i32, detail: &str) -> (r: Vec<String>)
        ensures
            texts(r@) == failure_lines(self@, kernel@, errno, detail@),
    {
        let mut lines: Vec<String> = Vec::new();
        match self {
            Preparation::Redirect(Output::Stdout) => {
                lines.push("dup2 stdout failed".to_string());
            },
            Preparation::Redirect(Output::Stderr) => {
                lines.push("dup2 stderr failed".to_string());
            },
            Preparation::CloseSource(_) => {},
            Preparation::ApplyLimits(_) => {
                lines.push(text::concat("Failed to apply rlimits: ", detail));
            },
            Preparation::CreateDir(_) => {},
            Preparation::BindMount { source, target } => {
                let mut line = "bind mount ".to_string();
                line.append(source.as_str());
                line.append(" -> ");
                line.append(target.as_str());
                line.append(" failed: ");
                line.append(detail);
                line.append(" (errno ");
                line.append(text::decimal_text(errno).as_str());
                line.append(")");
                lines.push(line);
            },
            Preparation::Chroot(_) => {
                lines.push(text::concat("chroot failed: ", kernel));
            },
            Preparation::Chdir(_) => {
                lines.push(text::concat("chdir failed: ", kernel));
            },
            Preparation::SetGid(_) => {
                lines.push("setgid failed".to_string());
            },
            Preparation::SetUid(_) => {
                lines.push("setuid failed".to_string());
            },
            Preparation::RestrictFiles(_) => {
                lines.push(text::concat("Failed to apply landlock: ", detail));
            },
            Preparation::LoadFilter(_) => {
                lines.push(text::concat("Failed to load seccomp: ", detail));
            },
        }
        assert(texts(lines@) =~= failure_lines(self@, kernel@, errno, detail@));
        lines
    }

    /// Whether the process goes on although the operation failed.
    pub fn is_tolerated(&self) -> (r: bool)
        ensures
            r == tolerated(self@),
    {
        match self {
            Preparation::CloseSource(_) => true,
            Preparation::CreateDir(_) => true,
            Preparation::BindMount { .. } => true,
            _ => false,
        }
    }
}

impl ProcessConfig {
    /// Whether the strings that a process must hand to the kernel hold no NUL.
    pub fn is_encodable(&self) -> (r: bool)
        ensures
            r == encodable(*self),
    {
        if let Some(root) = &self.chroot_dir {
            if text::has_char(root.as_str(), '\0') {
                return false;
            }
        }
        let mut i: usize = 0;
        while i < self.env.len()
            invariant
                0 <= i <= self.env@.len(),
                self.chroot_dir matches Some(root) ==> !root@.contains('\0'),
                forall|j: int|
                    0 <= j < i ==> !(#[trigger] vars(self.env@)[j]).0.contains('\0') && !vars(
                        self.env@,
                    )[j].1.contains('\0'),
            decreases self.env@.len() - i,
        {
            if text::has_char(self.env[i].0.as_str(), '\0') || text::has_char(
                self.env[i].1.as_str(),
                '\0',
            ) {
                assert(vars(self.env@)[i as int].0.contains('\0') || vars(
                    self.env@,
                )[i as int].1.contains('\0'));
                return false;
            }
            i = i + 1;
        }
        true
    }
}

fn mount_targets() -> (r: Vec<&'static str>)
    ensures
        r@.map_values(|p: &'static str| p@) == system_paths(),
{
    let r: Vec<&'static str> = vec![
        "/usr",
        "/lib",
        "/lib64",
        "/bin",
        "/sbin",
        "/etc",
        "/dev",
        "/proc",
        "/sys",
        "/tmp",
    ];
    assert(r@.map_values(|p: &'static str| p@) =~= system_paths());
    r
}

fn add_mounts(plan: &mut Vec<Preparation>, root: &str)
    ensures
        operations(final(plan)@) == operations(old(plan)@) + mounts(root@, system_paths()),
{
    let paths = mount_targets();
    let ghost views = paths@.map_values(|p: &'static str| p@);
    let ghost start = operations(plan@);
    let mut i: usize = 0;
    assert(operations(plan@) =~= start + mounts(root@, views.take(0)));
    while i < paths.len()
        invariant
            0 <= i <= paths@.len(),
            views == paths@.map_values(|p: &'static str| p@),
            operations(plan@) == start + mounts(root@, views.take(i as int)),
        decreases paths@.len() - i,
    {
        let ghost before = plan@;
        let path: &'static str = paths[i];
        let target = text::concat(root, path);
        plan.push(Preparation::CreateDir(target.clone()));
        plan.push(Preparation::BindMount { source: path.to_string(), target });
        proof {
            assert(views.take(i + 1).drop_last() =~= views.take(i as int));
            assert(views.take(i + 1).last() == path@);
            assert(operations(plan@) =~= operations(before) + mount_pair(root@, path@));
            assert(operations(plan@) =~= start + mounts(root@, views.take(i + 1)));
        }
        i = i + 1;
    }
    assert(views.take(i as int) =~= system_paths());
}

proof fn lemma_push(s: Seq<Preparation>, p: Preparation)
    ensures
        operations(s.push(p)) == operations(s) + seq![p@],
{
    assert(operations(s.push(p)) =~= operations(s) + seq![p@]);
}

proof fn lemma_regroup<T>(
    s: Seq<T>,
    a: Seq<T>,
    b: Seq<T>,
    c: Seq<T>,
    d: Seq<T>,
    e: Seq<T>,
    f: Seq<T>,
)
    ensures
        s + a + b + c + d + e + f == s + (a + b + c + d + e + f),
{
    assert(s + a + b + c + d + e + f =~= s + (a + b + c + d + e + f));
}

fn add_limits(plan: &mut Vec<Preparation>, config: &ProcessConfig)
    ensures
        operations(final(plan)@) == operations(old(plan)@) + limit_operations(*config),
{
    if let Some(limits) = config.rlimits {
        proof {
            lemma_push(plan@, Preparation::ApplyLimits(limits));
        }
        plan.push(Preparation::ApplyLimits(limits));
    }
}

fn add_root(plan: &mut Vec<Preparation>, config: &ProcessConfig)
    ensures
        operations(final(plan)@) == operations(old(plan)@) + root_operations(*config),
{
    if let Some(root) = &config.chroot_dir {
        let ghost start = operations(plan@);
        add_mounts(plan, root.as_str());
        let action = Preparation::Chroot(root.clone());
        proof {
            lemma_push(plan@, action);
            assert(start + mounts(root@, system_paths()) + seq![action@] =~= start + mounts(
                root@,
                system_paths(),
            ).push(action@));
        }
        plan.push(action);
    }
}

fn add_cwd(plan: &mut Vec<Preparation>, config: &ProcessConfig)
    ensures
        operations(final(plan)@) == operations(old(plan)@) + cwd_operations(*config),
{
    let cwd: String = match &config.cwd {
        Some(cwd) => cwd.clone(),
        None => "/".to_string(),
    };
    let action = Preparation::Chdir(cwd);
    proof {
        lemma_push(plan@, action);
    }
    plan.push(action);
}

fn add_identity(plan: &mut Vec<Preparation>, config: &ProcessConfig)
    ensures
        operations(final(plan)@) == operations(old(plan)@) + identity_operations(*config),
{
    let ghost start = operations(plan@);
    if let Some(gid) = config.gid {
        proof {
            lemma_push(plan@, Preparation::SetGid(gid));
        }
        plan.push(Preparation::SetGid(gid));
    }
    if let Some(uid) = config.uid {
        proof {
            lemma_push(plan@, Preparation::SetUid(uid));
        }
        plan.push(Preparation::SetUid(uid));
    }
    assert(operations(plan@) =~= start + identity_operations(*config));
}

fn add_landlock(plan: &mut Vec<Preparation>, config: &ProcessConfig)
    ensures
        operations(final(plan)@) == operations(old(plan)@) + landlock_operations(*config),
{
    if let Some(path) = &config.landlock {
        let action = Preparation::RestrictFiles(path.clone());
        proof {
            lemma_push(plan@, action);
        }
        plan.push(action);
    }
}

fn add_filter(plan: &mut Vec<Preparation>, config: &ProcessConfig)
    ensures
        operations(final(plan)@) == operations(old(plan)@) + filter_operations(*config),
{
    if let Some(filter) = config.seccomp {
        proof {
            lemma_push(plan@, Preparation::LoadFilter(filter));
        }
        plan.push(Preparation::LoadFilter(filter));
    }
}

/// Lists the preparations of a process after `plan`.
fn add_preparations(plan: &mut Vec<Preparation>, config: &ProcessConfig)
    ensures
        operations(final(plan)@) == operations(old(plan)@) + preparations(*config),
{
    proof {
        lemma_regroup(
            operations(plan@),
            limit_operations(*config),
            root_operations(*config),
            cwd_operations(*config),
            identity_operations(*config),
            landlock_operations(*config),
            filter_operations(*config),
        );
    }
    add_limits(plan, config);
    add_root(plan, config);
    add_cwd(plan, config);
    add_identity(plan, config);
    add_landlock(plan, config);
    add_filter(plan, config);
}

fn exec_request(launch: ChildLaunch, path: String) -> (r: ExecRequest)
    ensures
        executes(launch, path@, r),
{
    let mut args: Vec<String> = Vec::new();
    args.push(path.clone());
    let ghost wanted = texts(launch.args@).map_values(|arg: Seq<char>| encodable_arg(arg));
    let mut i: usize = 0;
    assert(texts(args@) =~= seq![path@] + wanted.take(0));
    while i < launch.args.len()
        invariant
            0 <= i <= launch.args@.len(),
            wanted == texts(launch.args@).map_values(|arg: Seq<char>| encodable_arg(arg)),
            texts(args@) == seq![path@] + wanted.take(i as int),
        decreases launch.args@.len() - i,
    {
        let ghost before = args@;
        let arg = if text::has_char(launch.args[i].as_str(), '\0') {
            String::new()
        } else {
            launch.args[i].clone()
        };
        args.push(arg);
        assert(arg@ == wanted[i as int]);
        assert(texts(args@) =~= texts(before).push(arg@));
        assert(wanted.take(i + 1) =~= wanted.take(i as int).push(wanted[i as int]));
        assert(texts(args@) =~= seq![path@] + wanted.take(i + 1));
        i = i + 1;
    }
    assert(wanted.take(i as int) =~= wanted);

    let mut env: Vec<String> = Vec::new();
    let ghost assignments = vars(launch.env@).map_values(
        |variable: (Seq<char>, Seq<char>)| assignment(variable),
    );
    let mut k: usize = 0;
    assert(texts(env@) =~= assignments.take(0));
    while k < launch.env.len()
        invariant
            0 <= k <= launch.env@.len(),
            assignments == vars(launch.env@).map_values(
                |variable: (Seq<char>, Seq<char>)| assignment(variable),
            ),
            texts(env@) == assignments.take(k as int),
        decreases launch.env@.len() - k,
    {
        let ghost before = env@;
        let mut line = launch.env[k].0.clone();
        line.append("=");
        line.append(launch.env[k].1.as_str());
        env.push(line);
        assert(line@ == assignments[k as int]);
        assert(texts(env@) =~= texts(before).push(line@));
        assert(texts(env@) =~= assignments.take(k + 1));
        k = k + 1;
    }
    assert(assignments.take(k as int) =~= assignments);
    ExecRequest { program: path, args, env }
}

fn go_to_program(launch: ChildLaunch, reports: Vec<String>, r: Resolution) -> (t: ChildTurn)
    ensures
        launches(launch, texts(reports@), r, t),
{
    let ghost lines = texts(reports@);
    let mut reports = reports;
    match r {
        Resolution::Resolved(path) => {
            if text::has_char(path.as_str(), '\0') {
                reports.push(NUL_IN_PROGRAM.to_string());
                assert(texts(reports@) =~= lines.push(NUL_IN_PROGRAM@));
                ChildTurn { reports, step: ChildStep::Exit(1) }
            } else {
                ChildTurn { reports, step: ChildStep::Exec(exec_request(launch, path)) }
            }
        },
        Resolution::Probe(search) => {
            ChildTurn { reports, step: ChildStep::Probe(ChildSearch { launch, search }) }
        },
        Resolution::NotFound(message) => {
            reports.push(message);
            assert(texts(reports@) =~= lines.push(message@));
            ChildTurn { reports, step: ChildStep::Exit(1) }
        },
    }
}

fn go_on(launch: ChildLaunch, plan: Vec<Preparation>, reports: Vec<String>) -> (t: ChildTurn)
    ensures
        continues(launch, operations(plan@), texts(reports@), t),
{
    let mut rest = plan;
    if rest.len() == 0 {
        let r = resolve_program_path(launch.program.as_str(), launch.env.as_slice());
        go_to_program(launch, reports, r)
    } else {
        let action = rest.remove(0);
        assert(operations(rest@) =~= operations(plan@).drop_first());
        ChildTurn { reports, step: ChildStep::Prepare(ChildSetup { launch, action, rest }) }
    }
}

impl ProcessExecutor {
    /// Begins to set up the child process.
    ///
    /// Order of operations:
    /// 1. Apply resource limits (before seccomp locks things down)
    /// 2. Chroot (if specified)
    /// 3. Chdir
    /// 4. Drop privileges (setgid/setuid)
    /// 5. Restrict file access through Landlock (if specified)
    /// 6. Apply seccomp filter (last - irreversible lockdown before execve)
    /// 7. Execve
    pub fn child_setup(config: ProcessConfig) -> (t: ChildTurn)
        requires
            encodable(config),
        ensures
            continues(launch_of(config), child_plan(config, false), seq![], t),
    {
        let mut plan: Vec<Preparation> = Vec::new();
        add_preparations(&mut plan, &config);
        let reports: Vec<String> = Vec::new();
        assert(operations(plan@) =~= preparations(config));
        assert(texts(reports@) =~= seq![]);
        go_on(
            ChildLaunch { program: config.program, args: config.args, env: config.env },
            plan,
            reports,
        )
    }

    /// Begins to set up a child process whose outputs go into pipes.
    pub fn child_setup_with_pipes(config: ProcessConfig) -> (t: ChildTurn)
        requires
            encodable(config),
        ensures
            continues(launch_of(config), child_plan(config, true), seq![], t),
    {
        let mut plan: Vec<Preparation> = Vec::new();
        plan.push(Preparation::Redirect(Output::Stdout));
        plan.push(Preparation::Redirect(Output::Stderr));
        plan.push(Preparation::CloseSource(Output::Stdout));
        plan.push(Preparation::CloseSource(Output::Stderr));
        assert(operations(plan@) =~= redirections());
        add_preparations(&mut plan, &config);
        let reports: Vec<String> = Vec::new();
        assert(texts(reports@) =~= seq![]);
        go_on(
            ChildLaunch { program: config.program, args: config.args, env: config.env },
            plan,
            reports,
        )
    }
}

impl ChildSetup {
    /// Goes on after the preparation, given the text of its error number.
    pub fn prepared_with(self, outcome: Outcome, kernel: &str) -> (t: ChildTurn)
        ensures
            prepared_to_with(self, outcome, kernel@, t),
    {
        let mut reports: Vec<String> = Vec::new();
        assert(texts(reports@) =~= seq![]);
        match outcome {
            Outcome::Done => {},
            Outcome::Failed { errno, detail } => {
                reports = self.action.failure_report(kernel, errno, detail.as_str());
                if !self.action.is_tolerated() {
                    return ChildTurn { reports, step: ChildStep::Exit(1) };
                }
            },
        }
        go_on(self.launch, self.rest, reports)
    }

    /// Goes on after the preparation.
    pub fn prepared(self, outcome: Outcome) -> (t: ChildTurn)
        ensures
            prepared_to(self, outcome, t),
    {
        let errno: i32 = match &outcome {
            Outcome::Done => 0,
            Outcome::Failed { errno, .. } => *errno,
        };
        let kernel = describe_errno(errno);
        self.prepared_with(outcome, kernel.as_str())
    }
}

impl ChildSearch {
    /// Goes on after the path was probed.
    pub fn probed(self, executable: bool) -> (t: ChildTurn)
        ensures
            child_probed_to(self, executable, t),
    {
        let r = self.search.probed(executable);
        let reports: Vec<String> = Vec::new();
        assert(texts(reports@) =~= seq![]);
        go_to_program(self.launch, reports, r)
    }
}

/// Ends a process whose execution came back, given the text of its error.
pub fn exec_returned_with(failure: Option<String>) -> (t: ChildTurn)
    ensures
        returned_to(
            match failure {
                Some(kernel) => Some(kernel@),
                None => None,
            },
            t,
        ),
{
    let mut reports: Vec<String> = Vec::new();
    match failure {
        None => ChildTurn { reports, step: ChildStep::Exit(0) },
        Some(kernel) => {
            reports.push(text::concat(EXEC_FAILED, kernel.as_str()));
            assert(texts(reports@) =~= seq![EXEC_FAILED@ + kernel@]);
            ChildTurn { reports, step: ChildStep::Exit(1) }
        },
    }
}

/// Ends a process whose execution came back, with its error number if it
/// failed.
pub fn exec_returned(failure: Option<i32>) -> (t: ChildTurn)
    ensures
        returned_to(
            match failure {
                Some(errno) => Some(errno_text(errno)),
                None => None,
            },
            t,
        ),
{
    match failure {
        None => exec_returned_with(None),
        Some(errno) => exec_returned_with(Some(describe_errno(errno))),
    }
}

} // verus!
