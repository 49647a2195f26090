//! Resolution of a program name to a path, with the semantics of `PATH`.

use vstd::prelude::*;

use crate::execution::environment;
use crate::execution::environment::Vars;
use crate::text;
use crate::text::{pieces, texts};

verus! {

/// The directories that are searched where the environment has no `PATH`.
pub const DEFAULT_PATH: &'static str =
    "/usr/local/sbin:/usr/local/bin:/usr/sbin:/usr/bin:/sbin:/bin";

/// How the message of a failed search starts.
pub const NOT_FOUND: &'static str = "execve failed: command not found: ";

/// The list of directories to search.
pub open spec fn search_path(env: Vars) -> Seq<char> {
    match environment::lookup(env, "PATH"@) {
        Some(value) => value,
        None => DEFAULT_PATH@,
    }
}

/// The directory that an entry of the list stands for: an empty entry is the
/// current directory.
pub open spec fn entry_dir(entry: Seq<char>) -> Seq<char> {
    if entry.len() == 0 {
        "."@
    } else {
        entry
    }
}

/// A file name inside a directory.
pub open spec fn path_in(dir: Seq<char>, name: Seq<char>) -> Seq<char> {
    if dir.last() == '/' {
        dir + name
    } else {
        dir.push('/') + name
    }
}

/// The paths at which a program is looked for, in order.
pub open spec fn candidates(program: Seq<char>, env: Vars) -> Seq<Seq<char>> {
    pieces(search_path(env), ':').map_values(
        |entry: Seq<char>| path_in(entry_dir(entry), program),
    )
}

/// A search that has a path to try next.
#[derive(Debug)]
pub struct ProgramSearch {
    /// The name that is looked for.
    pub program: String,
    /// The path to try now.
    pub candidate: String,
    /// The paths to try after it, in order.
    pub rest: Vec<String>,
}

/// Where a resolution stands.
#[derive(Debug)]
pub enum Resolution {
    /// The path of the program.
    Resolved(String),
    /// The candidate must be tested for execute permission.
    Probe(ProgramSearch),
    /// There is no such program; the message says so.
    NotFound(String),
}

/// The resolution `r` is about to try `paths` for `program`.
pub open spec fn searches(r: Resolution, program: Seq<char>, paths: Seq<Seq<char>>) -> bool {
    if paths.len() == 0 {
        r matches Resolution::NotFound(message) && message@ == NOT_FOUND@ + program
    } else {
        &&& r matches Resolution::Probe(search)
        &&& search.program@ == program
        &&& search.candidate@ == paths[0]
        &&& texts(search.rest@) == paths.drop_first()
    }
}

/// The resolution `r` is what a search becomes once it is known whether its
/// candidate can be executed.
pub open spec fn probed_to(search: ProgramSearch, executable: bool, r: Resolution) -> bool {
    if executable {
        r matches Resolution::Resolved(path) && path@ == search.candidate@
    } else {
        searches(r, search.program@, texts(search.rest@))
    }
}

/// The resolution `r` is how looking for `program` begins.
pub open spec fn resolution_starts(program: Seq<char>, env: Vars, r: Resolution) -> bool {
    if program.contains('/') {
        r matches Resolution::Resolved(path) && path@ == program
    } else {
        searches(r, program, candidates(program, env))
    }
}

fn begin_search(program: String, paths: Vec<String>) -> (r: Resolution)
    ensures
        searches(r, program@, texts(paths@)),
{
    let mut rest = paths;
    if rest.len() == 0 {
        Resolution::NotFound(text::concat(NOT_FOUND, program.as_str()))
    } else {
        let candidate = rest.remove(0);
        assert(texts(rest@) =~= texts(paths@).drop_first());
        Resolution::Probe(ProgramSearch { program, candidate, rest })
    }
}

fn join_path(dir: &str, name: &str) -> (r: String)
    requires
        dir@.len() > 0,
    ensures
        r@ == path_in(dir@, name@),
{
    let mut r = dir.to_string();
    let n: usize = dir.unicode_len();
    if dir.get_char(n - 1) != '/' {
        r.append("/");
        proof {
            reveal_strlit("/");
            assert(r@ =~= dir@.push('/'));
        }
    }
    r.append(name);
    r
}

/// Begins to resolve a program name. A name with a slash is a path already;
/// any other name is looked for in the directories of `PATH`, each of which
/// must be probed in turn.
pub fn resolve_program_path(program: &str, env: &[(String, String)]) -> (r: Resolution)
    ensures
        resolution_starts(program@, environment::vars(env@), r),
{
    if text::has_char(program, '/') {
        return Resolution::Resolved(program.to_string());
    }
    let key = "PATH".to_string();
    let at: usize = environment::find_var(env, &key);
    let list: String = if at < env.len() {
        env[at].1.clone()
    } else {
        DEFAULT_PATH.to_string()
    };
    let entries = text::split(list.as_str(), ':');
    let ghost expected = candidates(program@, environment::vars(env@));
    assert(list@ == search_path(environment::vars(env@)));
    assert(expected.len() == entries@.len());
    let mut paths: Vec<String> = Vec::new();
    let mut i: usize = 0;
    while i < entries.len()
        invariant
            0 <= i <= entries@.len(),
            paths@.len() == i,
            expected.len() == entries@.len(),
            forall|j: int|
                0 <= j < entries@.len() ==> #[trigger] expected[j] == path_in(
                    entry_dir(entries@[j]@),
                    program@,
                ),
            forall|j: int| 0 <= j < i ==> (#[trigger] paths@[j])@ == expected[j],
        decreases entries@.len() - i,
    {
        let path = if entries[i].as_str().is_empty() {
            proof {
                reveal_strlit(".");
            }
            join_path(".", program)
        } else {
            join_path(entries[i].as_str(), program)
        };
        assert(path@ == expected[i as int]);
        paths.push(path);
        i = i + 1;
    }
    assert(texts(paths@) =~= expected);
    begin_search(program.to_string(), paths)
}

impl ProgramSearch {
    /// Goes on with a search once the candidate was probed.
    pub fn probed(self, executable: bool) -> (r: Resolution)
        ensures
            probed_to(self, executable, r),
    {
        if executable {
            Resolution::Resolved(self.candidate)
        } else {
            begin_search(self.program, self.rest)
        }
    }
}

/// The first path that satisfies `executable`.
pub open spec fn first_executable(
    paths: Seq<Seq<char>>,
    executable: spec_fn(Seq<char>) -> bool,
) -> Option<Seq<char>>
    decreases paths.len(),
{
    if paths.len() == 0 {
        None
    } else if executable(paths[0]) {
        Some(paths[0])
    } else {
        first_executable(paths.drop_first(), executable)
    }
}

/// Each resolution of a run comes from the one before it, where `executable`
/// says which paths can be executed.
pub open spec fn probing_run(
    run: Seq<Resolution>,
    executable: spec_fn(Seq<char>) -> bool,
) -> bool {
    &&& run.len() > 0
    &&& forall|i: int|
        0 <= i < run.len() - 1 ==> (#[trigger] run[i] matches Resolution::Probe(search)
            && probed_to(search, executable(search.candidate@), run[i + 1]))
}

proof fn lemma_run_from(
    run: Seq<Resolution>,
    program: Seq<char>,
    paths: Seq<Seq<char>>,
    executable: spec_fn(Seq<char>) -> bool,
)
    requires
        probing_run(run, executable),
        searches(run[0], program, paths),
    ensures
        run.len() <= paths.len() + 1,
        match (run.last(), first_executable(paths, executable)) {
            (Resolution::Probe(_), _) => true,
            (Resolution::Resolved(path), Some(first)) => path@ == first,
            (Resolution::NotFound(message), None) => message@ == NOT_FOUND@ + program,
            _ => false,
        },
    decreases paths.len(),
{
    if run.len() > 1 {
        let search = run[0]->Probe_0;
        assert(probed_to(search, executable(search.candidate@), run[1]));
        let later = run.drop_first();
        assert forall|i: int| 0 <= i < later.len() - 1 implies (
        #[trigger] later[i] matches Resolution::Probe(search) && probed_to(
            search,
            executable(search.candidate@),
            later[i + 1],
        )) by {
            assert(later[i] == run[i + 1]);
            assert(later[i + 1] == run[i + 2]);
        }
        if executable(search.candidate@) {
            assert(run.len() == 2) by {
                if run.len() > 2 {
                    assert(run[1] is Probe);
                }
            }
        } else {
            lemma_run_from(later, program, paths.drop_first(), executable);
            assert(later.last() == run.last());
        }
    }
}

/// However long the list of directories is, a search ends: it probes every
/// candidate at most once. It ends at the first candidate, in the order of the
/// list, that can be executed, and reports that the program was not found only
/// where none can.
pub proof fn search_finds_first_executable(
    run: Seq<Resolution>,
    program: Seq<char>,
    env: Vars,
    executable: spec_fn(Seq<char>) -> bool,
)
    requires
        !program.contains('/'),
        probing_run(run, executable),
        resolution_starts(program, env, run[0]),
    ensures
        run.len() <= candidates(program, env).len() + 1,
        match (run.last(), first_executable(candidates(program, env), executable)) {
            (Resolution::Probe(_), _) => true,
            (Resolution::Resolved(path), Some(first)) => path@ == first,
            (Resolution::NotFound(message), None) => message@ == NOT_FOUND@ + program,
            _ => false,
        },
{
    lemma_run_from(run, program, candidates(program, env), executable);
}

/// Whatever a resolution comes to holds a slash, so that it is a path and not
/// a name that would be looked for again.
pub proof fn candidates_are_paths(program: Seq<char>, env: Vars)
    ensures
        forall|i: int|
            0 <= i < candidates(program, env).len() ==> (#[trigger] candidates(
                program,
                env,
            )[i]).contains('/'),
{
    assert forall|i: int| 0 <= i < candidates(program, env).len() implies (#[trigger] candidates(
        program,
        env,
    )[i]).contains('/') by {
        reveal_strlit(".");
        let dir = entry_dir(pieces(search_path(env), ':')[i]);
        let path = candidates(program, env)[i];
        if dir.last() == '/' {
            assert(path[dir.len() - 1] == '/');
        } else {
            assert(path[dir.len() as int] == '/');
        }
    }
}

} // verus!
