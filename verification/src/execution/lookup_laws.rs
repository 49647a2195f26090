//! What merging environments and looking for programs come to, place by place.

use vstd::prelude::*;

use crate::execution::environment::{
    base_order_is_kept, find_var, first_index, last_value, lemma_first_index, lemma_first_index_is,
    lookup, merge_environment, merged, new_names_come_in_order, overrides_win, vars, Vars,
};
use crate::execution::path_search::{
    candidates, entry_dir, path_in, resolve_program_path, search_path, ProgramSearch, Resolution,
};
use crate::text::{joined, pieces, split_then_join, texts};

verus! {

/// An environment keeps names and values of its strings, in order.
pub proof fn vars_are_views(env: Seq<(String, String)>)
    ensures
        vars(env).len() == env.len(),
        forall|i: int|
            0 <= i < env.len() ==> (#[trigger] vars(env)[i]).0 == env[i].0@ && vars(env)[i].1
                == env[i].1@,
{
}

/// Finding a variable gives the first place with its name, and the number of
/// variables where no place has it.
pub proof fn finding_gives_the_first_place(env: &[(String, String)], key: String, r: usize)
    requires
        call_ensures(find_var, (env, &key), r),
    ensures
        r <= env@.len(),
        r < env@.len() ==> env@[r as int].0@ == key@,
        forall|j: int| 0 <= j < r ==> (#[trigger] env@[j]).0@ != key@,
{
    let all = vars(env@);
    lemma_first_index(all, key@);
    assert forall|j: int| 0 <= j < r implies (#[trigger] env@[j]).0@ != key@ by {
        assert(all[j].0 == env@[j].0@);
    }
}

/// A later variable of a name that occurred before is not changed.
proof fn lemma_later_is_kept(base: Vars, overrides: Vars, i: int)
    requires
        0 <= i < base.len(),
        first_index(base, base[i].0) != i,
    ensures
        merged(base, overrides).len() >= base.len(),
        merged(base, overrides)[i] == base[i],
    decreases overrides.len(),
{
    if overrides.len() > 0 {
        let earlier = overrides.drop_last();
        let before = merged(base, earlier);
        lemma_later_is_kept(base, earlier, i);
        base_order_is_kept(base, earlier);
        let key = overrides.last().0;
        lemma_first_index(before, key);
        lemma_first_index(base, base[i].0);
        if first_index(before, key) == i {
            let first = first_index(base, base[i].0);
            assert(before[first].0 == base[first].0);
            assert(false);
        }
    }
}

proof fn lemma_last_value_is(env: Vars, j: int)
    requires
        0 <= j < env.len(),
        forall|k: int| j < k < env.len() ==> env[k].0 != env[j].0,
    ensures
        last_value(env, env[j].0) == Some(env[j].1),
    decreases env.len(),
{
    if j < env.len() - 1 {
        lemma_last_value_is(env.drop_last(), j);
        assert(env.last() == env[env.len() - 1]);
    }
}

proof fn lemma_no_last_value(env: Vars, key: Seq<char>)
    requires
        forall|k: int| 0 <= k < env.len() ==> (#[trigger] env[k]).0 != key,
    ensures
        last_value(env, key) is None,
    decreases env.len(),
{
    if env.len() > 0 {
        assert(env.last() == env[env.len() - 1]);
        assert forall|k: int| 0 <= k < env.drop_last().len() implies (
        #[trigger] env.drop_last()[k]).0 != key by {
            assert(env.drop_last()[k] == env[k]);
        }
        lemma_no_last_value(env.drop_last(), key);
    }
}

/// Every variable of the base stays in its place, and keeps its value where
/// nothing overrides it: where no override has its name, or an earlier variable
/// has.
pub proof fn merging_keeps_what_is_not_overridden(
    base: Vec<(String, String)>,
    overrides: Vec<(String, String)>,
    r: Vec<(String, String)>,
    i: int,
)
    requires
        call_ensures(merge_environment, (base, &overrides), r),
        0 <= i < base@.len(),
    ensures
        r@.len() >= base@.len(),
        r@[i].0@ == base@[i].0@,
        (forall|j: int| 0 <= j < overrides@.len() ==> (#[trigger] overrides@[j]).0@ != base@[i].0@)
            || (exists|k: int| 0 <= k < i && (#[trigger] base@[k]).0@ == base@[i].0@) ==> r@[i].1@
            == base@[i].1@,
{
    let b = vars(base@);
    let o = vars(overrides@);
    let m = vars(r@);
    let name = b[i].0;
    base_order_is_kept(b, o);
    assert(m.len() == r@.len());
    assert(m[i].0 == b[i].0);
    assert(m[i] == (r@[i].0@, r@[i].1@));
    lemma_first_index(b, name);
    if first_index(b, name) != i {
        lemma_later_is_kept(b, o, i);
    } else {
        assert forall|k: int| 0 <= k < i implies (#[trigger] base@[k]).0@ != base@[i].0@ by {
            assert(b[k].0 == base@[k].0@);
        }
        if forall|j: int|
            0 <= j < overrides@.len() ==> (#[trigger] overrides@[j]).0@ != base@[i].0@ {
            assert forall|k: int| 0 <= k < o.len() implies (#[trigger] o[k]).0 != name by {
                assert(o[k].0 == overrides@[k].0@);
            }
            lemma_no_last_value(o, name);
            overrides_win(b, o, name);
            assert forall|k: int| 0 <= k < i implies m[k].0 != name by {
                assert(m[k].0 == b[k].0);
            }
            lemma_first_index_is(m, name, i);
        }
    }
}

/// The first variable of an overridden name has the value of the last override
/// of that name, and there is such a variable.
pub proof fn merging_sets_the_last_override(
    base: Vec<(String, String)>,
    overrides: Vec<(String, String)>,
    r: Vec<(String, String)>,
    j: int,
) -> (i: int)
    requires
        call_ensures(merge_environment, (base, &overrides), r),
        0 <= j < overrides@.len(),
        forall|k: int| j < k < overrides@.len() ==> (#[trigger] overrides@[k]).0@
            != overrides@[j].0@,
    ensures
        0 <= i < r@.len(),
        r@[i].0@ == overrides@[j].0@,
        r@[i].1@ == overrides@[j].1@,
        forall|k: int| 0 <= k < i ==> (#[trigger] r@[k]).0@ != overrides@[j].0@,
{
    let b = vars(base@);
    let o = vars(overrides@);
    let m = vars(r@);
    let name = o[j].0;
    assert forall|k: int| j < k < o.len() implies o[k].0 != name by {
        assert(o[k].0 == overrides@[k].0@);
    }
    lemma_last_value_is(o, j);
    overrides_win(b, o, name);
    lemma_first_index(m, name);
    let i = first_index(m, name);
    assert(m[i] == (r@[i].0@, r@[i].1@));
    assert forall|k: int| 0 <= k < i implies (#[trigger] r@[k]).0@ != overrides@[j].0@ by {
        assert(m[k].0 == r@[k].0@);
    }
    i
}

/// What merging adds are names of overrides that the base does not have, each
/// once, in the order in which the overrides first name them.
pub proof fn merging_adds_only_new_names(
    base: Vec<(String, String)>,
    overrides: Vec<(String, String)>,
    r: Vec<(String, String)>,
    i: int,
)
    requires
        call_ensures(merge_environment, (base, &overrides), r),
        base@.len() <= i < r@.len(),
    ensures
        exists|a: int| 0 <= a < overrides@.len() && (#[trigger] overrides@[a]).0@ == r@[i].0@,
        forall|k: int| 0 <= k < base@.len() ==> (#[trigger] base@[k]).0@ != r@[i].0@,
        forall|j: int, c: int|
            i < j < r@.len() && 0 <= c < overrides@.len() && (#[trigger] overrides@[c]).0@ == (
            #[trigger] r@[j]).0@ ==> r@[j].0@ != r@[i].0@ && exists|a: int|
                0 <= a < c && (#[trigger] overrides@[a]).0@ == r@[i].0@,
{
    let b = vars(base@);
    let o = vars(overrides@);
    let m = vars(r@);
    let name = m[i].0;
    new_names_come_in_order(b, o);
    assert(m[i].0 == r@[i].0@);
    lemma_first_index(o, name);
    lemma_first_index(b, name);
    let first = first_index(o, name);
    assert(overrides@[first].0@ == name);
    assert forall|k: int| 0 <= k < base@.len() implies (#[trigger] base@[k]).0@ != r@[i].0@ by {
        assert(b[k].0 == base@[k].0@);
    }
    assert forall|j: int, c: int|
        i < j < r@.len() && 0 <= c < overrides@.len() && (#[trigger] overrides@[c]).0@ == (
        #[trigger] r@[j]).0@ implies r@[j].0@ != r@[i].0@ && exists|a: int|
        0 <= a < c && (#[trigger] overrides@[a]).0@ == r@[i].0@ by {
        assert(m[j].0 == r@[j].0@);
        assert(o[c].0 == overrides@[c].0@);
        lemma_first_index(o, m[j].0);
        assert(first < first_index(o, m[j].0));
        assert(overrides@[first].0@ == r@[i].0@);
    }
}

/// The path of a search at a place: first the one to try now, then the others.
pub open spec fn path_at(search: ProgramSearch, i: int) -> Seq<char> {
    if i == 0 {
        search.candidate@
    } else {
        search.rest@[i - 1]@
    }
}

/// A name with a slash is the path itself, whatever the environment holds.
pub proof fn paths_are_not_searched_for(
    program: &str,
    env: &[(String, String)],
    i: int,
    r: Resolution,
)
    requires
        call_ensures(resolve_program_path, (program, env), r),
        0 <= i < program@.len(),
        program@[i] == '/',
    ensures
        r matches Resolution::Resolved(path) && path@ == program@,
{
    assert(program@.contains('/'));
}

/// The path of a program in a directory: a slash stands between them, unless
/// the directory ends with one; an empty directory is the current one.
pub open spec fn program_in(dir: Seq<char>, program: Seq<char>) -> Seq<char> {
    if dir.len() == 0 {
        seq!['.', '/'] + program
    } else if dir[dir.len() - 1] == '/' {
        dir + program
    } else {
        dir + seq!['/'] + program
    }
}

/// The directories are those that the first `PATH` of an environment lists, in
/// order, or, without one, the usual ones.
pub open spec fn dirs_of_path(dirs: Seq<Seq<char>>, env: Seq<(String, String)>) -> bool {
    &&& dirs.len() > 0
    &&& forall|i: int| 0 <= i < dirs.len() ==> !(#[trigger] dirs[i]).contains(':')
    &&& forall|j: int|
        0 <= j < env.len() && (#[trigger] env[j]).0@ == "PATH"@ && (forall|k: int|
            0 <= k < j ==> (#[trigger] env[k]).0@ != "PATH"@) ==> joined(dirs, ':') == env[j].1@
    &&& (forall|j: int| 0 <= j < env.len() ==> (#[trigger] env[j]).0@ != "PATH"@) ==> joined(
        dirs,
        ':',
    ) == "/usr/local/sbin:/usr/local/bin:/usr/sbin:/usr/bin:/sbin:/bin"@
}

/// The paths at which a program is looked for are its paths in the directories
/// that `PATH` lists, in order.
pub proof fn candidates_come_from_path(program: Seq<char>, env: Seq<(String, String)>) -> (dirs:
    Seq<Seq<char>>)
    ensures
        dirs_of_path(dirs, env),
        candidates(program, vars(env)).len() == dirs.len(),
        forall|i: int|
            0 <= i < dirs.len() ==> #[trigger] candidates(program, vars(env))[i] == program_in(
                dirs[i],
                program,
            ),
{
    let all = vars(env);
    let key = "PATH"@;
    let list = search_path(all);
    let dirs = pieces(list, ':');
    split_then_join(list, ':');
    lemma_first_index(all, key);
    assert forall|j: int|
        0 <= j < env.len() && (#[trigger] env[j]).0@ == key && (forall|k: int|
            0 <= k < j ==> (#[trigger] env[k]).0@ != key) implies joined(dirs, ':')
        == env[j].1@ by {
        assert forall|k: int| 0 <= k < j implies all[k].0 != key by {
            assert(all[k].0 == env[k].0@);
        }
        assert(all[j] == (env[j].0@, env[j].1@));
        lemma_first_index_is(all, key, j);
    }
    if forall|j: int| 0 <= j < env.len() ==> (#[trigger] env[j]).0@ != key {
        assert forall|k: int| 0 <= k < all.len() implies all[k].0 != key by {
            assert(all[k].0 == env[k].0@);
        }
        lemma_first_index_is(all, key, all.len() as int);
        assert(lookup(all, key) is None);
    }
    lemma_dirs_not_empty(list);
    let paths = candidates(program, all);
    assert(paths.len() == dirs.len());
    assert forall|i: int| 0 <= i < dirs.len() implies #[trigger] paths[i] == program_in(
        dirs[i],
        program,
    ) by {
        assert(paths[i] == path_in(entry_dir(dirs[i]), program));
        reveal_strlit(".");
        if dirs[i].len() == 0 {
            assert("."@.push('/') + program =~= seq!['.', '/'] + program);
        } else {
            assert(dirs[i].push('/') + program =~= dirs[i] + seq!['/'] + program);
        }
    }
    dirs
}

/// A name without a slash is looked for in the directories that `PATH` lists,
/// one after the other.
pub proof fn names_are_searched_for_in_path(
    program: &str,
    env: &[(String, String)],
    r: Resolution,
) -> (dirs: Seq<Seq<char>>)
    requires
        call_ensures(resolve_program_path, (program, env), r),
        !program@.contains('/'),
    ensures
        dirs_of_path(dirs, env@),
        r matches Resolution::Probe(search) && search.program@ == program@ && search.rest@.len() + 1
            == dirs.len(),
        forall|i: int|
            0 <= i < dirs.len() ==> #[trigger] path_at(r->Probe_0, i) == program_in(
                dirs[i],
                program@,
            ),
{
    let dirs = candidates_come_from_path(program@, env@);
    let paths = candidates(program@, vars(env@));
    let search = r->Probe_0;
    assert(texts(search.rest@).len() == search.rest@.len());
    assert forall|i: int| 0 <= i < dirs.len() implies #[trigger] path_at(search, i) == program_in(
        dirs[i],
        program@,
    ) by {
        if i > 0 {
            assert(texts(search.rest@)[i - 1] == paths.drop_first()[i - 1]);
        }
        assert(path_at(search, i) == paths[i]);
    }
    dirs
}

proof fn lemma_dirs_not_empty(list: Seq<char>)
    ensures
        pieces(list, ':').len() > 0,
    decreases list.len(),
{
    if list.len() > 0 {
        lemma_dirs_not_empty(list.drop_last());
    }
}

/// A path that can be executed is the one; otherwise the next path is tried,
/// and where there is none, the name of the program is reported.
pub proof fn probing_goes_path_by_path(search: ProgramSearch, executable: bool, r: Resolution)
    requires
        call_ensures(ProgramSearch::probed, (search, executable), r),
    ensures
        executable ==> (r matches Resolution::Resolved(path) && path@ == search.candidate@),
        !executable && search.rest@.len() == 0 ==> (r matches Resolution::NotFound(message)
            && message@ == "execve failed: command not found: "@ + search.program@),
        !executable && search.rest@.len() > 0 ==> (r matches Resolution::Probe(next)
            && next.program@ == search.program@ && next.candidate@ == search.rest@[0]@
            && next.rest@.len() + 1 == search.rest@.len() && forall|i: int|
            0 <= i < next.rest@.len() ==> (#[trigger] next.rest@[i])@ == search.rest@[i + 1]@),
{
    if !executable && search.rest@.len() > 0 {
        let next = r->Probe_0;
        let all = texts(search.rest@);
        assert(texts(next.rest@).len() == next.rest@.len());
        assert(all.len() == search.rest@.len());
        assert(all[0] == search.rest@[0]@);
        assert forall|i: int| 0 <= i < next.rest@.len() implies (#[trigger] next.rest@[i])@
            == search.rest@[i + 1]@ by {
            assert(texts(next.rest@)[i] == next.rest@[i]@);
            assert(all.drop_first()[i] == all[i + 1]);
        }
    }
}

} // verus!
