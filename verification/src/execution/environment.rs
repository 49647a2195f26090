//! Environment variables, as an ordered list of names and values.

use vstd::prelude::*;

verus! {

/// An environment: names with their values, in order.
pub type Vars = Seq<(Seq<char>, Seq<char>)>;

/// The environment that a list of strings holds.
pub open spec fn vars(env: Seq<(String, String)>) -> Vars {
    env.map_values(|p: (String, String)| (p.0@, p.1@))
}

/// The place of the first variable named `key`, or the number of variables
/// where there is none.
pub open spec fn first_index(env: Vars, key: Seq<char>) -> int
    decreases env.len(),
{
    if env.len() == 0 || env[0].0 == key {
        0
    } else {
        1 + first_index(env.drop_first(), key)
    }
}

/// The value that a lookup of `key` finds.
pub open spec fn lookup(env: Vars, key: Seq<char>) -> Option<Seq<char>> {
    if first_index(env, key) < env.len() {
        Some(env[first_index(env, key)].1)
    } else {
        None
    }
}

/// The environment after one variable was set: its first occurrence changes
/// in place; a new variable goes to the end.
pub open spec fn set_var(env: Vars, key: Seq<char>, value: Seq<char>) -> Vars {
    if first_index(env, key) < env.len() {
        env.update(first_index(env, key), (key, value))
    } else {
        env.push((key, value))
    }
}

/// The environment after every override was set, in order.
pub open spec fn merged(base: Vars, overrides: Vars) -> Vars
    decreases overrides.len(),
{
    if overrides.len() == 0 {
        base
    } else {
        set_var(merged(base, overrides.drop_last()), overrides.last().0, overrides.last().1)
    }
}

/// The value of the last variable named `key`.
pub open spec fn last_value(env: Vars, key: Seq<char>) -> Option<Seq<char>>
    decreases env.len(),
{
    if env.len() == 0 {
        None
    } else if env.last().0 == key {
        Some(env.last().1)
    } else {
        last_value(env.drop_last(), key)
    }
}

/// No name occurs twice.
pub open spec fn names_distinct(env: Vars) -> bool {
    forall|i: int, j: int| 0 <= i < j < env.len() ==> env[i].0 != env[j].0
}

/// The first place of a name is a place of that name, or behind the end, and no
/// earlier place is.
pub proof fn lemma_first_index(env: Vars, key: Seq<char>)
    ensures
        0 <= first_index(env, key) <= env.len(),
        first_index(env, key) < env.len() ==> env[first_index(env, key)].0 == key,
        forall|j: int| 0 <= j < first_index(env, key) ==> env[j].0 != key,
    decreases env.len(),
{
    if env.len() == 0 || env[0].0 == key {
    } else {
        let rest = env.drop_first();
        lemma_first_index(rest, key);
        assert forall|j: int| 0 <= j < first_index(env, key) implies env[j].0 != key by {
            if j > 0 {
                assert(rest[j - 1] == env[j]);
            }
        }
    }
}

/// A place of a name that no earlier one has is the first.
pub proof fn lemma_first_index_is(env: Vars, key: Seq<char>, i: int)
    requires
        0 <= i <= env.len(),
        i < env.len() ==> env[i].0 == key,
        forall|j: int| 0 <= j < i ==> env[j].0 != key,
    ensures
        first_index(env, key) == i,
{
    lemma_first_index(env, key);
}

proof fn lemma_set_var(env: Vars, key: Seq<char>, value: Seq<char>, q: Seq<char>)
    ensures
        lookup(set_var(env, key, value), q) == if q == key {
            Some(value)
        } else {
            lookup(env, q)
        },
{
    lemma_first_index(env, key);
    lemma_first_index(env, q);
    let after = set_var(env, key, value);
    let at = first_index(env, key);
    let i = first_index(env, q);
    if q == key {
        lemma_first_index_is(after, q, at);
    } else if i < env.len() {
        lemma_first_index_is(after, q, i);
    } else {
        lemma_first_index_is(after, q, after.len() as int);
    }
}

/// A lookup in a merged environment finds the last override of that name, and
/// where there is none, what the base holds.
pub proof fn overrides_win(base: Vars, overrides: Vars, key: Seq<char>)
    ensures
        lookup(merged(base, overrides), key) == match last_value(overrides, key) {
            Some(value) => Some(value),
            None => lookup(base, key),
        },
    decreases overrides.len(),
{
    if overrides.len() > 0 {
        let earlier = overrides.drop_last();
        overrides_win(base, earlier, key);
        lemma_set_var(merged(base, earlier), overrides.last().0, overrides.last().1, key);
    }
}

/// Merging keeps the variables of the base in their places: only values change,
/// and new names come after.
pub proof fn base_order_is_kept(base: Vars, overrides: Vars)
    ensures
        merged(base, overrides).len() >= base.len(),
        forall|i: int|
            0 <= i < base.len() ==> (#[trigger] merged(base, overrides)[i]).0 == base[i].0,
    decreases overrides.len(),
{
    if overrides.len() > 0 {
        let earlier = merged(base, overrides.drop_last());
        base_order_is_kept(base, overrides.drop_last());
        lemma_first_index(earlier, overrides.last().0);
        assert forall|i: int| 0 <= i < base.len() implies (#[trigger] merged(
            base,
            overrides,
        )[i]).0 == base[i].0 by {
            assert(earlier[i].0 == base[i].0);
        }
    }
}

/// Merging into an environment without repeated names repeats no name.
pub proof fn names_stay_distinct(base: Vars, overrides: Vars)
    requires
        names_distinct(base),
    ensures
        names_distinct(merged(base, overrides)),
    decreases overrides.len(),
{
    if overrides.len() > 0 {
        names_stay_distinct(base, overrides.drop_last());
        lemma_first_index(merged(base, overrides.drop_last()), overrides.last().0);
    }
}

/// Names that are only in the overrides come after the base, in the order in
/// which the overrides first name them.
pub proof fn new_names_come_in_order(base: Vars, overrides: Vars)
    ensures
        forall|i: int|
            base.len() <= i < merged(base, overrides).len() ==> first_index(
                overrides,
                (#[trigger] merged(base, overrides)[i]).0,
            ) < overrides.len() && first_index(base, merged(base, overrides)[i].0) == base.len(),
        forall|i: int, j: int|
            base.len() <= i < j < merged(base, overrides).len() ==> first_index(
                overrides,
                (#[trigger] merged(base, overrides)[i]).0,
            ) < first_index(overrides, (#[trigger] merged(base, overrides)[j]).0),
    decreases overrides.len(),
{
    if overrides.len() > 0 {
        let earlier = overrides.drop_last();
        let before = merged(base, earlier);
        let after = merged(base, overrides);
        let key = overrides.last().0;
        let at = first_index(before, key);
        new_names_come_in_order(base, earlier);
        base_order_is_kept(base, earlier);
        lemma_first_index(before, key);
        assert forall|i: int| base.len() <= i < before.len() implies (#[trigger] after[i]).0
            == before[i].0 && first_index(overrides, after[i].0) == first_index(
            earlier,
            before[i].0,
        ) by {
            lemma_first_index(earlier, before[i].0);
            let first = first_index(earlier, before[i].0);
            assert forall|j: int| 0 <= j < first implies overrides[j].0 != before[i].0 by {
                assert(earlier[j] == overrides[j]);
            }
            lemma_first_index_is(overrides, before[i].0, first);
        }
        if at == before.len() {
            assert(after[at].0 == key);
            assert forall|j: int| 0 <= j < base.len() implies base[j].0 != key by {
                assert(before[j].0 == base[j].0);
            }
            lemma_first_index_is(base, key, base.len() as int);
            assert forall|j: int| 0 <= j < earlier.len() implies overrides[j].0 != key by {
                if overrides[j].0 == key {
                    assert(earlier[j] == overrides[j]);
                    lemma_named_is_found(base, earlier, j);
                }
            }
            lemma_first_index_is(overrides, key, earlier.len() as int);
        }
        assert forall|i: int, j: int| base.len() <= i < j < after.len() implies first_index(
            overrides,
            (#[trigger] after[i]).0,
        ) < first_index(overrides, (#[trigger] after[j]).0) by {
            assert(after[i].0 == before[i].0);
            if j < before.len() {
                assert(after[j].0 == before[j].0);
            }
        }
    }
}

/// A name of the overrides is in the merged environment.
proof fn lemma_named_is_found(base: Vars, overrides: Vars, j: int)
    requires
        0 <= j < overrides.len(),
    ensures
        first_index(merged(base, overrides), overrides[j].0) < merged(base, overrides).len(),
{
    overrides_win(base, overrides, overrides[j].0);
    lemma_last_value(overrides, j);
}

proof fn lemma_last_value(env: Vars, j: int)
    requires
        0 <= j < env.len(),
    ensures
        last_value(env, env[j].0) is Some,
    decreases env.len(),
{
    if j < env.len() - 1 {
        lemma_last_value(env.drop_last(), j);
    }
}

/// Overrides that are all named in an environment change only the values of
/// first occurrences.
proof fn lemma_shape_is_kept(env: Vars, overrides: Vars)
    requires
        forall|j: int|
            0 <= j < overrides.len() ==> first_index(env, (#[trigger] overrides[j]).0) < env.len(),
    ensures
        merged(env, overrides).len() == env.len(),
        forall|i: int| 0 <= i < env.len() ==> (#[trigger] merged(env, overrides)[i]).0 == env[i].0,
        forall|i: int|
            0 <= i < env.len() && first_index(env, env[i].0) != i ==> #[trigger] merged(
                env,
                overrides,
            )[i] == env[i],
    decreases overrides.len(),
{
    if overrides.len() > 0 {
        let earlier = overrides.drop_last();
        let before = merged(env, earlier);
        let after = merged(env, overrides);
        let key = overrides.last().0;
        assert forall|j: int| 0 <= j < earlier.len() implies first_index(
            env,
            (#[trigger] earlier[j]).0,
        ) < env.len() by {
            assert(earlier[j] == overrides[j]);
        }
        lemma_shape_is_kept(env, earlier);
        assert(first_index(env, overrides[overrides.len() - 1].0) < env.len());
        lemma_first_index(env, key);
        let at = first_index(env, key);
        assert(before[at].0 == env[at].0);
        assert forall|j: int| 0 <= j < at implies before[j].0 != key by {
            assert(before[j].0 == env[j].0);
        }
        lemma_first_index_is(before, key, at);
        assert(after =~= before.update(at, (key, overrides.last().1)));
        assert forall|i: int| 0 <= i < env.len() implies (#[trigger] after[i]).0 == env[i].0 by {
            assert(before[i].0 == env[i].0);
        }
        assert forall|i: int|
            0 <= i < env.len() && first_index(env, env[i].0) != i implies #[trigger] after[i]
            == env[i] by {
            assert(before[i] == env[i]);
        }
    }
}

/// Setting the same overrides a second time changes nothing.
pub proof fn merging_again_changes_nothing(base: Vars, overrides: Vars)
    ensures
        merged(merged(base, overrides), overrides) == merged(base, overrides),
{
    let once = merged(base, overrides);
    let twice = merged(once, overrides);
    assert forall|j: int| 0 <= j < overrides.len() implies first_index(
        once,
        (#[trigger] overrides[j]).0,
    ) < once.len() by {
        lemma_named_is_found(base, overrides, j);
    }
    lemma_shape_is_kept(once, overrides);
    assert forall|i: int| 0 <= i < once.len() implies twice[i] == once[i] by {
        let name = once[i].0;
        assert(twice[i].0 == name);
        if first_index(once, name) == i {
            overrides_win(base, overrides, name);
            overrides_win(once, overrides, name);
            lemma_first_index(once, name);
            assert forall|j: int| 0 <= j < i implies twice[j].0 != name by {
                assert(twice[j].0 == once[j].0);
            }
            lemma_first_index_is(twice, name, i);
        }
    }
    assert(twice =~= once);
}

/// An environment that was merged into a base without repeated names, merged
/// into that base once more, stays as it is: preparing an environment twice is
/// preparing it once.
pub proof fn merged_environment_is_stable(base: Vars, overrides: Vars)
    requires
        names_distinct(base),
    ensures
        merged(base, merged(base, overrides)) == merged(base, overrides),
{
    let once = merged(base, overrides);
    names_stay_distinct(base, overrides);
    base_order_is_kept(base, overrides);
    lemma_merged_prefix(base, once, once.len() as int);
    assert(once.take(once.len() as int) =~= once);
}

/// Merging the first variables of an environment whose names begin with those
/// of the base puts them in their places.
proof fn lemma_merged_prefix(base: Vars, once: Vars, n: int)
    requires
        names_distinct(once),
        base.len() <= once.len(),
        forall|i: int| 0 <= i < base.len() ==> (#[trigger] once[i]).0 == base[i].0,
        0 <= n <= once.len(),
    ensures
        merged(base, once.take(n)) == if n < base.len() {
            once.take(n) + base.skip(n)
        } else {
            once.take(n)
        },
    decreases n,
{
    if n == 0 {
        assert(once.take(0).len() == 0);
        assert(base =~= once.take(0) + base.skip(0));
        if base.len() == 0 {
            assert(base =~= once.take(0));
        }
    } else {
        let part = once.take(n);
        assert(part.drop_last() =~= once.take(n - 1));
        lemma_merged_prefix(base, once, n - 1);
        let before = merged(base, once.take(n - 1));
        let key = once[n - 1].0;
        if n - 1 < base.len() {
            assert(before[n - 1] == base[n - 1]);
        }
        assert forall|j: int| 0 <= j < n - 1 implies before[j].0 != key by {
            assert(before[j] == once[j]);
        }
        lemma_first_index_is(before, key, n - 1);
        if n < base.len() {
            assert(merged(base, part) =~= once.take(n) + base.skip(n));
        } else {
            assert(merged(base, part) =~= once.take(n));
        }
    }
}

/// Finds the first variable named `key`, or the number of variables.
pub fn find_var(env: &[(String, String)], key: &String) -> (r: usize)
    ensures
        r == first_index(vars(env@), key@),
{
    let mut i: usize = 0;
    while i < env.len()
        invariant
            0 <= i <= env@.len(),
            forall|j: int| 0 <= j < i ==> vars(env@)[j].0 != key@,
        decreases env@.len() - i,
    {
        if env[i].0 == *key {
            proof {
                lemma_first_index_is(vars(env@), key@, i as int);
            }
            return i;
        }
        i = i + 1;
    }
    proof {
        lemma_first_index_is(vars(env@), key@, i as int);
    }
    i
}

/// Sets every override in `base`, in order.
pub fn merge_environment(
    base: Vec<(String, String)>,
    overrides: &Vec<(String, String)>,
) -> (r: Vec<(String, String)>)
    ensures
        vars(r@) == merged(vars(base@), vars(overrides@)),
{
    let mut combined = base;
    let mut i: usize = 0;
    assert(vars(overrides@).take(0) =~= Seq::empty());
    while i < overrides.len()
        invariant
            0 <= i <= overrides@.len(),
            vars(combined@) == merged(vars(base@), vars(overrides@).take(i as int)),
        decreases overrides@.len() - i,
    {
        let ghost before = combined@;
        let key = overrides[i].0.clone();
        let value = overrides[i].1.clone();
        let at: usize = find_var(combined.as_slice(), &key);
        proof {
            let so_far = vars(overrides@).take(i + 1);
            assert(so_far.drop_last() =~= vars(overrides@).take(i as int));
            assert(so_far.last() == (key@, value@));
            lemma_first_index(vars(before), key@);
        }
        if at < combined.len() {
            combined.set(at, (key, value));
        } else {
            combined.push((key, value));
        }
        assert(vars(combined@) =~= set_var(vars(before), key@, value@));
        i = i + 1;
    }
    assert(vars(overrides@).take(i as int) =~= vars(overrides@));
    combined
}

} // verus!
