//! Environment variable lists: name/value pairs, kept in insertion order.
use vstd::prelude::*;

use crate::text::{copy_str, opt_view, str_eq};

verus! {

/// An environment list's pairs.
pub type EnvView = Seq<(Seq<char>, Seq<char>)>;

/// The entries of an environment list as plain values.
pub open spec fn env_view(env: Seq<(String, String)>) -> EnvView {
    env.map_values(|e: (String, String)| (e.0@, e.1@))
}

/// The index of the first entry named `name`.
pub open spec fn first_index(env: EnvView, name: Seq<char>) -> Option<int>
    decreases env.len(),
{
    if env.len() == 0 {
        None
    } else {
        match first_index(env.drop_last(), name) {
            Some(i) => Some(i),
            None => if env.last().0 == name {
                Some(env.len() - 1)
            } else {
                None
            },
        }
    }
}

/// The value of `name` (its first entry).
pub open spec fn env_lookup(env: EnvView, name: Seq<char>) -> Option<Seq<char>> {
    match first_index(env, name) {
        Some(i) => Some(env[i].1),
        None => None,
    }
}

/// `env` with `name` set to `value`: the entry replaced in place where the
/// name is present, else appended.
pub open spec fn env_with(env: EnvView, name: Seq<char>, value: Seq<char>) -> EnvView {
    match first_index(env, name) {
        Some(i) => env.update(i, (name, value)),
        None => env.push((name, value)),
    }
}

pub proof fn lemma_first_index_bounds(env: EnvView, name: Seq<char>)
    ensures
        first_index(env, name) matches Some(i) ==> 0 <= i < env.len() && env[i].0 == name,
    decreases env.len(),
{
    if env.len() > 0 {
        lemma_first_index_bounds(env.drop_last(), name);
    }
}

proof fn lemma_first_index_extend(env: EnvView, name: Seq<char>, j: int)
    requires
        0 <= j <= env.len(),
        first_index(env.take(j), name) is Some,
    ensures
        first_index(env, name) == first_index(env.take(j), name),
    decreases env.len() - j,
{
    if j == env.len() {
        assert(env.take(j) =~= env);
    } else {
        assert(env.take(j + 1).drop_last() =~= env.take(j));
        lemma_first_index_extend(env, name, j + 1);
    }
}

fn env_index(env: &Vec<(String, String)>, name: &str) -> (r: Option<usize>)
    ensures
        match r {
            Some(i) => first_index(env_view(env@), name@) == Some(i as int),
            None => first_index(env_view(env@), name@) is None,
        },
{
    let ghost v = env_view(env@);
    let mut i: usize = 0;
    while i < env.len()
        invariant
            i <= env@.len(),
            v == env_view(env@),
            first_index(v.take(i as int), name@) is None,
        decreases env.len() - i,
    {
        assert(v.take(i + 1).drop_last() =~= v.take(i as int));
        if str_eq(env[i].0.as_str(), name) {
            proof {
                lemma_first_index_extend(v, name@, i + 1);
            }
            return Some(i);
        }
        i = i + 1;
    }
    assert(v.take(v.len() as int) =~= v);
    None
}

/// Look up a variable (`HashMap::get`).
pub fn env_get(env: &Vec<(String, String)>, name: &str) -> (r: Option<String>)
    ensures
        opt_view(r) == env_lookup(env_view(env@), name@),
{
    match env_index(env, name) {
        Some(i) => {
            proof {
                lemma_first_index_bounds(env_view(env@), name@);
            }
            Some(copy_str(env[i].1.as_str()))
        },
        None => None,
    }
}

/// Set `name` to `value` (`HashMap::insert`).
pub fn env_set(env: &mut Vec<(String, String)>, name: &str, value: &str)
    ensures
        env_view(final(env)@) == env_with(env_view(old(env)@), name@, value@),
{
    let ghost start = env_view(env@);
    match env_index(env, name) {
        Some(i) => {
            proof {
                lemma_first_index_bounds(start, name@);
            }
            env.set(i, (copy_str(name), copy_str(value)));
        },
        None => {
            env.push((copy_str(name), copy_str(value)));
        },
    }
    assert(env_view(env@) =~= env_with(start, name@, value@));
}

proof fn lemma_first_index_char(env: EnvView, name: Seq<char>)
    ensures
        first_index(env, name) matches Some(i) ==> 0 <= i < env.len() && env[i].0 == name && forall|
            j: int,
        | 0 <= j < i ==> #[trigger] env[j].0 != name,
        first_index(env, name) is None ==> forall|j: int| 0 <= j < env.len() ==> #[trigger] env[j].0
            != name,
    decreases env.len(),
{
    if env.len() > 0 {
        let d = env.drop_last();
        lemma_first_index_char(d, name);
        assert forall|j: int| 0 <= j < d.len() implies d[j] == env[j] by {}
    }
}

/// The first entry named `name` is at `i` when `i` holds it and no earlier one does.
proof fn lemma_first_index_at(env: EnvView, name: Seq<char>, i: int)
    requires
        0 <= i < env.len(),
        env[i].0 == name,
        forall|j: int| 0 <= j < i ==> #[trigger] env[j].0 != name,
    ensures
        first_index(env, name) == Some(i),
{
    lemma_first_index_char(env, name);
    if let Some(k) = first_index(env, name) {
        if k < i {
            assert(env[k].0 != name);
        } else if k > i {
            assert(env[i].0 != name);
        }
    }
}

/// No entry named `name`: there is no first one.
proof fn lemma_first_index_absent(env: EnvView, name: Seq<char>)
    requires
        forall|j: int| 0 <= j < env.len() ==> #[trigger] env[j].0 != name,
    ensures
        first_index(env, name) is None,
{
    lemma_first_index_char(env, name);
}

/// Setting a variable and then reading it gives the value set; every other
/// variable reads as before.
pub proof fn law_get_after_set(env: EnvView, name: Seq<char>, value: Seq<char>, other: Seq<char>)
    requires
        other != name,
    ensures
        env_lookup(env_with(env, name, value), name) == Some(value),
        env_lookup(env_with(env, name, value), other) == env_lookup(env, other),
{
    lemma_first_index_char(env, name);
    lemma_first_index_char(env, other);
    let w = env_with(env, name, value);
    match first_index(env, name) {
        Some(i) => {
            assert(w == env.update(i, (name, value)));
            assert forall|j: int| 0 <= j < env.len() && j != i implies #[trigger] w[j] == env[j] by {}
            assert forall|j: int| 0 <= j < i implies #[trigger] w[j].0 != name by {
                assert(w[j] == env[j]);
            }
            lemma_first_index_at(w, name, i);
            match first_index(env, other) {
                Some(k) => {
                    assert(k != i);
                    assert forall|j: int| 0 <= j < k implies #[trigger] w[j].0 != other by {
                        if j != i {
                            assert(w[j] == env[j]);
                            assert(env[j].0 != other);
                        }
                    }
                    assert(w[k] == env[k]);
                    lemma_first_index_at(w, other, k);
                },
                None => {
                    assert forall|j: int| 0 <= j < w.len() implies #[trigger] w[j].0 != other by {
                        if j != i {
                            assert(w[j] == env[j]);
                            assert(env[j].0 != other);
                        }
                    }
                    lemma_first_index_absent(w, other);
                },
            }
        },
        None => {
            let n = env.len() as int;
            assert(w == env.push((name, value)));
            assert forall|j: int| 0 <= j < n implies #[trigger] w[j] == env[j] by {}
            assert forall|j: int| 0 <= j < n implies #[trigger] w[j].0 != name by {
                assert(w[j] == env[j]);
            }
            lemma_first_index_at(w, name, n);
            match first_index(env, other) {
                Some(k) => {
                    assert forall|j: int| 0 <= j < k implies #[trigger] w[j].0 != other by {
                        assert(w[j] == env[j]);
                        assert(env[j].0 != other);
                    }
                    assert(w[k] == env[k]);
                    lemma_first_index_at(w, other, k);
                },
                None => {
                    assert forall|j: int| 0 <= j < w.len() implies #[trigger] w[j].0 != other by {
                        if j < n {
                            assert(w[j] == env[j]);
                            assert(env[j].0 != other);
                        }
                    }
                    lemma_first_index_absent(w, other);
                },
            }
        },
    }
}

} // verus!
