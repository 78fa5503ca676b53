use vstd::prelude::*;
use crate::config::EnvVars;

verus! {

/// The mapping that a list of variables defines: a later entry overrides an
/// earlier one with the same key.
pub open spec fn env_map(s: Seq<(String, String)>) -> Map<Seq<char>, Seq<char>>
    decreases s.len(),
{
    if s.len() == 0 {
        Map::empty()
    } else {
        env_map(s.drop_last()).insert(s.last().0@, s.last().1@)
    }
}

/// No key occurs twice.
pub open spec fn keys_unique(s: Seq<(String, String)>) -> bool {
    forall|i: int, j: int| 0 <= i < j < s.len() ==> (#[trigger] s[i]).0@ != (#[trigger] s[j]).0@
}

/// The environment of a process: the global variables, overridden key by key by
/// the process's own.
pub open spec fn merged_env(global: Seq<(String, String)>, own: Seq<(String, String)>) -> Map<Seq<char>, Seq<char>> {
    env_map(global).union_prefer_right(env_map(own))
}

pub proof fn lemma_env_map_dom(s: Seq<(String, String)>, k: Seq<char>)
    ensures
        env_map(s).contains_key(k) <==> exists|i: int| 0 <= i < s.len() && (#[trigger] s[i]).0@ == k,
    decreases s.len(),
{
    if s.len() > 0 {
        lemma_env_map_dom(s.drop_last(), k);
        if env_map(s.drop_last()).contains_key(k) {
            let i = choose|i: int| 0 <= i < s.drop_last().len() && (#[trigger] s.drop_last()[i]).0@ == k;
            assert(s[i] == s.drop_last()[i]);
        }
        if exists|i: int| 0 <= i < s.len() && (#[trigger] s[i]).0@ == k {
            let i = choose|i: int| 0 <= i < s.len() && (#[trigger] s[i]).0@ == k;
            if i < s.len() - 1 {
                assert(s.drop_last()[i] == s[i]);
            }
        }
    }
}

pub proof fn lemma_env_map_at(s: Seq<(String, String)>, i: int)
    requires
        keys_unique(s),
        0 <= i < s.len(),
    ensures
        env_map(s).contains_key(s[i].0@),
        env_map(s)[s[i].0@] == s[i].1@,
    decreases s.len(),
{
    if i < s.len() - 1 {
        assert(s.drop_last()[i] == s[i]);
        lemma_env_map_at(s.drop_last(), i);
    }
}

/// Overriding by a list appended at the end.
pub proof fn lemma_env_map_concat(a: Seq<(String, String)>, b: Seq<(String, String)>)
    ensures
        env_map(a + b) == env_map(a).union_prefer_right(env_map(b)),
    decreases b.len(),
{
    if b.len() == 0 {
        assert(a + b =~= a);
        assert(env_map(a).union_prefer_right(env_map(b)) =~= env_map(a));
    } else {
        lemma_env_map_concat(a, b.drop_last());
        assert((a + b).drop_last() =~= a + b.drop_last());
        assert(env_map(a + b) =~= env_map(a).union_prefer_right(env_map(b)));
    }
}

/// Sets `key` to `value` in a list without repeated keys: in place if the key
/// is there, at the end otherwise.
fn set_var(vars: &mut EnvVars, key: &String, value: &String)
    requires
        keys_unique(old(vars)@),
    ensures
        keys_unique(final(vars)@),
        env_map(final(vars)@) == env_map(old(vars)@).insert(key@, value@),
{
    let mut i: usize = 0;
    while i < vars.len()
        invariant
            i <= vars@.len(),
            vars@ == old(vars)@,
            keys_unique(vars@),
            forall|j: int| 0 <= j < i ==> (#[trigger] vars@[j]).0@ != key@,
        decreases vars@.len() - i,
    {
        if vars[i].0 == *key {
            let ghost before = vars@;
            vars.set(i, (key.clone(), value.clone()));
            proof {
                let after = vars@;
                assert(before[i as int].0@ == key@);
                assert forall|a: int, b: int| 0 <= a < b < after.len() implies (#[trigger] after[a]).0@ != (#[trigger] after[b]).0@ by {
                    if a != i && b != i {
                        assert(after[a] == before[a] && after[b] == before[b]);
                    } else if a == i {
                        assert(after[b] == before[b]);
                    } else {
                        assert(after[a] == before[a]);
                    }
                }
                assert(keys_unique(after));
                assert forall|k: Seq<char>| #[trigger] env_map(after).contains_key(k) == env_map(before).insert(key@, value@).contains_key(k) by {
                    lemma_env_map_dom(after, k);
                    lemma_env_map_dom(before, k);
                    if exists|j: int| 0 <= j < after.len() && (#[trigger] after[j]).0@ == k {
                        let j = choose|j: int| 0 <= j < after.len() && (#[trigger] after[j]).0@ == k;
                        if j != i {
                            assert(before[j] == after[j]);
                        }
                    }
                    if exists|j: int| 0 <= j < before.len() && (#[trigger] before[j]).0@ == k {
                        let j = choose|j: int| 0 <= j < before.len() && (#[trigger] before[j]).0@ == k;
                        if j != i {
                            assert(before[j] == after[j]);
                        }
                    }
                }
                assert forall|k: Seq<char>| #[trigger] env_map(after).contains_key(k) implies env_map(after)[k] == env_map(before).insert(key@, value@)[k] by {
                    lemma_env_map_dom(after, k);
                    let j = choose|j: int| 0 <= j < after.len() && (#[trigger] after[j]).0@ == k;
                    lemma_env_map_at(after, j);
                    if j != i {
                        assert(before[j] == after[j]);
                        lemma_env_map_at(before, j);
                    }
                }
                assert(env_map(after) =~= env_map(before).insert(key@, value@));
            }
            return;
        }
        i = i + 1;
    }
    vars.push((key.clone(), value.clone()));
    proof {
        assert(vars@.drop_last() =~= old(vars)@);
        assert(keys_unique(vars@));
    }
}

/// The variables of a process: `global` overridden key by key by `own`, each key
/// once, in the order in which keys first appear.
pub fn merge_env(global: &EnvVars, own: &EnvVars) -> (r: EnvVars)
    ensures
        keys_unique(r@),
        env_map(r@) == env_map(global@ + own@),
        env_map(r@) == merged_env(global@, own@),
{
    let mut r: EnvVars = Vec::new();
    let mut i: usize = 0;
    while i < global.len()
        invariant
            i <= global@.len(),
            keys_unique(r@),
            env_map(r@) == env_map(global@.subrange(0, i as int)),
        decreases global@.len() - i,
    {
        set_var(&mut r, &global[i].0, &global[i].1);
        proof {
            assert(global@.subrange(0, i + 1).drop_last() =~= global@.subrange(0, i as int));
        }
        i = i + 1;
    }
    assert(global@.subrange(0, global@.len() as int) =~= global@);
    let mut k: usize = 0;
    while k < own.len()
        invariant
            k <= own@.len(),
            keys_unique(r@),
            env_map(r@) == env_map(global@ + own@.subrange(0, k as int)),
        decreases own@.len() - k,
    {
        set_var(&mut r, &own[k].0, &own[k].1);
        proof {
            assert((global@ + own@.subrange(0, k + 1)).drop_last() =~= global@ + own@.subrange(0, k as int));
        }
        k = k + 1;
    }
    assert(own@.subrange(0, own@.len() as int) =~= own@);
    proof {
        lemma_env_map_concat(global@, own@);
    }
    r
}

} // verus!
