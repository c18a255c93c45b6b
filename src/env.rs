//! Environment sets: ordered `key=value` lists in which a later setting of a key
//! replaces the earlier one.
use vstd::prelude::*;

verus! {

/// An environment as the contracts see it.
pub type EnvSeq = Seq<(Seq<char>, Seq<char>)>;

/// The view of an environment held as pairs of strings.
pub open spec fn env_view(v: Seq<(String, String)>) -> EnvSeq {
    v.map_values(|p: (String, String)| (p.0@, p.1@))
}

/// The last position at which `k` is set in `env`, or -1.
pub open spec fn key_pos(env: EnvSeq, k: Seq<char>) -> int
    decreases env.len(),
{
    if env.len() == 0 {
        -1
    } else if env.last().0 == k {
        env.len() - 1
    } else {
        key_pos(env.drop_last(), k)
    }
}

/// The value that `env` gives to `k`: the last one set.
pub open spec fn lookup(env: EnvSeq, k: Seq<char>) -> Option<Seq<char>> {
    let p = key_pos(env, k);
    if p >= 0 {
        Some(env[p].1)
    } else {
        None
    }
}

/// Each key is set at most once.
pub open spec fn keys_unique(env: EnvSeq) -> bool {
    forall|i: int, j: int| 0 <= i < j < env.len() ==> env[i].0 != env[j].0
}

/// Sets `k` to `v`: in place where `k` is already set, else at the end.
pub open spec fn set_var(env: EnvSeq, k: Seq<char>, v: Seq<char>) -> EnvSeq {
    let p = key_pos(env, k);
    if p >= 0 {
        env.update(p, (k, v))
    } else {
        env.push((k, v))
    }
}

/// `base` with each of `overrides` set in turn.
pub open spec fn merge_env(base: EnvSeq, overrides: EnvSeq) -> EnvSeq
    decreases overrides.len(),
{
    if overrides.len() == 0 {
        base
    } else {
        let rest = merge_env(base, overrides.drop_last());
        set_var(rest, overrides.last().0, overrides.last().1)
    }
}

proof fn lemma_key_pos(env: EnvSeq, k: Seq<char>)
    ensures
        -1 <= key_pos(env, k) < env.len(),
        key_pos(env, k) >= 0 ==> env[key_pos(env, k)].0 == k,
        forall|j: int| key_pos(env, k) < j < env.len() ==> env[j].0 != k,
        key_pos(env, k) == -1 ==> forall|j: int| 0 <= j < env.len() ==> env[j].0 != k,
    decreases env.len(),
{
    if env.len() > 0 {
        lemma_key_pos(env.drop_last(), k);
        assert forall|j: int| 0 <= j < env.len() - 1 implies env.drop_last()[j] == env[j] by {}
    }
}

/// `key_pos` depends on the keys alone.
proof fn lemma_key_pos_same_keys(a: EnvSeq, b: EnvSeq, k: Seq<char>)
    requires
        a.len() == b.len(),
        forall|j: int| 0 <= j < a.len() ==> a[j].0 == b[j].0,
    ensures
        key_pos(a, k) == key_pos(b, k),
    decreases a.len(),
{
    if a.len() > 0 {
        lemma_key_pos_same_keys(a.drop_last(), b.drop_last(), k);
    }
}

proof fn lemma_key_pos_push(env: EnvSeq, e: (Seq<char>, Seq<char>), k: Seq<char>)
    ensures
        key_pos(env.push(e), k) == if e.0 == k { env.len() as int } else { key_pos(env, k) },
{
    assert(env.push(e).drop_last() =~= env);
}

/// Setting a variable changes the value of that key and of no other.
pub proof fn lemma_set_var_lookup(env: EnvSeq, k: Seq<char>, v: Seq<char>, q: Seq<char>)
    ensures
        lookup(set_var(env, k, v), q) == if q == k { Some(v) } else { lookup(env, q) },
{
    lemma_key_pos(env, k);
    let p = key_pos(env, k);
    if p >= 0 {
        let u = env.update(p, (k, v));
        assert forall|j: int| 0 <= j < env.len() implies env[j].0 == u[j].0 by {}
        lemma_key_pos_same_keys(env, u, q);
        lemma_key_pos(env, q);
        if q != k {
            let pq = key_pos(env, q);
            if pq >= 0 {
                assert(u[pq] == env[pq]);
            }
        }
    } else {
        lemma_key_pos_push(env, (k, v), q);
        lemma_key_pos(env, q);
        let pq = key_pos(env, q);
        if q != k && pq >= 0 {
            assert(env.push((k, v))[pq] == env[pq]);
        }
    }
}

/// Setting a variable keeps the keys unique.
pub proof fn lemma_set_var_unique(env: EnvSeq, k: Seq<char>, v: Seq<char>)
    requires
        keys_unique(env),
    ensures
        keys_unique(set_var(env, k, v)),
{
    lemma_key_pos(env, k);
}

/// A caller's override wins over the base value of the same key, and every key
/// that no override sets keeps its base value.
pub proof fn lemma_merge_env_lookup(base: EnvSeq, overrides: EnvSeq, q: Seq<char>)
    ensures
        lookup(merge_env(base, overrides), q) == match lookup(overrides, q) {
            Some(v) => Some(v),
            None => lookup(base, q),
        },
    decreases overrides.len(),
{
    if overrides.len() > 0 {
        let last = overrides.last();
        lemma_merge_env_lookup(base, overrides.drop_last(), q);
        lemma_key_pos(overrides.drop_last(), q);
        if last.0 != q {
            let p = key_pos(overrides.drop_last(), q);
            if p >= 0 {
                assert(overrides[p] == overrides.drop_last()[p]);
            }
        }
        lemma_set_var_lookup(merge_env(base, overrides.drop_last()), last.0, last.1, q);
    }
}

/// Merging into a base whose keys are unique leaves them unique.
pub proof fn lemma_merge_env_unique(base: EnvSeq, overrides: EnvSeq)
    requires
        keys_unique(base),
    ensures
        keys_unique(merge_env(base, overrides)),
    decreases overrides.len(),
{
    if overrides.len() > 0 {
        lemma_merge_env_unique(base, overrides.drop_last());
        let last = overrides.last();
        lemma_set_var_unique(merge_env(base, overrides.drop_last()), last.0, last.1);
    }
}

/// Finds the last position at which `key` is set in `env`.
fn find_key(env: &Vec<(String, String)>, key: &String) -> (r: Option<usize>)
    ensures
        match r {
            Some(p) => key_pos(env_view(env@), key@) == p as int,
            None => key_pos(env_view(env@), key@) == -1,
        },
{
    let ghost ev = env_view(env@);
    let mut i: usize = env.len();
    assert(ev.subrange(0, i as int) =~= ev);
    while i > 0
        invariant
            i <= env.len(),
            ev == env_view(env@),
            ev.len() == env.len(),
            key_pos(ev, key@) == key_pos(ev.subrange(0, i as int), key@),
        decreases i,
    {
        let ghost sub = ev.subrange(0, i as int);
        if env[i - 1].0 == *key {
            return Some(i - 1);
        }
        assert(sub.drop_last() =~= ev.subrange(0, i - 1));
        i = i - 1;
    }
    None
}

/// Sets `key` to `value` in `env`, in place where it is already set.
pub fn set_env_var(env: &mut Vec<(String, String)>, key: String, value: String)
    ensures
        env_view(final(env)@) == set_var(env_view(old(env)@), key@, value@),
{
    let ghost ev = env_view(env@);
    match find_key(env, &key) {
        Some(p) => {
            proof { lemma_key_pos(ev, key@); }
            env.set(p, (key, value));
            assert(env_view(env@) =~= ev.update(p as int, (key@, value@)));
        },
        None => {
            env.push((key, value));
            assert(env_view(env@) =~= ev.push((key@, value@)));
        },
    }
}

/// A copy of `env`, entry by entry.
pub fn copy_env(env: &Vec<(String, String)>) -> (r: Vec<(String, String)>)
    ensures
        env_view(r@) == env_view(env@),
{
    let mut r: Vec<(String, String)> = Vec::new();
    let mut i: usize = 0;
    while i < env.len()
        invariant
            i <= env.len(),
            env_view(r@) == env_view(env@).subrange(0, i as int),
        decreases env.len() - i,
    {
        let ghost before = r@;
        let k = env[i].0.clone();
        let v = env[i].1.clone();
        r.push((k, v));
        proof {
            assert(r@ == before.push((k, v)));
            assert(env_view(r@) =~= env_view(before).push((k@, v@)));
            assert(env_view(r@) =~= env_view(env@).subrange(0, i + 1));
        }
        i = i + 1;
    }
    assert(env_view(env@).subrange(0, env.len() as int) =~= env_view(env@));
    r
}

/// `base` with each of `overrides` set in turn, later settings winning.
pub fn merge_envs(base: &Vec<(String, String)>, overrides: &Vec<(String, String)>) -> (r: Vec<(String, String)>)
    ensures
        env_view(r@) == merge_env(env_view(base@), env_view(overrides@)),
        keys_unique(env_view(base@)) ==> keys_unique(env_view(r@)),
{
    proof {
        if keys_unique(env_view(base@)) {
            lemma_merge_env_unique(env_view(base@), env_view(overrides@));
        }
    }
    let mut r = copy_env(base);
    let mut i: usize = 0;
    while i < overrides.len()
        invariant
            i <= overrides.len(),
            env_view(r@) == merge_env(env_view(base@), env_view(overrides@).subrange(0, i as int)),
        decreases overrides.len() - i,
    {
        let ghost before = env_view(r@);
        let (k, v) = (overrides[i].0.clone(), overrides[i].1.clone());
        set_env_var(&mut r, k, v);
        proof {
            let ov = env_view(overrides@);
            assert(ov.subrange(0, i + 1).drop_last() =~= ov.subrange(0, i as int));
        }
        i = i + 1;
    }
    assert(env_view(overrides@).subrange(0, overrides.len() as int) =~= env_view(overrides@));
    r
}

} // verus!
