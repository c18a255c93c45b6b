//! Reading an action's parameter list: the command, its own arguments, and the
//! reserved markers that set the child's working directory and environment.
use vstd::prelude::*;
use vstd::string::*;
use crate::env::{env_view, keys_unique, merge_env, merge_envs, EnvSeq};
use crate::text::{find_char, first_index_of, is_prefix, prefix_until, starts_with, suffix_from};

verus! {

/// Marker of an argument that sets the child's working directory.
pub const CWD_MARKER: &'static str = "--trx8-subprocess-cwd=";

/// Marker of an argument that adds one `key=value` to the child's environment.
pub const ENV_MARKER: &'static str = "--trx8-subprocess-env=";

/// The prefix that every reserved marker shares.
pub const SUBPROCESS_PREFIX: &'static str = "--trx8-subprocess";

/// The character views of a list of strings.
pub open spec fn strings_view(v: Seq<String>) -> Seq<Seq<char>> {
    v.map_values(|s: String| s@)
}

/// An argument that carries one of the reserved markers.
pub open spec fn is_reserved(a: Seq<char>) -> bool {
    is_prefix(CWD_MARKER@, a) || is_prefix(ENV_MARKER@, a)
}

/// The working directory set by the first cwd marker at position `i` or later.
pub open spec fn cwd_from(args: Seq<String>, i: int) -> Option<Seq<char>>
    decreases args.len() - i,
{
    if i >= args.len() {
        None
    } else if is_prefix(CWD_MARKER@, args[i]@) {
        Some(args[i]@.subrange(CWD_MARKER@.len() as int, args[i]@.len() as int))
    } else {
        cwd_from(args, i + 1)
    }
}

/// The `key=value` pair that an argument adds to the environment, split at the
/// first `=` after the marker; none where it carries no env marker or no `=`.
pub open spec fn env_entry(a: Seq<char>) -> Option<(Seq<char>, Seq<char>)> {
    if is_prefix(ENV_MARKER@, a) {
        let rest = a.subrange(ENV_MARKER@.len() as int, a.len() as int);
        match first_index_of(rest, '=') {
            Some(e) => Some((rest.subrange(0, e), rest.subrange(e + 1, rest.len() as int))),
            None => None,
        }
    } else {
        None
    }
}

/// The environment settings of the arguments from position `i` on, in order.
pub open spec fn env_overrides_from(args: Seq<String>, i: int) -> EnvSeq
    decreases args.len() - i,
{
    if i >= args.len() {
        Seq::empty()
    } else {
        let rest = env_overrides_from(args, i + 1);
        match env_entry(args[i]@) {
            Some(p) => seq![p] + rest,
            None => rest,
        }
    }
}

/// The arguments from position `i` on that carry no reserved marker, in order.
pub open spec fn forwarded_from(args: Seq<String>, i: int) -> Seq<Seq<char>>
    decreases args.len() - i,
{
    if i >= args.len() {
        Seq::empty()
    } else if is_reserved(args[i]@) {
        forwarded_from(args, i + 1)
    } else {
        seq![args[i]@] + forwarded_from(args, i + 1)
    }
}

proof fn lemma_forwarded_from(args: Seq<String>, i: int)
    requires
        i >= 0,
    ensures
        forall|j: int| 0 <= j < forwarded_from(args, i).len() ==> !is_reserved(#[trigger] forwarded_from(args, i)[j]),
        forall|k: int| i <= k < args.len() && !is_reserved(args[k]@) ==> forwarded_from(args, i).contains(#[trigger] args[k]@),
    decreases args.len() - i,
{
    if i < args.len() {
        lemma_forwarded_from(args, i + 1);
        let rest = forwarded_from(args, i + 1);
        if !is_reserved(args[i]@) {
            let f = seq![args[i]@] + rest;
            assert forall|j: int| 0 <= j < f.len() implies !is_reserved(#[trigger] f[j]) by {
                if j > 0 {
                    assert(f[j] == rest[j - 1]);
                }
            }
            assert forall|k: int| i <= k < args.len() && !is_reserved(args[k]@) implies f.contains(#[trigger] args[k]@) by {
                if k == i {
                    assert(f[0] == args[k]@);
                } else {
                    let w = choose|w: int| 0 <= w < rest.len() && rest[w] == args[k]@;
                    assert(f[w + 1] == args[k]@);
                }
            }
        }
    }
}

/// The arguments forwarded to a child never carry a reserved marker, and every
/// argument after the command that carries none is forwarded.
pub proof fn lemma_markers_stripped(args: Seq<String>)
    ensures
        forall|j: int| 0 <= j < forwarded_from(args, 1).len() ==> !is_reserved(#[trigger] forwarded_from(args, 1)[j]),
        forall|k: int| 1 <= k < args.len() && !is_reserved(args[k]@) ==> forwarded_from(args, 1).contains(#[trigger] args[k]@),
{
    lemma_forwarded_from(args, 1);
}

/// The arguments from position `i` on that do not start with the prefix of the
/// reserved markers, in order.
pub open spec fn unprefixed_from(args: Seq<String>, i: int) -> Seq<Seq<char>>
    decreases args.len() - i,
{
    if i >= args.len() {
        Seq::empty()
    } else if is_prefix(SUBPROCESS_PREFIX@, args[i]@) {
        unprefixed_from(args, i + 1)
    } else {
        seq![args[i]@] + unprefixed_from(args, i + 1)
    }
}

/// Every argument, the command included, that does not start with the prefix
/// of the reserved markers, in order.
pub fn unprefixed_args(args: &[String]) -> (r: Vec<String>)
    ensures
        strings_view(r@) == unprefixed_from(args@, 0),
{
    let mut r: Vec<String> = Vec::new();
    let mut i: usize = 0;
    while i < args.len()
        invariant
            strings_view(r@) + unprefixed_from(args@, i as int) == unprefixed_from(args@, 0),
        decreases args.len() - i,
    {
        if !starts_with(args[i].as_str(), SUBPROCESS_PREFIX) {
            let ghost before = r@;
            r.push(args[i].clone());
            proof {
                assert(strings_view(r@) =~= strings_view(before).push(args@[i as int]@));
                assert(strings_view(r@) + unprefixed_from(args@, i + 1)
                    =~= strings_view(before) + unprefixed_from(args@, i as int));
            }
        }
        i = i + 1;
    }
    assert(strings_view(r@) + unprefixed_from(args@, i as int) =~= strings_view(r@));
    r
}

/// The working directory for the child: the one that a cwd marker after the
/// command sets, else `current_dir`.
pub fn get_cwd(args: &[String], current_dir: &String) -> (r: String)
    ensures
        r@ == match cwd_from(args@, 1) {
            Some(d) => d,
            None => current_dir@,
        },
{
    let mut i: usize = 1;
    while i < args.len()
        invariant
            i >= 1,
            cwd_from(args@, i as int) == cwd_from(args@, 1),
        decreases args.len() - i,
    {
        if starts_with(args[i].as_str(), CWD_MARKER) {
            return suffix_from(args[i].as_str(), CWD_MARKER.unicode_len());
        }
        i = i + 1;
    }
    current_dir.clone()
}

/// The `key=value` pair that one argument adds to the environment, if any.
pub fn parse_env_arg(a: &String) -> (r: Option<(String, String)>)
    ensures
        match r {
            Some(p) => env_entry(a@) == Some((p.0@, p.1@)),
            None => env_entry(a@) is None,
        },
{
    if !starts_with(a.as_str(), ENV_MARKER) {
        return None;
    }
    let rest = suffix_from(a.as_str(), ENV_MARKER.unicode_len());
    let n = rest.as_str().unicode_len();
    match find_char(rest.as_str(), '=') {
        Some(e) => {
            let key = prefix_until(rest.as_str(), e);
            let value = suffix_from(rest.as_str(), e + 1);
            Some((key, value))
        },
        None => None,
    }
}

/// The environment settings that the arguments after the command carry, in order.
pub fn env_overrides(args: &[String]) -> (r: Vec<(String, String)>)
    ensures
        env_view(r@) == env_overrides_from(args@, 1),
{
    let mut r: Vec<(String, String)> = Vec::new();
    let mut i: usize = 1;
    while i < args.len()
        invariant
            i >= 1,
            env_view(r@) + env_overrides_from(args@, i as int) == env_overrides_from(args@, 1),
        decreases args.len() - i,
    {
        let ghost before = r@;
        match parse_env_arg(&args[i]) {
            Some(p) => {
                r.push(p);
                proof {
                    assert(env_view(r@) =~= env_view(before).push((p.0@, p.1@)));
                    assert(env_view(r@) + env_overrides_from(args@, i + 1)
                        =~= env_view(before) + env_overrides_from(args@, i as int));
                }
            },
            None => {},
        }
        i = i + 1;
    }
    assert(env_view(r@) + env_overrides_from(args@, i as int) =~= env_view(r@));
    r
}

/// The child's environment: `base`, with the settings that the arguments carry
/// applied in order, a later setting of a key replacing the earlier value.
pub fn get_extra_envs(args: &[String], base: &Vec<(String, String)>) -> (r: Vec<(String, String)>)
    ensures
        env_view(r@) == merge_env(env_view(base@), env_overrides_from(args@, 1)),
        keys_unique(env_view(base@)) ==> keys_unique(env_view(r@)),
{
    let overrides = env_overrides(args);
    merge_envs(base, &overrides)
}

/// The arguments after the command that carry no reserved marker, in order.
pub fn forwarded_args(args: &[String]) -> (r: Vec<String>)
    ensures
        strings_view(r@) == forwarded_from(args@, 1),
{
    let mut r: Vec<String> = Vec::new();
    let mut i: usize = 1;
    while i < args.len()
        invariant
            i >= 1,
            strings_view(r@) + forwarded_from(args@, i as int) == forwarded_from(args@, 1),
        decreases args.len() - i,
    {
        let a = args[i].as_str();
        if !starts_with(a, CWD_MARKER) && !starts_with(a, ENV_MARKER) {
            let ghost before = r@;
            r.push(args[i].clone());
            proof {
                assert(strings_view(r@) =~= strings_view(before).push(args@[i as int]@));
                assert(strings_view(r@) + forwarded_from(args@, i + 1)
                    =~= strings_view(before) + forwarded_from(args@, i as int));
            }
        }
        i = i + 1;
    }
    assert(strings_view(r@) + forwarded_from(args@, i as int) =~= strings_view(r@));
    r
}

} // verus!
