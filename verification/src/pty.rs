//! The command that vaultpipe runs in a pseudo-terminal, and the environment
//! it runs with.

use vstd::prelude::*;
use crate::env::{assigned, lemma_assigned_concat, pair_texts, EnvMap};

verus! {

/// What the child process is started with: the program, its arguments,
/// whether the inherited environment is cleared first, and the variables set
/// afterwards, in order (a later one replaces an earlier one of the same name).
pub struct CommandPlan {
    pub program: String,
    pub args: Vec<String>,
    pub clear_env: bool,
    pub env: Vec<(String, String)>,
}

/// The variables set before the env file's ones: `PATH` is kept when the
/// environment is cleared and the parent has a `PATH`.
pub open spec fn kept_path(clear_env: bool, inherited_path: Option<String>) -> Seq<(Seq<char>, Seq<char>)> {
    if clear_env && inherited_path is Some {
        seq![("PATH"@, inherited_path->0@)]
    } else {
        Seq::empty()
    }
}

/// The variables that the kept `PATH` sets.
pub open spec fn kept_path_map(clear_env: bool, inherited_path: Option<String>) -> Map<Seq<char>, Seq<char>> {
    if clear_env && inherited_path is Some {
        Map::<Seq<char>, Seq<char>>::empty().insert("PATH"@, inherited_path->0@)
    } else {
        Map::empty()
    }
}

/// The parent's `PATH` that a cleared environment keeps is its whole value,
/// set first; an environment that is not cleared, or a parent without
/// `PATH`, adds nothing before the env file's variables.
pub proof fn lemma_kept_path(clear_env: bool, inherited_path: Option<String>)
    ensures
        clear_env && inherited_path is Some ==> kept_path(clear_env, inherited_path) == seq![
            ("PATH"@, inherited_path->0@),
        ],
        clear_env && inherited_path is Some ==> kept_path_map(clear_env, inherited_path)["PATH"@]
            == inherited_path->0@,
        !(clear_env && inherited_path is Some) ==> kept_path(clear_env, inherited_path).len() == 0,
        !(clear_env && inherited_path is Some) ==> kept_path_map(clear_env, inherited_path)
            == Map::<Seq<char>, Seq<char>>::empty(),
{
}

/// Plans the command: the first word is the program, the rest its arguments.
/// When the environment is cleared, the parent's `PATH` (if it has one) is
/// set again before the variables of the env file.
pub fn build_command(
    command: &Vec<String>,
    env: &EnvMap,
    clear_env: bool,
    inherited_path: Option<String>,
) -> (r: CommandPlan)
    requires
        command@.len() >= 1,
    ensures
        r.program == command@[0],
        r.args@ == command@.skip(1),
        r.clear_env == clear_env,
        pair_texts(r.env@) == kept_path(clear_env, inherited_path) + pair_texts(env.pairs()),
        assigned(r.env@) == kept_path_map(clear_env, inherited_path).union_prefer_right(env@),
        clear_env && inherited_path is Some ==> r.env@.len() > 0 && r.env@[0].0@ == "PATH"@
            && r.env@[0].1 == inherited_path->0,
        !(clear_env && inherited_path is Some) ==> pair_texts(r.env@) == pair_texts(env.pairs()),
        r.env@.len() == kept_path(clear_env, inherited_path).len() + env.pairs().len(),
{
    let program = command[0].clone();
    let mut args: Vec<String> = Vec::new();
    let n = command.len();
    let mut i: usize = 1;
    while i < n
        invariant
            n == command@.len(),
            1 <= i <= n,
            args@ == command@.subrange(1, i as int),
        decreases n - i,
    {
        args.push(command[i].clone());
        proof {
            assert(command@.subrange(1, i + 1) =~= command@.subrange(1, i as int).push(command@[i as int]));
        }
        i = i + 1;
    }
    assert(command@.subrange(1, n as int) =~= command@.skip(1));
    let mut vars: Vec<(String, String)> = Vec::new();
    if clear_env {
        match inherited_path {
            Some(path) => {
                vars.push(("PATH".to_owned(), path));
            },
            None => {},
        }
    }
    assert(pair_texts(vars@) =~= kept_path(clear_env, inherited_path));
    assert(assigned(vars@) =~= kept_path_map(clear_env, inherited_path)) by {
        reveal_with_fuel(assigned, 2);
        if vars@.len() == 1 {
            assert(vars@.drop_last() =~= Seq::<(String, String)>::empty());
            assert(vars@.last().0@ == "PATH"@);
        }
    }
    let ghost start = pair_texts(vars@);
    let ghost start_vars = vars@;
    let entries = env.entries();
    let m = entries.len();
    let mut j: usize = 0;
    while j < m
        invariant
            m == entries@.len(),
            entries@ == env.pairs(),
            j <= m,
            pair_texts(vars@) == start + pair_texts(entries@.take(j as int)),
            vars@ == start_vars + entries@.take(j as int),
        decreases m - j,
    {
        let name = entries[j].0.clone();
        let value = entries[j].1.clone();
        let ghost before = vars@;
        vars.push((name, value));
        proof {
            assert(pair_texts(vars@) =~= pair_texts(before).push((name@, value@)));
            assert(pair_texts(entries@.take(j + 1)) =~= pair_texts(entries@.take(j as int)).push(
                (entries@[j as int].0@, entries@[j as int].1@),
            ));
            assert(vars@ =~= start_vars + entries@.take(j + 1));
        }
        j = j + 1;
    }
    assert(entries@.take(m as int) =~= entries@);
    proof {
        lemma_assigned_concat(start_vars, entries@);
    }
    CommandPlan { program, args, clear_env, env: vars }
}

} // verus!
