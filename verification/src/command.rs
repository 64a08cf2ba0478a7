//! The command line, working directory and environment of the shell to be
//! launched, assembled in a `portable_pty::CommandBuilder`.

use vstd::prelude::*;
use vstd::string::*;
use portable_pty::CommandBuilder;
use crate::policy::{blocked_env_vars, env_entries, filter_env, is_blocked, permitted_env};

verus! {

/// Makes `portable_pty::CommandBuilder` known as a type whose inside is not
/// looked at; what a builder holds is spoken of through the three names
/// below.
#[verifier::external_type_specification]
#[verifier::external_body]
pub struct ExCommandBuilder(portable_pty::CommandBuilder);

/// The argument vector that a builder holds, program first, each argument as
/// text.
pub uninterp spec fn command_argv(cmd: CommandBuilder) -> Seq<Seq<char>>;

/// The environment that a builder holds: the value of each variable by its
/// name, for the variables whose name and value are text.
pub uninterp spec fn command_env(cmd: CommandBuilder) -> Map<Seq<char>, Seq<char>>;

/// The working directory that a builder holds, if one was set.
pub uninterp spec fn command_cwd(cmd: CommandBuilder) -> Option<Seq<char>>;

/// `CommandBuilder::new`: a builder whose argument vector holds `program`
/// alone and whose working directory is not set.  Its environment is a copy
/// of this process's environment at the time of the call, of which nothing
/// is claimed.
#[verifier::external_body]
fn new_command(program: &str) -> (cmd: CommandBuilder)
    ensures
        command_argv(cmd) == seq![program@],
        command_cwd(cmd) is None,
{
    CommandBuilder::new(program)
}

/// `CommandBuilder::arg`: appends `arg` to the argument vector and leaves the
/// rest of the builder alone.  The method panics on a builder without a
/// program, which the precondition leaves out.
#[verifier::external_body]
fn push_arg(cmd: &mut CommandBuilder, arg: &str)
    requires
        command_argv(*old(cmd)).len() > 0,
    ensures
        command_argv(*final(cmd)) == command_argv(*old(cmd)).push(arg@),
        command_env(*final(cmd)) == command_env(*old(cmd)),
        command_cwd(*final(cmd)) == command_cwd(*old(cmd)),
{
    cmd.arg(arg)
}

/// `CommandBuilder::cwd`: sets the working directory to `dir` and leaves the
/// rest of the builder alone.
#[verifier::external_body]
fn set_cwd(cmd: &mut CommandBuilder, dir: &str)
    ensures
        command_cwd(*final(cmd)) == Some(dir@),
        command_argv(*final(cmd)) == command_argv(*old(cmd)),
        command_env(*final(cmd)) == command_env(*old(cmd)),
{
    cmd.cwd(dir)
}

/// `CommandBuilder::env`: sets the variable `key` to `value`, replacing any
/// value it had, and leaves every other variable and the rest of the builder
/// alone.  This is how the builder stores variables on Unix-like systems,
/// where a name is taken as it is written.
#[verifier::external_body]
fn set_env(cmd: &mut CommandBuilder, key: &str, value: &str)
    ensures
        command_env(*final(cmd)) == command_env(*old(cmd)).insert(key@, value@),
        command_argv(*final(cmd)) == command_argv(*old(cmd)),
        command_cwd(*final(cmd)) == command_cwd(*old(cmd)),
{
    cmd.env(key, value)
}

/// The flag that makes a shell start as a login shell.
pub open spec fn login_flag() -> Seq<char> {
    "-l"@
}

/// The name of the variable that tells programs the terminal type.
pub open spec fn term_key() -> Seq<char> {
    "TERM"@
}

/// The terminal type that every session announces.
pub open spec fn term_value() -> Seq<char> {
    "xterm-256color"@
}

/// The texts of a list of strings.
pub open spec fn texts(items: Seq<String>) -> Seq<Seq<char>> {
    Seq::new(items.len(), |i: int| items[i]@)
}

/// The arguments that follow the program: the login flag when the request
/// gave none, else the request's arguments as they are.
pub open spec fn shell_args(args: Seq<Seq<char>>) -> Seq<Seq<char>> {
    if args.len() == 0 {
        seq![login_flag()]
    } else {
        args
    }
}

/// `base` with each of `entries` set in turn, a later entry replacing an
/// earlier one of the same name.
pub open spec fn with_entries(
    base: Map<Seq<char>, Seq<char>>,
    entries: Seq<(Seq<char>, Seq<char>)>,
) -> Map<Seq<char>, Seq<char>>
    decreases entries.len(),
{
    if entries.len() == 0 {
        base
    } else {
        with_entries(base, entries.drop_last()).insert(entries.last().0, entries.last().1)
    }
}

/// The variables that a launch sets on top of the inherited environment: the
/// terminal type first, then the request's permitted entries in order.
pub open spec fn env_overlay(entries: Seq<(Seq<char>, Seq<char>)>) -> Map<Seq<char>, Seq<char>> {
    with_entries(Map::empty().insert(term_key(), term_value()), permitted_env(entries))
}

/// Completes a builder that holds the shell: appends the arguments, sets the
/// working directory where one is given, and lays the launch's variables
/// over the environment that the builder already holds.
pub fn configure_command(
    cmd: &mut CommandBuilder,
    args: &Vec<String>,
    cwd: &Option<String>,
    env: &Vec<(String, String)>,
)
    requires
        command_argv(*old(cmd)).len() > 0,
    ensures
        command_argv(*final(cmd)) == command_argv(*old(cmd)) + shell_args(texts(args@)),
        command_cwd(*final(cmd)) == match *cwd {
            Some(dir) => Some(dir@),
            None => command_cwd(*old(cmd)),
        },
        command_env(*final(cmd)) == command_env(*old(cmd)).union_prefer_right(
            env_overlay(env_entries(env@)),
        ),
{
    let ghost argv0 = command_argv(*cmd);
    let ghost env0 = command_env(*cmd);
    if args.len() == 0 {
        push_arg(cmd, "-l");
        assert(command_argv(*cmd) =~= argv0 + shell_args(texts(args@)));
    } else {
        let mut i: usize = 0;
        assert(argv0 + texts(args@).take(0) =~= argv0);
        while i < args.len()
            invariant
                i <= args@.len(),
                argv0.len() > 0,
                command_argv(*cmd) == argv0 + texts(args@).take(i as int),
                command_env(*cmd) == env0,
                command_cwd(*cmd) == command_cwd(*old(cmd)),
            decreases args@.len() - i,
        {
            push_arg(cmd, args[i].as_str());
            assert(command_argv(*cmd) =~= argv0 + texts(args@).take(i + 1));
            i += 1;
        }
        assert(texts(args@).take(i as int) =~= texts(args@));
    }
    match cwd {
        Some(dir) => set_cwd(cmd, dir.as_str()),
        None => {},
    }
    let kept = filter_env(env);
    let ghost permitted = env_entries(kept@);
    let ghost term = Map::<Seq<char>, Seq<char>>::empty().insert(term_key(), term_value());
    set_env(cmd, "TERM", "xterm-256color");
    let mut k: usize = 0;
    assert(permitted.take(0) =~= Seq::empty());
    assert(command_env(*cmd) =~= env0.union_prefer_right(with_entries(term, permitted.take(0))));
    while k < kept.len()
        invariant
            k <= kept@.len(),
            permitted == env_entries(kept@),
            term == Map::<Seq<char>, Seq<char>>::empty().insert(term_key(), term_value()),
            command_env(*cmd) == env0.union_prefer_right(
                with_entries(term, permitted.take(k as int)),
            ),
            command_argv(*cmd) == argv0 + shell_args(texts(args@)),
            command_cwd(*cmd) == match *cwd {
                Some(dir) => Some(dir@),
                None => command_cwd(*old(cmd)),
            },
        decreases kept@.len() - k,
    {
        proof {
            assert(permitted.take(k + 1).drop_last() =~= permitted.take(k as int));
            assert(permitted.take(k + 1).last() == permitted[k as int]);
        }
        let entry = &kept[k];
        set_env(cmd, entry.0.as_str(), entry.1.as_str());
        assert(command_env(*cmd) =~= env0.union_prefer_right(
            with_entries(term, permitted.take(k + 1)),
        ));
        k += 1;
    }
    assert(permitted.take(k as int) =~= permitted);
}

/// Assembles the command for `shell`: the shell as the program, then the
/// login flag or `args`; the working directory `cwd` where one is given; and
/// the launch's variables laid over this process's environment, which the
/// new builder inherits.
pub fn build_command(
    shell: &str,
    args: &Vec<String>,
    cwd: &Option<String>,
    env: &Vec<(String, String)>,
) -> (cmd: CommandBuilder)
    ensures
        command_argv(cmd) == seq![shell@] + shell_args(texts(args@)),
        command_cwd(cmd) == match *cwd {
            Some(dir) => Some(dir@),
            None => None,
        },
        env_overlay(env_entries(env@)).submap_of(command_env(cmd)),
{
    let mut cmd = new_command(shell);
    configure_command(&mut cmd, args, cwd, env);
    cmd
}

/// Setting entries whose names are all different from `key` leaves `key` as
/// the base has it.
proof fn lemma_with_entries_keeps(
    base: Map<Seq<char>, Seq<char>>,
    entries: Seq<(Seq<char>, Seq<char>)>,
    key: Seq<char>,
)
    requires
        forall|i: int| 0 <= i < entries.len() ==> (#[trigger] entries[i]).0 != key,
    ensures
        with_entries(base, entries).contains_key(key) == base.contains_key(key),
        base.contains_key(key) ==> with_entries(base, entries)[key] == base[key],
    decreases entries.len(),
{
    if entries.len() > 0 {
        let head = entries.drop_last();
        assert forall|i: int| 0 <= i < head.len() implies (#[trigger] head[i]).0 != key by {
            assert(head[i] == entries[i]);
        }
        lemma_with_entries_keeps(base, head, key);
        assert(entries.last() == entries[entries.len() - 1]);
    }
}

/// The launch's variables never include a blocked one, whatever the request
/// asked for.
pub proof fn lemma_overlay_skips_blocked(entries: Seq<(Seq<char>, Seq<char>)>, key: Seq<char>)
    requires
        is_blocked(key),
    ensures
        !env_overlay(entries).contains_key(key),
{
    let permitted = permitted_env(entries);
    let term = Map::<Seq<char>, Seq<char>>::empty().insert(term_key(), term_value());
    assert forall|i: int| 0 <= i < permitted.len() implies (#[trigger] permitted[i]).0 != key by {
        entries.lemma_filter_pred(|e: (Seq<char>, Seq<char>)| !is_blocked(e.0), i);
    }
    lemma_with_entries_keeps(term, permitted, key);
    assert(!term.contains_key(key)) by {
        reveal_strlit("TERM");
        reveal_strlit("LD_PRELOAD");
        reveal_strlit("LD_LIBRARY_PATH");
        reveal_strlit("DYLD_INSERT_LIBRARIES");
        reveal_strlit("DYLD_LIBRARY_PATH");
        reveal_strlit("DYLD_FALLBACK_LIBRARY_PATH");
        let i = choose|i: int| 0 <= i < blocked_env_vars().len() && blocked_env_vars()[i] == key;
        assert(key.len() != term_key().len());
    }
}

/// No request changes a blocked variable: laying the launch's variables over
/// an environment leaves every blocked variable as it was there, set or not.
pub proof fn lemma_blocked_variables_untouched(
    inherited: Map<Seq<char>, Seq<char>>,
    entries: Seq<(Seq<char>, Seq<char>)>,
    key: Seq<char>,
)
    requires
        is_blocked(key),
    ensures
        inherited.union_prefer_right(env_overlay(entries)).contains_key(key)
            == inherited.contains_key(key),
        inherited.contains_key(key) ==> inherited.union_prefer_right(env_overlay(entries))[key]
            == inherited[key],
{
    lemma_overlay_skips_blocked(entries, key);
}

/// Among the request's permitted entries, one that no later entry of the
/// same name follows is among the launch's variables, with its value.
pub proof fn lemma_overlay_holds_permitted(entries: Seq<(Seq<char>, Seq<char>)>, i: int)
    requires
        0 <= i < permitted_env(entries).len(),
        forall|j: int|
            i < j < permitted_env(entries).len() ==> (#[trigger] permitted_env(entries)[j]).0
                != permitted_env(entries)[i].0,
    ensures
        env_overlay(entries).contains_key(permitted_env(entries)[i].0),
        env_overlay(entries)[permitted_env(entries)[i].0] == permitted_env(entries)[i].1,
{
    let term = Map::<Seq<char>, Seq<char>>::empty().insert(term_key(), term_value());
    lemma_with_entries_holds_last(term, permitted_env(entries), i);
}

/// Setting entries in turn leaves each name with the value of its last
/// entry.
proof fn lemma_with_entries_holds_last(
    base: Map<Seq<char>, Seq<char>>,
    entries: Seq<(Seq<char>, Seq<char>)>,
    i: int,
)
    requires
        0 <= i < entries.len(),
        forall|j: int| i < j < entries.len() ==> (#[trigger] entries[j]).0 != entries[i].0,
    ensures
        with_entries(base, entries).contains_key(entries[i].0),
        with_entries(base, entries)[entries[i].0] == entries[i].1,
    decreases entries.len(),
{
    if i < entries.len() - 1 {
        let head = entries.drop_last();
        assert(head[i] == entries[i]);
        assert forall|j: int| i < j < head.len() implies (#[trigger] head[j]).0 != head[i].0 by {
            assert(head[j] == entries[j]);
        }
        lemma_with_entries_holds_last(base, head, i);
        assert(entries.last() == entries[entries.len() - 1]);
    }
}

} // verus!
