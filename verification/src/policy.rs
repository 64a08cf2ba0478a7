//! The launch policy: which shells may run, which directories they may start
//! in, and which environment variables a request may set.  Every check here
//! runs before any terminal or process is created.

use vstd::prelude::*;
use vstd::string::*;
use crate::text::{decimal, decimal_text, join2, same_text};
use crate::types::{ErrorModel, PtyError};

verus! {

/// The largest number of sessions that may be registered at one time.
pub const MAX_SESSIONS: usize = 10;

/// The shells that may be launched, each by its absolute path.
pub open spec fn allowed_shells() -> Seq<Seq<char>> {
    seq![
        "/bin/bash"@,
        "/bin/zsh"@,
        "/bin/sh"@,
        "/bin/fish"@,
        "/usr/bin/bash"@,
        "/usr/bin/zsh"@,
        "/usr/bin/fish"@,
        "/usr/local/bin/bash"@,
        "/usr/local/bin/zsh"@,
        "/usr/local/bin/fish"@,
        "/opt/homebrew/bin/bash"@,
        "/opt/homebrew/bin/zsh"@,
        "/opt/homebrew/bin/fish"@,
    ]
}

/// The environment variables that steer the dynamic loader.  A request can
/// never set them.
pub open spec fn blocked_env_vars() -> Seq<Seq<char>> {
    seq![
        "LD_PRELOAD"@,
        "LD_LIBRARY_PATH"@,
        "DYLD_INSERT_LIBRARIES"@,
        "DYLD_LIBRARY_PATH"@,
        "DYLD_FALLBACK_LIBRARY_PATH"@,
    ]
}

/// Whether `path` is, character for character, one of the allowed shells.
pub open spec fn is_allowed_shell(path: Seq<char>) -> bool {
    allowed_shells().contains(path)
}

/// Whether `key` names a blocked environment variable.
pub open spec fn is_blocked(key: Seq<char>) -> bool {
    blocked_env_vars().contains(key)
}

/// The shell used when neither the request nor the host names one.
pub open spec fn fallback_shell() -> Seq<char> {
    "/bin/zsh"@
}

/// The shell that a request resolves to: the requested one, else the host's
/// default, else the fallback.
pub open spec fn resolved_shell(command: Option<Seq<char>>, host_shell: Option<Seq<char>>) -> Seq<
    char,
> {
    match command {
        Some(c) => c,
        None => match host_shell {
            Some(s) => s,
            None => fallback_shell(),
        },
    }
}

/// The error for a shell outside the allow-list.
pub open spec fn shell_rejection(shell: Seq<char>) -> ErrorModel {
    ErrorModel::ValidationError { message: "Shell not allowed: "@ + shell }
}

/// The error for a working directory that could not be resolved.
pub open spec fn cwd_unresolved(reason: Seq<char>) -> ErrorModel {
    ErrorModel::ValidationError { message: "Invalid working directory: "@ + reason }
}

/// The error for a working directory that resolves to something else than a
/// directory.
pub open spec fn cwd_not_a_directory() -> ErrorModel {
    ErrorModel::ValidationError { message: "Working directory must be a directory"@ }
}

/// The error for a spawn request that arrives when the registry is full.
pub open spec fn limit_reached() -> ErrorModel {
    ErrorModel::ResourceLimit {
        message: "Maximum number of sessions ("@ + decimal_text(MAX_SESSIONS as nat)
            + ") reached"@,
    }
}

/// What the working-directory check returns, given what the file system
/// said: the canonical path when the path resolved and is a directory.
pub open spec fn cwd_outcome(resolved: Result<Seq<char>, Seq<char>>, is_directory: bool) -> Result<
    Seq<char>,
    ErrorModel,
> {
    match resolved {
        Err(reason) => Err(cwd_unresolved(reason)),
        Ok(canonical) => if is_directory {
            Ok(canonical)
        } else {
            Err(cwd_not_a_directory())
        },
    }
}

fn shell_allow_list() -> (list: Vec<&'static str>)
    ensures
        list@.len() == allowed_shells().len(),
        forall|i: int| 0 <= i < list@.len() ==> (#[trigger] list@[i])@ == allowed_shells()[i],
{
    vec![
        "/bin/bash",
        "/bin/zsh",
        "/bin/sh",
        "/bin/fish",
        "/usr/bin/bash",
        "/usr/bin/zsh",
        "/usr/bin/fish",
        "/usr/local/bin/bash",
        "/usr/local/bin/zsh",
        "/usr/local/bin/fish",
        "/opt/homebrew/bin/bash",
        "/opt/homebrew/bin/zsh",
        "/opt/homebrew/bin/fish",
    ]
}

fn env_deny_list() -> (list: Vec<&'static str>)
    ensures
        list@.len() == blocked_env_vars().len(),
        forall|i: int| 0 <= i < list@.len() ==> (#[trigger] list@[i])@ == blocked_env_vars()[i],
{
    vec![
        "LD_PRELOAD",
        "LD_LIBRARY_PATH",
        "DYLD_INSERT_LIBRARIES",
        "DYLD_LIBRARY_PATH",
        "DYLD_FALLBACK_LIBRARY_PATH",
    ]
}

/// Whether `key` equals one of the entries of `list`.
fn is_listed(list: &Vec<&'static str>, key: &str) -> (found: bool)
    ensures
        found == exists|i: int| 0 <= i < list@.len() && (#[trigger] list@[i])@ == key@,
{
    let mut i: usize = 0;
    while i < list.len()
        invariant
            i <= list@.len(),
            forall|j: int| 0 <= j < i ==> (#[trigger] list@[j])@ != key@,
        decreases list@.len() - i,
    {
        if same_text(list[i], key) {
            return true;
        }
        i += 1;
    }
    false
}

/// Accepts `shell` only if it is exactly one of the allowed shell paths.
pub fn validate_shell(shell: &str) -> (r: Result<(), PtyError>)
    ensures
        is_allowed_shell(shell@) ==> r is Ok,
        !is_allowed_shell(shell@) ==> (r matches Err(e) && e@ == shell_rejection(shell@)),
{
    let list = shell_allow_list();
    if is_listed(&list, shell) {
        proof {
            let i = choose|i: int| 0 <= i < list@.len() && (#[trigger] list@[i])@ == shell@;
            assert(allowed_shells()[i] == shell@);
        }
        Ok(())
    } else {
        proof {
            if is_allowed_shell(shell@) {
                let i = choose|i: int|
                    0 <= i < allowed_shells().len() && allowed_shells()[i] == shell@;
                assert(list@[i]@ == shell@);
            }
        }
        Err(PtyError::ValidationError { message: join2("Shell not allowed: ", shell) })
    }
}

/// Whether a request is barred from setting the environment variable `key`.
pub fn is_blocked_env_var(key: &str) -> (r: bool)
    ensures
        r == is_blocked(key@),
{
    let list = env_deny_list();
    let found = is_listed(&list, key);
    proof {
        if found {
            let i = choose|i: int| 0 <= i < list@.len() && (#[trigger] list@[i])@ == key@;
            assert(blocked_env_vars()[i] == key@);
        } else if is_blocked(key@) {
            let i = choose|i: int|
                0 <= i < blocked_env_vars().len() && blocked_env_vars()[i] == key@;
            assert(list@[i]@ == key@);
        }
    }
    found
}

/// The shell that a request resolves to.
pub fn resolve_shell(command: &Option<String>, host_shell: &Option<String>) -> (shell: String)
    ensures
        shell@ == resolved_shell(text_of(*command), text_of(*host_shell)),
{
    match command {
        Some(c) => c.clone(),
        None => match host_shell {
            Some(s) => s.clone(),
            None => "/bin/zsh".to_owned(),
        },
    }
}

/// The characters of an optional string.
pub open spec fn text_of(s: Option<String>) -> Option<Seq<char>> {
    match s {
        Some(t) => Some(t@),
        None => None,
    }
}

/// The error for a spawn request that arrives when the registry is full.
pub fn limit_error() -> (e: PtyError)
    ensures
        e@ == limit_reached(),
{
    let count = decimal(MAX_SESSIONS as u32);
    let head = join2("Maximum number of sessions (", count.as_str());
    PtyError::ResourceLimit { message: join2(head.as_str(), ") reached") }
}

/// The value of a result that carries text on success.
pub open spec fn text_result(r: Result<String, PtyError>) -> Result<Seq<char>, ErrorModel> {
    match r {
        Ok(t) => Ok(t@),
        Err(e) => Err(e@),
    }
}

/// The value of what a path resolution gave: the canonical path, or the
/// reason why there is none.
pub open spec fn resolution(r: Result<String, String>) -> Result<Seq<char>, Seq<char>> {
    match r {
        Ok(p) => Ok(p@),
        Err(reason) => Err(reason@),
    }
}

/// Whether `path` is an absolute path as Unix-like systems write one: it
/// begins at the root, `/`.
pub open spec fn is_absolute_path(path: Seq<char>) -> bool {
    path.len() > 0 && path[0] == '/'
}

/// Resolves `path` with `std::path::Path::canonicalize`: all symbolic links
/// followed, the result absolute.  On success the canonical path comes back
/// as text; when the file system refuses, the system's message; when the
/// canonical path is not Unicode, its lossy rendering as the reason.  Whether
/// the path resolves, and to what, depends on what is on disk; claimed is
/// only what the method documents of every path it returns, that it is
/// absolute, which on Unix-like systems, the only ones that have the shells
/// of the allow-list, means that it begins with `/`.
#[verifier::external_body]
fn canonical_path(path: &str) -> (r: Result<String, String>)
    ensures
        r matches Ok(p) ==> is_absolute_path(p@),
{
    match std::path::Path::new(path).canonicalize() {
        Ok(p) => p.into_os_string().into_string().map_err(|raw| raw.to_string_lossy().into_owned()),
        Err(e) => Err(e.to_string()),
    }
}

/// Asks `std::path::Path::is_dir` whether `path` names a directory.  Nothing
/// is promised of the answer, which depends on what is on disk.
#[verifier::external_body]
fn is_directory(path: &str) -> (r: bool) {
    std::path::Path::new(path).is_dir()
}

/// Decides on a working directory from what the file system said about it:
/// `resolved` is the canonical path or the reason why resolution failed, and
/// `is_directory` says whether the canonical path names a directory.
pub fn check_cwd(resolved: Result<String, String>, is_directory: bool) -> (r: Result<
    String,
    PtyError,
>)
    ensures
        text_result(r) == cwd_outcome(resolution(resolved), is_directory),
{
    match resolved {
        Err(reason) => Err(
            PtyError::ValidationError {
                message: join2("Invalid working directory: ", reason.as_str()),
            },
        ),
        Ok(canonical) => {
            if is_directory {
                Ok(canonical)
            } else {
                Err(
                    PtyError::ValidationError {
                        message: "Working directory must be a directory".to_owned(),
                    },
                )
            }
        },
    }
}

/// Resolves `path` to its canonical absolute form and accepts it only if that
/// form is a directory.  Whatever the file system answers, an accepted
/// directory comes back as an absolute path, and a refusal is a validation
/// error: either the path did not resolve, or it resolved to something that
/// is no directory.
pub fn validate_cwd(path: &str) -> (r: Result<String, PtyError>)
    ensures
        r matches Ok(canonical) ==> is_absolute_path(canonical@),
        r matches Err(e) ==> e@ == cwd_not_a_directory() || exists|reason: Seq<char>|
            e@ == cwd_unresolved(reason),
{
    match canonical_path(path) {
        Err(reason) => {
            let r = check_cwd(Err(reason), false);
            assert(r matches Err(e) && e@ == cwd_unresolved(reason@));
            r
        },
        Ok(canonical) => {
            let found = is_directory(canonical.as_str());
            check_cwd(Ok(canonical), found)
        },
    }
}

/// Environment entries as pairs of name and value.
pub open spec fn env_entries(entries: Seq<(String, String)>) -> Seq<(Seq<char>, Seq<char>)> {
    Seq::new(entries.len(), |i: int| (entries[i].0@, entries[i].1@))
}

/// The entries that a request may set: those whose name is not blocked, in
/// their order.
pub open spec fn permitted_env(entries: Seq<(Seq<char>, Seq<char>)>) -> Seq<
    (Seq<char>, Seq<char>),
> {
    entries.filter(|e: (Seq<char>, Seq<char>)| !is_blocked(e.0))
}

/// Drops every entry whose name is blocked and keeps the others unchanged,
/// in their order.  A blocked entry is no error.
pub fn filter_env(entries: &Vec<(String, String)>) -> (kept: Vec<(String, String)>)
    ensures
        env_entries(kept@) == permitted_env(env_entries(entries@)),
{
    let ghost all = env_entries(entries@);
    let ghost pred = |e: (Seq<char>, Seq<char>)| !is_blocked(e.0);
    let mut kept: Vec<(String, String)> = Vec::new();
    let mut i: usize = 0;
    assert(all.take(0) =~= Seq::empty());
    assert(env_entries(kept@) =~= Seq::empty());
    while i < entries.len()
        invariant
            i <= entries@.len(),
            all == env_entries(entries@),
            pred == |e: (Seq<char>, Seq<char>)| !is_blocked(e.0),
            env_entries(kept@) == all.take(i as int).filter(pred),
        decreases entries@.len() - i,
    {
        let ghost before = env_entries(kept@);
        proof {
            reveal(Seq::filter);
            assert(all.take(i + 1).drop_last() =~= all.take(i as int));
            assert(all.take(i + 1).last() == all[i as int]);
        }
        let entry = &entries[i];
        if !is_blocked_env_var(entry.0.as_str()) {
            kept.push((entry.0.clone(), entry.1.clone()));
            assert(env_entries(kept@) =~= before.push(all[i as int]));
        }
        i += 1;
    }
    assert(all.take(i as int) =~= all);
    kept
}

} // verus!
