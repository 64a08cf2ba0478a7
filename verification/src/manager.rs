//! The session registry and the operations on it.
//!
//! The registry maps session identifiers to session records and never holds
//! more than [`MAX_SESSIONS`] of them.  Each operation decides here what is
//! to be done and in which order; the operating system's part of it is a
//! function that the caller hands in and that works on one session's handles.

use vstd::prelude::*;
use vstd::string::*;
use portable_pty::CommandBuilder;
use crate::command::{
    build_command, command_argv, command_cwd, command_env, env_overlay, shell_args, texts,
};
use crate::policy::{
    cwd_not_a_directory, cwd_unresolved, env_entries, is_allowed_shell, limit_error, limit_reached,
    resolve_shell, resolved_shell, shell_rejection, text_of, validate_cwd, validate_shell,
    MAX_SESSIONS,
};
use crate::session::{
    cell_size, counts_as_alive, launch_error, launch_failure, ChildStatus, HostDefaults,
    LaunchFailure, PtySession, TerminalSize,
};
use crate::text::same_text;
use crate::types::{ErrorModel, PtyError, SessionInfo, SpawnOptions};

verus! {

/// The identifiers of a sequence of registry entries, in order.
pub open spec fn ids_of<H>(entries: Seq<(Seq<char>, PtySession<H>)>) -> Seq<Seq<char>> {
    Seq::new(entries.len(), |i: int| entries[i].0)
}

/// The entries that remain when the session `id` is taken out: all others,
/// in their order.  Entries without such a session stay as they are.
pub open spec fn without<H>(entries: Seq<(Seq<char>, PtySession<H>)>, id: Seq<char>) -> Seq<
    (Seq<char>, PtySession<H>),
> {
    if ids_of(entries).contains(id) {
        entries.remove(ids_of(entries).index_of(id))
    } else {
        entries
    }
}

/// Whether a registry with these entries has room for one more session.
pub open spec fn has_room<H>(entries: Seq<(Seq<char>, PtySession<H>)>) -> bool {
    entries.len() < MAX_SESSIONS
}

/// The error for an operation on an identifier that is not registered.
pub open spec fn not_found(id: Seq<char>) -> ErrorModel {
    ErrorModel::SessionNotFound { session_id: id }
}

/// The length of the longest of `ids`; 0 where there is none.
pub open spec fn longest(ids: Seq<Seq<char>>) -> nat
    decreases ids.len(),
{
    if ids.len() == 0 {
        0
    } else {
        let rest = longest(ids.drop_last());
        if ids.last().len() > rest {
            ids.last().len()
        } else {
            rest
        }
    }
}

/// None of `ids` is longer than the longest of them.
pub proof fn lemma_longest_bounds(ids: Seq<Seq<char>>, id: Seq<char>)
    requires
        ids.contains(id),
    ensures
        id.len() <= longest(ids),
    decreases ids.len(),
{
    let k = choose|k: int| 0 <= k < ids.len() && ids[k] == id;
    if k < ids.len() - 1 {
        assert(ids.drop_last()[k] == id);
        lemma_longest_bounds(ids.drop_last(), id);
    }
}

/// The identifier that a candidate ends up as: the candidate itself unless
/// it is one of `ids`, else the first of the candidate with one dash, two
/// dashes and so on appended that is none of `ids`.
pub open spec fn first_unused(ids: Seq<Seq<char>>, candidate: Seq<char>) -> Seq<char>
    decreases longest(ids) + 1 - candidate.len(),
    via first_unused_decreases
{
    if ids.contains(candidate) {
        first_unused(ids, candidate + "-"@)
    } else {
        candidate
    }
}

#[via_fn]
proof fn first_unused_decreases(ids: Seq<Seq<char>>, candidate: Seq<char>) {
    reveal_strlit("-");
    if ids.contains(candidate) {
        lemma_longest_bounds(ids, candidate);
    }
}

/// The identifier that a candidate ends up as is none of `ids`, begins with
/// the candidate, and is the candidate itself where that is none of `ids`.
pub proof fn lemma_first_unused_is_unused(ids: Seq<Seq<char>>, candidate: Seq<char>)
    ensures
        !ids.contains(first_unused(ids, candidate)),
        candidate.is_prefix_of(first_unused(ids, candidate)),
        !ids.contains(candidate) ==> first_unused(ids, candidate) == candidate,
    decreases longest(ids) + 1 - candidate.len(),
{
    if ids.contains(candidate) {
        reveal_strlit("-");
        lemma_longest_bounds(ids, candidate);
        lemma_first_unused_is_unused(ids, candidate + "-"@);
        let longer = candidate + "-"@;
        let found = first_unused(ids, longer);
        assert(candidate =~= longer.subrange(0, candidate.len() as int));
        assert(candidate =~= found.subrange(0, candidate.len() as int));
    } else {
        assert(candidate =~= candidate.subrange(0, candidate.len() as int));
    }
}

/// The shell that a request resolves to on a host.
pub open spec fn requested_shell(options: SpawnOptions, host: HostDefaults) -> Seq<char> {
    resolved_shell(text_of(options.command), text_of(host.shell))
}

/// Whether `cmd` and `size` are what the request `options` may launch on the
/// host: an allowed shell as the program, followed by the login flag or the
/// request's arguments; the working directory set to a validated directory
/// where the request names one, else to the host's home directory where
/// there is one; the terminal type and the request's permitted variables set
/// in the environment; and the requested size.
pub open spec fn approved_launch(
    options: SpawnOptions,
    host: HostDefaults,
    cmd: CommandBuilder,
    size: TerminalSize,
) -> bool {
    let shell = requested_shell(options, host);
    &&& is_allowed_shell(shell)
    &&& command_argv(cmd) == seq![shell] + shell_args(texts(options.args@))
    &&& match options.cwd {
        Some(_) => command_cwd(cmd) is Some,
        None => command_cwd(cmd) == text_of(host.home),
    }
    &&& env_overlay(env_entries(options.env@)).submap_of(command_env(cmd))
    &&& size == cell_size(options.cols, options.rows)
}

/// A new identifier from `uuid::Uuid::new_v4`, written by the identifier's
/// `Display` impl: the hyphenated form, which has 36 characters.  Which
/// identifier comes back is random.
#[verifier::external_body]
fn fresh_session_id() -> (id: String)
    ensures
        id@.len() == 36,
{
    uuid::Uuid::new_v4().to_string()
}

struct Slot<H> {
    id: String,
    session: PtySession<H>,
}

/// The registry of live sessions.
pub struct PtyManager<H> {
    slots: Vec<Slot<H>>,
}

impl<H> PtyManager<H> {
    /// The registered sessions, each with its identifier, oldest first.
    pub closed spec fn entries(&self) -> Seq<(Seq<char>, PtySession<H>)> {
        Seq::new(self.slots@.len(), |i: int| (self.slots@[i].id@, self.slots@[i].session))
    }

    /// The registered identifiers, oldest first.
    pub open spec fn ids(&self) -> Seq<Seq<char>> {
        ids_of(self.entries())
    }

    /// Whether a session is registered under `id`.
    pub open spec fn contains(&self, id: Seq<char>) -> bool {
        self.ids().contains(id)
    }

    /// The registry's invariant: no identifier is registered twice, and the
    /// number of sessions is within the limit.
    pub open spec fn wf(&self) -> bool {
        &&& self.ids().no_duplicates()
        &&& self.entries().len() <= MAX_SESSIONS
    }

    /// An empty registry.
    pub fn new() -> (manager: Self)
        ensures
            manager.wf(),
            manager.entries() == Seq::<(Seq<char>, PtySession<H>)>::empty(),
    {
        let manager = PtyManager { slots: Vec::new() };
        assert(manager.entries() =~= Seq::empty());
        manager
    }

    /// The number of registered sessions.
    pub fn session_count(&self) -> (n: usize)
        ensures
            n == self.entries().len(),
    {
        self.slots.len()
    }

    /// Whether a session is registered under `session_id`.
    pub fn is_registered(&self, session_id: &str) -> (found: bool)
        ensures
            found == self.contains(session_id@),
    {
        self.find(session_id).is_some()
    }

    /// Refuses a new session when the registry is full.
    pub fn check_capacity(&self) -> (r: Result<(), PtyError>)
        ensures
            has_room(self.entries()) ==> r is Ok,
            !has_room(self.entries()) ==> (r matches Err(e) && e@ == limit_reached()),
    {
        if self.slots.len() >= MAX_SESSIONS {
            Err(limit_error())
        } else {
            Ok(())
        }
    }

    /// Turns a candidate into an identifier that is not registered: the
    /// candidate itself unless a session is registered under it, else the
    /// candidate with as many dashes appended as it takes.
    pub fn unused_id(&self, candidate: String) -> (id: String)
        ensures
            id@ == first_unused(self.ids(), candidate@),
            !self.contains(id@),
    {
        let ghost ids = self.ids();
        let mut id = candidate;
        proof {
            lemma_first_unused_is_unused(ids, candidate@);
        }
        while self.find(id.as_str()).is_some()
            invariant
                ids == self.ids(),
                first_unused(ids, id@) == first_unused(ids, candidate@),
            decreases longest(ids) + 1 - id@.len(),
        {
            proof {
                reveal_strlit("-");
                lemma_longest_bounds(ids, id@);
            }
            id.append("-");
        }
        id
    }

    fn find(&self, session_id: &str) -> (at: Option<usize>)
        ensures
            match at {
                Some(i) => i < self.entries().len() && self.ids()[i as int] == session_id@,
                None => !self.contains(session_id@),
            },
    {
        let mut i: usize = 0;
        while i < self.slots.len()
            invariant
                i <= self.slots@.len(),
                forall|j: int| 0 <= j < i ==> self.ids()[j] != session_id@,
            decreases self.slots@.len() - i,
        {
            if same_text(self.slots[i].id.as_str(), session_id) {
                return Some(i);
            }
            i += 1;
        }
        None
    }

    /// Starts a session for the request `options`.
    ///
    /// The checks come first and in this order: the registry must have room,
    /// the resolved shell must be allowed, and a working directory that the
    /// request names must resolve to a directory.  Only then the command is
    /// assembled and `launch` is called with it and the requested size, to
    /// allocate the terminal, start the shell and its output reader, and hand
    /// back the session's record.  A launch that fails is reported by the
    /// step that failed.  A launch that succeeds always ends in a session:
    /// its record is registered under a fresh identifier, which is returned.
    /// On any failure the registry is as it was.
    pub fn spawn<L>(&mut self, options: SpawnOptions, host: &HostDefaults, launch: L) -> (r: Result<
        String,
        PtyError,
    >)
        where
            L: FnOnce(CommandBuilder, TerminalSize) -> Result<PtySession<H>, LaunchFailure>,
        requires
            old(self).wf(),
            forall|cmd: CommandBuilder, size: TerminalSize|
                approved_launch(options, *host, cmd, size) ==> #[trigger] call_requires(
                    launch,
                    (cmd, size),
                ),
        ensures
            final(self).wf(),
            !has_room(old(self).entries()) ==> (r matches Err(e) && e@ == limit_reached()),
            has_room(old(self).entries()) && !is_allowed_shell(requested_shell(options, *host))
                ==> (r matches Err(e) && e@ == shell_rejection(requested_shell(options, *host))),
            r is Err ==> final(self).entries() == old(self).entries(),
            r matches Ok(id) ==> !old(self).contains(id@) && id@.len() >= 36,
            has_room(old(self).entries()) && is_allowed_shell(requested_shell(options, *host)) ==> {
                ||| options.cwd is Some && (r matches Err(e) && e@ == cwd_not_a_directory())
                ||| options.cwd is Some && (r matches Err(e) && exists|reason: Seq<char>|
                    e@ == cwd_unresolved(reason))
                ||| exists|cmd: CommandBuilder, launched: Result<PtySession<H>, LaunchFailure>|
                    {
                        &&& approved_launch(
                            options,
                            *host,
                            cmd,
                            cell_size(options.cols, options.rows),
                        )
                        &&& #[trigger] call_ensures(
                            launch,
                            (cmd, cell_size(options.cols, options.rows)),
                            launched,
                        )
                        &&& match launched {
                            Ok(session) => r matches Ok(id) && final(self).entries() == old(
                                self
                            ).entries().push((id@, session)),
                            Err(failure) => r matches Err(e) && e@ == launch_failure(failure),
                        }
                    }
            },
    {
        match self.check_capacity() {
            Err(e) => {
                return Err(e);
            },
            Ok(_) => {},
        }
        let shell = resolve_shell(&options.command, &host.shell);
        match validate_shell(shell.as_str()) {
            Err(e) => {
                return Err(e);
            },
            Ok(_) => {},
        }
        let cwd: Option<String> = match &options.cwd {
            Some(dir) => match validate_cwd(dir.as_str()) {
                Ok(canonical) => Some(canonical),
                Err(e) => {
                    return Err(e);
                },
            },
            None => match &host.home {
                Some(home) => Some(home.clone()),
                None => None,
            },
        };
        let cmd = build_command(shell.as_str(), &options.args, &cwd, &options.env);
        let size = TerminalSize::new(options.cols, options.rows);
        assert(approved_launch(options, *host, cmd, size));
        match launch(cmd, size) {
            Err(failure) => Err(launch_error(failure)),
            Ok(session) => {
                let candidate = fresh_session_id();
                let id = self.unused_id(candidate);
                proof {
                    lemma_first_unused_is_unused(self.ids(), candidate@);
                }
                let ghost before = self.entries();
                self.slots.push(Slot { id: id.clone(), session });
                proof {
                    assert(self.entries() =~= before.push((id@, session)));
                    assert(ids_of(self.entries()) =~= ids_of(before).push(id@));
                }
                Ok(id)
            },
        }
    }

    /// Ends the session `session_id`.  The record leaves the registry first,
    /// so that no later lookup can find a session that is being torn down;
    /// then the process is sent the termination signal with `signal`, whose
    /// failure is tolerated because the process may have exited already, and
    /// is waited for with `reap`, so that no zombie remains.  An identifier
    /// that is not registered is an error and changes nothing.
    pub fn kill<S, W>(&mut self, session_id: &str, signal: S, reap: W) -> (r: Result<(), PtyError>)
        where
            S: FnOnce(&mut H) -> Result<(), String>,
            W: FnOnce(&mut H),
        requires
            old(self).wf(),
            forall|h: &mut H| #[trigger] call_requires(signal, (h,)),
            forall|h: &mut H| #[trigger] call_requires(reap, (h,)),
        ensures
            final(self).wf(),
            final(self).entries() == without(old(self).entries(), session_id@),
            !final(self).contains(session_id@),
            old(self).contains(session_id@) ==> r is Ok,
            !old(self).contains(session_id@) ==> (r matches Err(e) && e@ == not_found(session_id@)),
            old(self).contains(session_id@) ==> exists|
                h1: &mut H,
                signalled: Result<(), String>,
                h2: &mut H,
            |
                {
                    &&& #[trigger] call_ensures(signal, (h1,), signalled)
                    &&& *h1 == old(self).entries()[old(self).ids().index_of(session_id@)].1.handles
                    &&& #[trigger] call_ensures(reap, (h2,), ())
                    &&& *h2 == *final(h1)
                },
    {
        match self.find(session_id) {
            None => Err(PtyError::SessionNotFound { session_id: session_id.to_owned() }),
            Some(i) => {
                proof {
                    lemma_position(self.entries(), session_id@, i as int);
                    lemma_killed_session_is_gone(self.entries(), session_id@);
                }
                let ghost before = self.entries();
                let mut slot = self.slots.remove(i);
                assert(self.entries() =~= before.remove(i as int));
                let _ = signal(&mut slot.session.handles);
                reap(&mut slot.session.handles);
                Ok(())
            },
        }
    }

    /// Lists every registered session, oldest first, with its identifier, its
    /// process identifier and whether its process is alive.  Each process is
    /// polled once with `poll`, which must not block; a session whose process
    /// has exited stays registered and is listed as not alive.
    pub fn list<P>(&mut self, poll: P) -> (infos: Vec<SessionInfo>)
        where
            P: Fn(&mut H) -> ChildStatus,
        requires
            old(self).wf(),
            forall|h: &mut H| #[trigger] call_requires(poll, (h,)),
        ensures
            final(self).wf(),
            final(self).ids() == old(self).ids(),
            infos@.len() == old(self).entries().len(),
            forall|i: int|
                0 <= i < infos@.len() ==> {
                    &&& (#[trigger] infos@[i]).id@ == old(self).ids()[i]
                    &&& infos@[i].pid == old(self).entries()[i].1.pid
                    &&& final(self).entries()[i].1.pid == old(self).entries()[i].1.pid
                    &&& exists|h: &mut H, status: ChildStatus|
                        {
                            &&& #[trigger] call_ensures(poll, (h,), status)
                            &&& *h == old(self).entries()[i].1.handles
                            &&& *final(h) == final(self).entries()[i].1.handles
                            &&& infos@[i].is_alive == counts_as_alive(status)
                        }
                },
    {
        let mut infos: Vec<SessionInfo> = Vec::new();
        let n = self.slots.len();
        let mut i: usize = 0;
        while i < n
            invariant
                i <= n,
                n == self.slots@.len(),
                n == old(self).slots@.len(),
                infos@.len() == i,
                forall|h: &mut H| #[trigger] call_requires(poll, (h,)),
                forall|j: int|
                    0 <= j < n ==> (#[trigger] self.slots@[j]).id == old(self).slots@[j].id,
                forall|j: int|
                    0 <= j < n ==> (#[trigger] self.slots@[j]).session.pid == old(
                        self
                    ).slots@[j].session.pid,
                forall|j: int| i <= j < n ==> (#[trigger] self.slots@[j]) == old(self).slots@[j],
                forall|j: int|
                    0 <= j < i ==> {
                        &&& (#[trigger] infos@[j]).id@ == old(self).slots@[j].id@
                        &&& infos@[j].pid == old(self).slots@[j].session.pid
                        &&& exists|h: &mut H, status: ChildStatus|
                            {
                                &&& #[trigger] call_ensures(poll, (h,), status)
                                &&& *h == old(self).slots@[j].session.handles
                                &&& *final(h) == self.slots@[j].session.handles
                                &&& infos@[j].is_alive == counts_as_alive(status)
                            }
                    },
            decreases n - i,
        {
            let ghost prior = self.slots@;
            let ghost listed = infos@;
            let status = poll(&mut self.slots[i].session.handles);
            let info = SessionInfo {
                id: self.slots[i].id.clone(),
                pid: self.slots[i].session.pid,
                is_alive: status.is_alive(),
            };
            infos.push(info);
            proof {
                assert forall|j: int| 0 <= j < i implies self.slots@[j] == prior[j] by {}
                assert forall|j: int| 0 <= j < i implies infos@[j] == listed[j] by {}
            }
            i += 1;
        }
        proof {
            assert(final(self).ids() =~= old(self).ids());
        }
        infos
    }

    /// Sends `data` to the shell of the session `session_id`: all bytes are
    /// written with `send`, and only when that succeeded the writer is
    /// flushed with `flush`.  A failure of either is an I/O error with the
    /// writer's message.  The registry keeps the same sessions.
    pub fn write<W, F>(&mut self, session_id: &str, data: &[u8], send: W, flush: F) -> (r: Result<
        (),
        PtyError,
    >)
        where
            W: FnOnce(&mut H, &[u8]) -> Result<(), String>,
            F: FnOnce(&mut H) -> Result<(), String>,
        requires
            old(self).wf(),
            forall|h: &mut H| #[trigger] call_requires(send, (h, data)),
            forall|h: &mut H| #[trigger] call_requires(flush, (h,)),
        ensures
            final(self).wf(),
            final(self).ids() == old(self).ids(),
            !old(self).contains(session_id@) ==> {
                &&& r matches Err(e) && e@ == not_found(session_id@)
                &&& final(self).entries() == old(self).entries()
            },
            old(self).contains(session_id@) ==> {
                let at = old(self).ids().index_of(session_id@);
                &&& forall|j: int|
                    0 <= j < old(self).entries().len() && j != at ==> #[trigger] final(
                        self
                    ).entries()[j] == old(self).entries()[j]
                &&& final(self).entries()[at].1.pid == old(self).entries()[at].1.pid
                &&& exists|h1: &mut H, sent: Result<(), String>|
                    {
                        &&& #[trigger] call_ensures(send, (h1, data), sent)
                        &&& *h1 == old(self).entries()[at].1.handles
                        &&& sent is Err ==> {
                            &&& unit_result(r) == io_outcome(sent)
                            &&& final(self).entries()[at].1.handles == *final(h1)
                        }
                        &&& sent is Ok ==> exists|h2: &mut H, flushed: Result<(), String>|
                            {
                                &&& #[trigger] call_ensures(flush, (h2,), flushed)
                                &&& *h2 == *final(h1)
                                &&& final(self).entries()[at].1.handles == *final(h2)
                                &&& unit_result(r) == io_outcome(flushed)
                            }
                    }
            },
    {
        match self.find(session_id) {
            None => Err(PtyError::SessionNotFound { session_id: session_id.to_owned() }),
            Some(i) => {
                proof {
                    lemma_position(self.entries(), session_id@, i as int);
                }
                let sent = send(&mut self.slots[i].session.handles, data);
                let r = if sent.is_err() {
                    io_result(sent)
                } else {
                    let flushed = flush(&mut self.slots[i].session.handles);
                    io_result(flushed)
                };
                proof {
                    assert(final(self).ids() =~= old(self).ids());
                }
                r
            },
        }
    }

    /// Tells the terminal of the session `session_id` that its visible area
    /// is now `cols` columns by `rows` rows, with `apply`.  A failure is a
    /// resize error with the system's message.  The registry is only read.
    pub fn resize<A>(&self, session_id: &str, cols: u16, rows: u16, apply: A) -> (r: Result<
        (),
        PtyError,
    >)
        where
            A: FnOnce(&H, TerminalSize) -> Result<(), String>,
        requires
            self.wf(),
            forall|h: &H| #[trigger] call_requires(apply, (h, cell_size(cols, rows))),
        ensures
            !self.contains(session_id@) ==> (r matches Err(e) && e@ == not_found(session_id@)),
            self.contains(session_id@) ==> exists|reply: Result<(), String>|
                {
                    &&& #[trigger] call_ensures(
                        apply,
                        (
                            &self.entries()[self.ids().index_of(session_id@)].1.handles,
                            cell_size(cols, rows),
                        ),
                        reply,
                    )
                    &&& unit_result(r) == resize_outcome(reply)
                },
    {
        match self.find(session_id) {
            None => Err(PtyError::SessionNotFound { session_id: session_id.to_owned() }),
            Some(i) => {
                proof {
                    lemma_position(self.entries(), session_id@, i as int);
                }
                let reply = apply(&self.slots[i].session.handles, TerminalSize::new(cols, rows));
                resize_result(reply)
            },
        }
    }

    /// Ends every registered session, oldest first, each as [`Self::kill`]
    /// does: out of the registry, then signalled, then waited for.  Failures
    /// are tolerated, since nobody is left to hear of them.  The registry is
    /// empty afterwards.
    pub fn kill_all<S, W>(&mut self, signal: S, reap: W)
        where
            S: Fn(&mut H) -> Result<(), String>,
            W: Fn(&mut H),
        requires
            old(self).wf(),
            forall|h: &mut H| #[trigger] call_requires(signal, (h,)),
            forall|h: &mut H| #[trigger] call_requires(reap, (h,)),
        ensures
            final(self).wf(),
            final(self).entries() == Seq::<(Seq<char>, PtySession<H>)>::empty(),
            forall|i: int|
                0 <= i < old(self).entries().len() ==> {
                    &&& !final(self).contains((#[trigger] old(self).entries()[i]).0)
                    &&& exists|h1: &mut H, signalled: Result<(), String>, h2: &mut H|
                        #![trigger call_ensures(signal, (h1,), signalled), call_ensures(reap, (h2,), ())]
                        {
                            &&& call_ensures(signal, (h1,), signalled)
                            &&& *h1 == old(self).entries()[i].1.handles
                            &&& call_ensures(reap, (h2,), ())
                            &&& *h2 == *final(h1)
                        }
                },
    {
        let ghost all = self.entries();
        let ghost total = self.slots@.len();
        while self.slots.len() > 0
            invariant
                self.slots@.len() <= total,
                total == all.len(),
                self.entries() == all.subrange(total - self.slots@.len(), total as int),
                forall|h: &mut H| #[trigger] call_requires(signal, (h,)),
                forall|h: &mut H| #[trigger] call_requires(reap, (h,)),
                all == old(self).entries(),
                forall|i: int|
                    0 <= i < total - self.slots@.len() ==> {
                        let session = (#[trigger] all[i]).1;
                        exists|h1: &mut H, signalled: Result<(), String>, h2: &mut H|
                            #![trigger call_ensures(signal, (h1,), signalled), call_ensures(reap, (h2,), ())]
                            {
                                &&& call_ensures(signal, (h1,), signalled)
                                &&& *h1 == session.handles
                                &&& call_ensures(reap, (h2,), ())
                                &&& *h2 == *final(h1)
                            }
                    },
            decreases self.slots@.len(),
        {
            let ghost before = self.entries();
            let ghost held = self.slots@;
            let mut slot = self.slots.remove(0);
            assert(self.entries() =~= before.remove(0));
            assert(self.entries() =~= all.subrange(total - self.slots@.len(), total as int));
            assert(before[0] == (held[0].id@, held[0].session));
            assert(slot.session == all[total - self.slots@.len() - 1].1);
            let _ = signal(&mut slot.session.handles);
            reap(&mut slot.session.handles);
        }
        assert(self.entries() =~= Seq::empty());
    }
}

/// In entries without a repeated identifier, an identifier found at a
/// position is found nowhere else.
pub proof fn lemma_position<H>(entries: Seq<(Seq<char>, PtySession<H>)>, id: Seq<char>, i: int)
    requires
        ids_of(entries).no_duplicates(),
        0 <= i < entries.len(),
        ids_of(entries)[i] == id,
    ensures
        ids_of(entries).contains(id),
        ids_of(entries).index_of(id) == i,
{
    let ids = ids_of(entries);
    assert(ids.contains(id));
    let k = ids.index_of(id);
    assert(0 <= k < ids.len() && ids[k] == id);
}

/// Taking a session out leaves entries in which its identifier no longer
/// occurs, every other identifier still occurs, and none occurs twice.
pub proof fn lemma_killed_session_is_gone<H>(
    entries: Seq<(Seq<char>, PtySession<H>)>,
    id: Seq<char>,
)
    requires
        ids_of(entries).no_duplicates(),
    ensures
        ids_of(without(entries, id)).no_duplicates(),
        !ids_of(without(entries, id)).contains(id),
        forall|other: Seq<char>|
            other != id ==> (#[trigger] ids_of(without(entries, id)).contains(other) <==> ids_of(
                entries,
            ).contains(other)),
        ids_of(entries).contains(id) ==> without(entries, id).len() == entries.len() - 1,
        !ids_of(entries).contains(id) ==> without(entries, id) == entries,
{
    let ids = ids_of(entries);
    let rest = ids_of(without(entries, id));
    if ids.contains(id) {
        let k = ids.index_of(id);
        assert(0 <= k < ids.len() && ids[k] == id);
        assert(rest =~= ids.remove(k));
        assert forall|a: int, b: int| 0 <= a < rest.len() && 0 <= b < rest.len() && a != b implies rest[a]
            != rest[b] by {
            let a0 = if a < k { a } else { a + 1 };
            let b0 = if b < k { b } else { b + 1 };
            assert(rest[a] == ids[a0] && rest[b] == ids[b0]);
        }
        assert forall|other: Seq<char>| other != id implies (#[trigger] rest.contains(other)
            <==> ids.contains(other)) by {
            if rest.contains(other) {
                let a = choose|a: int| 0 <= a < rest.len() && rest[a] == other;
                let a0 = if a < k { a } else { a + 1 };
                assert(ids[a0] == other);
            }
            if ids.contains(other) {
                let a0 = choose|a0: int| 0 <= a0 < ids.len() && ids[a0] == other;
                let a = if a0 < k { a0 } else { a0 - 1 };
                assert(rest[a] == other);
            }
        }
        if rest.contains(id) {
            let a = choose|a: int| 0 <= a < rest.len() && rest[a] == id;
            let a0 = if a < k { a } else { a + 1 };
            assert(ids[a0] == id && ids[k] == id && a0 != k);
        }
    }
}

/// A session that was just registered is listed: its identifier is the last
/// of the registry's identifiers, every identifier from before is still
/// there, and none occurs twice.
pub proof fn lemma_spawned_session_is_listed<H>(
    entries: Seq<(Seq<char>, PtySession<H>)>,
    id: Seq<char>,
    session: PtySession<H>,
)
    requires
        ids_of(entries).no_duplicates(),
        !ids_of(entries).contains(id),
    ensures
        ids_of(entries.push((id, session))) == ids_of(entries).push(id),
        ids_of(entries.push((id, session))).contains(id),
        ids_of(entries.push((id, session))).no_duplicates(),
        forall|other: Seq<char>|
            ids_of(entries).contains(other) ==> #[trigger] ids_of(
                entries.push((id, session)),
            ).contains(other),
{
    let grown = ids_of(entries.push((id, session)));
    assert(grown =~= ids_of(entries).push(id));
    assert(grown[entries.len() as int] == id);
    assert forall|other: Seq<char>| ids_of(entries).contains(other) implies #[trigger] grown.contains(
        other,
    ) by {
        let k = choose|k: int| 0 <= k < entries.len() && ids_of(entries)[k] == other;
        assert(grown[k] == other);
    }
}

/// A full registry has no room, and ending any one of its sessions makes
/// room for exactly one more.
pub proof fn lemma_kill_frees_a_slot<H>(entries: Seq<(Seq<char>, PtySession<H>)>, id: Seq<char>)
    requires
        ids_of(entries).no_duplicates(),
        entries.len() == MAX_SESSIONS,
        ids_of(entries).contains(id),
    ensures
        !has_room(entries),
        has_room(without(entries, id)),
        without(entries, id).len() == MAX_SESSIONS - 1,
{
    lemma_killed_session_is_gone(entries, id);
}

/// The value of a result that carries nothing on success.
pub open spec fn unit_result(r: Result<(), PtyError>) -> Result<(), ErrorModel> {
    match r {
        Ok(_) => Ok(()),
        Err(e) => Err(e@),
    }
}

/// What a write reports for the answer of the session's input writer.
pub open spec fn io_outcome(reply: Result<(), String>) -> Result<(), ErrorModel> {
    match reply {
        Ok(_) => Ok(()),
        Err(message) => Err(ErrorModel::IoError { message: message@ }),
    }
}

/// What a resize reports for the answer of the terminal.
pub open spec fn resize_outcome(reply: Result<(), String>) -> Result<(), ErrorModel> {
    match reply {
        Ok(_) => Ok(()),
        Err(message) => Err(ErrorModel::ResizeError { message: message@ }),
    }
}

/// Reports the answer of a session's input writer: a failure is an I/O error
/// with the writer's message.
pub fn io_result(reply: Result<(), String>) -> (r: Result<(), PtyError>)
    ensures
        unit_result(r) == io_outcome(reply),
{
    match reply {
        Ok(_) => Ok(()),
        Err(message) => Err(PtyError::IoError { message }),
    }
}

/// Reports the answer of a terminal to a resize: a failure is a resize error
/// with the system's message.
pub fn resize_result(reply: Result<(), String>) -> (r: Result<(), PtyError>)
    ensures
        unit_result(r) == resize_outcome(reply),
{
    match reply {
        Ok(_) => Ok(()),
        Err(message) => Err(PtyError::ResizeError { message }),
    }
}

} // verus!
