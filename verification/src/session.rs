//! Sessions and the session manager: the registry of PTY-backed child
//! processes, keyed by a monotonically increasing id, with the lifecycle
//! verbs (launch, list, attach, detach, send input, resize, kill).
//!
//! The manager holds the plain state of every session: its metadata, its
//! sticky status, and its advisory attach count. The runtime pieces that
//! Verus cannot hold — the PTY handles, the worker threads, the async
//! channels — live outside and feed their observations in as plain values
//! (a child's exit code, a queue's accept/reject, the clock).

use vstd::prelude::*;

use crate::protocol::SessionInfo;
use crate::text::{spec_dec_nat, u32_to_dec};

verus! {

/// The lifecycle state of a session. `Completed` and `Killed` are
/// terminal and sticky: once reached, the status never changes again.
#[derive(Debug, Clone, Copy, PartialEq, Eq, Structural)]
pub enum SessionStatus {
    Running,
    Completed(i32),
    Killed,
}

impl SessionStatus {
    /// Whether this status is terminal (no longer `Running`).
    pub open spec fn spec_is_terminal(&self) -> bool {
        !(self is Running)
    }

    /// Whether this status is terminal (no longer `Running`).
    pub fn is_terminal(&self) -> (r: bool)
        ensures
            r == self.spec_is_terminal(),
    {
        match self {
            SessionStatus::Running => false,
            _ => true,
        }
    }

    /// The display string of a status: "running", "completed (code)"
    /// or "killed".
    pub open spec fn spec_display(&self) -> Seq<char> {
        match self {
            SessionStatus::Running => "running"@,
            SessionStatus::Completed(code) => "completed ("@ + crate::text::spec_dec_int(
                *code as int,
            ) + ")"@,
            SessionStatus::Killed => "killed"@,
        }
    }

    /// Render the status for listings and messages.
    pub fn display(&self) -> (s: String)
        ensures
            s@ == self.spec_display(),
    {
        match self {
            SessionStatus::Running => "running".to_owned(),
            SessionStatus::Completed(code) => {
                let mut s = "completed (".to_owned();
                s.append(crate::text::i32_to_dec(*code).as_str());
                s.append(")");
                s
            },
            SessionStatus::Killed => "killed".to_owned(),
        }
    }
}

/// The sticky status latch: a terminal status wins over any later write.
pub open spec fn spec_apply_status(cur: SessionStatus, new: SessionStatus) -> SessionStatus {
    if cur.spec_is_terminal() {
        cur
    } else {
        new
    }
}

/// Apply one status transition under the sticky rule: the first terminal
/// writer wins and later writes are no-ops.
pub fn apply_status(cur: SessionStatus, new: SessionStatus) -> (r: SessionStatus)
    ensures
        r == spec_apply_status(cur, new),
{
    if cur.is_terminal() {
        cur
    } else {
        new
    }
}

/// A whole sequence of status writes, applied in order under the sticky
/// rule.
pub open spec fn spec_apply_status_all(s: SessionStatus, updates: Seq<SessionStatus>) -> SessionStatus
    decreases updates.len(),
{
    if updates.len() == 0 {
        s
    } else {
        spec_apply_status_all(spec_apply_status(s, updates[0]), updates.skip(1))
    }
}

/// Status stickiness: once a status is terminal, no sequence of later
/// writes changes it — in particular no later observation is `Running`.
pub proof fn lemma_status_sticky(s: SessionStatus, updates: Seq<SessionStatus>)
    requires
        s.spec_is_terminal(),
    ensures
        spec_apply_status_all(s, updates) == s,
    decreases updates.len(),
{
    if updates.len() > 0 {
        lemma_status_sticky(s, updates.skip(1));
    }
}

/// An error from a session-manager verb, with the session id it names.
#[derive(Debug, Clone, Copy, PartialEq, Eq, Structural)]
pub enum SessionError {
    /// No session with this id exists.
    NotFound(u32),
    /// The verb requires a `Running` session.
    NotRunning(u32),
}

impl SessionError {
    /// The message text surfaced to clients for this error.
    pub open spec fn spec_message(&self) -> Seq<char> {
        match self {
            SessionError::NotFound(id) => "session "@ + spec_dec_nat(*id as nat) + " not found"@,
            SessionError::NotRunning(id) => "session "@ + spec_dec_nat(*id as nat)
                + " is not running"@,
        }
    }

    /// Render the client-facing message for this error.
    pub fn message(&self) -> (s: String)
        ensures
            s@ == self.spec_message(),
    {
        match self {
            SessionError::NotFound(id) => {
                let mut s = "session ".to_owned();
                s.append(u32_to_dec(*id).as_str());
                s.append(" not found");
                s
            },
            SessionError::NotRunning(id) => {
                let mut s = "session ".to_owned();
                s.append(u32_to_dec(*id).as_str());
                s.append(" is not running");
                s
            },
        }
    }
}

/// The persistable projection of a session: what the metadata snapshot
/// holds on disk.
#[derive(Debug, Clone)]
pub struct SessionMeta {
    pub id: u32,
    /// The launched command rendered as one display string.
    pub prompt: String,
    pub working_dir: String,
    /// Wall-clock launch time, RFC 3339.
    pub created_at: String,
    pub status: SessionStatus,
    /// OS process id of the child, absent when the launch failed after
    /// validation.
    pub pid: Option<u32>,
}

/// One live session as the registry knows it: its metadata, the advisory
/// count of attached clients, and where its output log lives.
#[derive(Debug, Clone)]
pub struct Session {
    pub meta: SessionMeta,
    /// How many clients are currently attached; advisory only.
    pub attached_count: usize,
    /// Absolute path of the append-only output log.
    pub log_path: String,
}

/// The registry of sessions, sorted by strictly increasing id, plus the
/// monotonic next-id counter.
pub struct SessionManager {
    pub sessions: Vec<Session>,
    pub data_dir: String,
    pub next_id: u32,
}

/// The next id to hand out after restoring a metadata snapshot: one past
/// the largest persisted id, or 1 from an empty snapshot.
pub open spec fn spec_next_id_from(ids: Seq<u32>) -> u32
    decreases ids.len(),
{
    if ids.len() == 0 {
        1u32
    } else {
        let rest = spec_next_id_from(ids.skip(1));
        if ids[0] as int + 1 > rest {
            (ids[0] + 1) as u32
        } else {
            rest
        }
    }
}

impl SessionManager {
    /// Registry well-formedness: ids strictly increase along the vector
    /// (so each id occurs once and listings are sorted), and every id is
    /// below the next-id counter.
    pub open spec fn wf(&self) -> bool {
        &&& forall|i: int, j: int|
            0 <= i < j < self.sessions@.len() ==> (#[trigger] self.sessions@[i].meta.id) < (
            #[trigger] self.sessions@[j].meta.id)
        &&& forall|i: int|
            0 <= i < self.sessions@.len() ==> (#[trigger] self.sessions@[i].meta.id) < self.next_id
        &&& self.next_id >= 1
    }

    /// Whether a session with this id is in the registry.
    pub open spec fn spec_has(&self, id: u32) -> bool {
        exists|i: int| 0 <= i < self.sessions@.len() && (#[trigger] self.sessions@[i].meta.id) == id
    }

    /// The registry index of the session with this id.
    pub open spec fn spec_index_of(&self, id: u32) -> int {
        choose|i: int| 0 <= i < self.sessions@.len() && (#[trigger] self.sessions@[i].meta.id) == id
    }

    /// In a well-formed registry each id occurs at most once.
    pub proof fn lemma_id_unique(&self, i: int, j: int)
        requires
            self.wf(),
            0 <= i < self.sessions@.len(),
            0 <= j < self.sessions@.len(),
            self.sessions@[i].meta.id == self.sessions@[j].meta.id,
        ensures
            i == j,
    {
    }

    /// A fresh manager. `restored_ids` are the session ids read from a
    /// persisted metadata snapshot (empty when there is none, or when it
    /// failed to parse): the next id starts strictly above all of them.
    pub fn new(data_dir: String, restored_ids: &Vec<u32>) -> (m: Self)
        requires
            forall|i: int| 0 <= i < restored_ids@.len() ==> (#[trigger] restored_ids@[i]) < u32::MAX,
        ensures
            m.wf(),
            m.sessions@.len() == 0,
            m.data_dir == data_dir,
            m.next_id == spec_next_id_from(restored_ids@),
            forall|i: int| 0 <= i < restored_ids@.len() ==> (#[trigger] restored_ids@[i]) < m.next_id,
    {
        let mut next: u32 = 1;
        let mut i: usize = 0;
        proof {
            lemma_next_id_from_bounds(restored_ids@);
            assert(restored_ids@.skip(0) =~= restored_ids@);
        }
        while i < restored_ids.len()
            invariant
                i <= restored_ids@.len(),
                forall|k: int|
                    0 <= k < restored_ids@.len() ==> (#[trigger] restored_ids@[k]) < u32::MAX,
                next >= 1,
                spec_next_id_from(restored_ids@) == if next > spec_next_id_from(
                    restored_ids@.skip(i as int),
                ) {
                    next
                } else {
                    spec_next_id_from(restored_ids@.skip(i as int))
                },
            decreases restored_ids@.len() - i,
        {
            proof {
                lemma_next_id_from_bounds(restored_ids@.skip(i as int));
                assert(restored_ids@.skip(i as int)[0] == restored_ids@[i as int]);
                assert(restored_ids@.skip(i as int).skip(1) =~= restored_ids@.skip(i + 1));
            }
            let cand = restored_ids[i] + 1;
            if cand > next {
                next = cand;
            }
            i = i + 1;
        }
        proof {
            assert(restored_ids@.skip(restored_ids@.len() as int) =~= Seq::<u32>::empty());
            lemma_next_id_from_bounds(restored_ids@);
        }
        SessionManager { sessions: Vec::new(), data_dir, next_id: next }
    }

    /// Find the registry index holding this id.
    fn find(&self, id: u32) -> (r: Option<usize>)
        requires
            self.wf(),
        ensures
            match r {
                Some(i) => i < self.sessions@.len() && self.sessions@[i as int].meta.id == id && i
                    as int == self.spec_index_of(id),
                None => !self.spec_has(id),
            },
    {
        let mut i: usize = 0;
        while i < self.sessions.len()
            invariant
                self.wf(),
                i <= self.sessions@.len(),
                forall|k: int| 0 <= k < i ==> (#[trigger] self.sessions@[k].meta.id) != id,
            decreases self.sessions@.len() - i,
        {
            if self.sessions[i].meta.id == id {
                proof {
                    let w = self.spec_index_of(id);
                    self.lemma_id_unique(i as int, w);
                }
                return Some(i);
            }
            i = i + 1;
        }
        None
    }

    /// Whether a session with this id is in the registry.
    pub fn has_session(&self, id: u32) -> (r: bool)
        requires
            self.wf(),
        ensures
            r == self.spec_has(id),
    {
        self.find(id).is_some()
    }

    /// Attach a client to a running session: the precondition is that the
    /// session exists and is `Running`; the advisory attach count goes up
    /// by one (saturating at the machine word, a limit no real node
    /// reaches). Returns `NotFound` exactly when the id is unknown and
    /// `NotRunning` exactly when the session exists but has ended.
    pub fn attach(&mut self, id: u32) -> (r: Result<(), SessionError>)
        requires
            old(self).wf(),
        ensures
            final(self).wf(),
            final(self).next_id == old(self).next_id,
            final(self).data_dir == old(self).data_dir,
            !old(self).spec_has(id) ==> r == Err::<(), SessionError>(SessionError::NotFound(id))
                && final(self).sessions@ == old(self).sessions@,
            old(self).spec_has(id) && old(self).sessions@[old(self).spec_index_of(
                id,
            )].meta.status.spec_is_terminal() ==> r == Err::<(), SessionError>(
                SessionError::NotRunning(id),
            ) && final(self).sessions@ == old(self).sessions@,
            old(self).spec_has(id) && !old(self).sessions@[old(self).spec_index_of(
                id,
            )].meta.status.spec_is_terminal() ==> {
                let i = old(self).spec_index_of(id);
                let s = old(self).sessions@[i];
                &&& r == Ok::<(), SessionError>(())
                &&& final(self).sessions@ == old(self).sessions@.update(
                    i,
                    (Session { attached_count: spec_sat_inc(s.attached_count), ..s }),
                )
            },
    {
        match self.find(id) {
            None => Err(SessionError::NotFound(id)),
            Some(i) => {
                if self.sessions[i].meta.status.is_terminal() {
                    Err(SessionError::NotRunning(id))
                } else {
                    let s = self.sessions.remove(i);
                    let count = if s.attached_count < usize::MAX {
                        s.attached_count + 1
                    } else {
                        s.attached_count
                    };
                    let s2 = Session { attached_count: count, ..s };
                    self.sessions.insert(i, s2);
                    proof {
                        assert(final(self).sessions@ =~= old(self).sessions@.update(
                            i as int,
                            (Session {
                                attached_count: spec_sat_inc(
                                    old(self).sessions@[i as int].attached_count,
                                ),
                                ..old(self).sessions@[i as int]
                            }),
                        ));
                    }
                    Ok(())
                }
            },
        }
    }

    /// Detach one client: the advisory attach count goes down by one,
    /// saturating at zero. On a session that has already ended (but is
    /// still in the registry) this is a no-op that returns success; only
    /// an unknown id is `NotFound`.
    pub fn detach(&mut self, id: u32) -> (r: Result<(), SessionError>)
        requires
            old(self).wf(),
        ensures
            final(self).wf(),
            final(self).next_id == old(self).next_id,
            final(self).data_dir == old(self).data_dir,
            !old(self).spec_has(id) ==> r == Err::<(), SessionError>(SessionError::NotFound(id))
                && final(self).sessions@ == old(self).sessions@,
            old(self).spec_has(id) ==> {
                let i = old(self).spec_index_of(id);
                let s = old(self).sessions@[i];
                &&& r == Ok::<(), SessionError>(())
                &&& final(self).sessions@ == old(self).sessions@.update(
                    i,
                    (Session { attached_count: spec_sat_dec(s.attached_count), ..s }),
                )
            },
    {
        match self.find(id) {
            None => Err(SessionError::NotFound(id)),
            Some(i) => {
                let s = self.sessions.remove(i);
                let count = if s.attached_count > 0 {
                    s.attached_count - 1
                } else {
                    0
                };
                let s2 = Session { attached_count: count, ..s };
                self.sessions.insert(i, s2);
                proof {
                    assert(final(self).sessions@ =~= old(self).sessions@.update(
                        i as int,
                        (Session {
                            attached_count: spec_sat_dec(
                                old(self).sessions@[i as int].attached_count,
                            ),
                            ..old(self).sessions@[i as int]
                        }),
                    ));
                }
                Ok(())
            },
        }
    }
}

/// What the environment says about a launch request: whether argv[0]
/// resolves and whether the working directory is usable. These are
/// filesystem facts the caller observes and hands in as plain values.
pub struct LaunchEnv {
    /// For a relative argv[0]: `Some(found)` when a PATH variable existed
    /// and was searched; `None` when PATH itself was unreadable (the
    /// launch then proceeds, as the spawn will fail on its own).
    pub path_lookup: Option<bool>,
    /// For an absolute argv[0]: whether that path exists.
    pub absolute_exists: bool,
    /// Whether the requested working directory exists.
    pub workdir_exists: bool,
    /// Whether the requested working directory is a directory.
    pub workdir_is_dir: bool,
}

/// Why a launch request was rejected.
#[derive(Debug, Clone)]
pub enum LaunchError {
    /// The command vector was empty.
    EmptyCommand,
    /// A relative argv[0] was not found on PATH.
    CommandNotFound(String),
    /// An absolute argv[0] does not exist.
    CommandMissing(String),
    /// The working directory does not exist.
    WorkdirMissing(String),
    /// The working directory is not a directory.
    WorkdirNotDir(String),
}

impl LaunchError {
    /// The message text surfaced to clients for this error.
    pub open spec fn spec_message(&self) -> Seq<char> {
        match self {
            LaunchError::EmptyCommand => "command must not be empty"@,
            LaunchError::CommandNotFound(cmd) => "Command '"@ + cmd@ + "' not found in PATH"@,
            LaunchError::CommandMissing(cmd) => "Command '"@ + cmd@ + "' does not exist"@,
            LaunchError::WorkdirMissing(wd) => "Working directory '"@ + wd@ + "' does not exist"@,
            LaunchError::WorkdirNotDir(wd) => "Working directory '"@ + wd@
                + "' is not a directory"@,
        }
    }

    /// Render the client-facing message for this error.
    pub fn message(&self) -> (s: String)
        ensures
            s@ == self.spec_message(),
    {
        match self {
            LaunchError::EmptyCommand => "command must not be empty".to_owned(),
            LaunchError::CommandNotFound(cmd) => {
                let mut s = "Command '".to_owned();
                s.append(cmd.as_str());
                s.append("' not found in PATH");
                s
            },
            LaunchError::CommandMissing(cmd) => {
                let mut s = "Command '".to_owned();
                s.append(cmd.as_str());
                s.append("' does not exist");
                s
            },
            LaunchError::WorkdirMissing(wd) => {
                let mut s = "Working directory '".to_owned();
                s.append(wd.as_str());
                s.append("' does not exist");
                s
            },
            LaunchError::WorkdirNotDir(wd) => {
                let mut s = "Working directory '".to_owned();
                s.append(wd.as_str());
                s.append("' is not a directory");
                s
            },
        }
    }
}

/// Whether a path string is absolute (starts with a slash).
pub open spec fn spec_is_absolute(p: Seq<char>) -> bool {
    p.len() > 0 && p[0] == '/'
}

/// Whether `prepare_launch` accepts this request in this environment.
pub open spec fn spec_launch_ok(command: Seq<Seq<char>>, env: LaunchEnv) -> bool {
    &&& command.len() > 0
    &&& (if spec_is_absolute(command[0]) {
        env.absolute_exists
    } else {
        env.path_lookup != Some(false)
    })
    &&& env.workdir_exists
    &&& env.workdir_is_dir
}

/// How many sessions in the registry are currently `Running`.
pub open spec fn spec_count_running(s: Seq<Session>) -> int
    decreases s.len(),
{
    if s.len() == 0 {
        0
    } else {
        spec_count_running(s.drop_last()) + if s.last().meta.status is Running {
            1int
        } else {
            0int
        }
    }
}

/// The pids a kill-all signals: those of `Running` sessions that have
/// one, in registry order.
pub open spec fn spec_kill_pids(s: Seq<Session>) -> Seq<u32>
    decreases s.len(),
{
    if s.len() == 0 {
        Seq::empty()
    } else {
        spec_kill_pids(s.drop_last()) + match s.last().meta.pid {
            Some(pid) => if s.last().meta.status is Running {
                seq![pid]
            } else {
                Seq::empty()
            },
            None => Seq::empty(),
        }
    }
}

/// The ids a kill-all latches to `Killed`: those of the `Running`
/// sessions, in registry order.
pub open spec fn spec_killed_ids(s: Seq<Session>) -> Seq<u32>
    decreases s.len(),
{
    if s.len() == 0 {
        Seq::empty()
    } else {
        spec_killed_ids(s.drop_last()) + (if s.last().meta.status is Running {
            seq![s.last().meta.id]
        } else {
            Seq::empty()
        })
    }
}

/// The first status observation for this id, if any.
pub open spec fn spec_observed_for(obs: Seq<(u32, SessionStatus)>, id: u32) -> Option<SessionStatus>
    decreases obs.len(),
{
    if obs.len() == 0 {
        None
    } else if obs[0].0 == id {
        Some(obs[0].1)
    } else {
        spec_observed_for(obs.skip(1), id)
    }
}

impl SessionManager {
    /// Validate a launch request and allocate its id.
    ///
    /// The checks run in the order the launch protocol fixes: the
    /// command, then argv[0]'s resolution, then the working directory —
    /// and only then is a new id allocated, so a rejected request leaves
    /// the counter untouched. (A launch that fails later, at spawn, does
    /// burn its id.) On success the returned id is the counter's value:
    /// strictly above every id already in the registry and every id
    /// handed out before, which is id monotonicity for launches.
    pub fn prepare_launch(
        &mut self,
        command: &Vec<String>,
        env: &LaunchEnv,
        working_dir: &str,
    ) -> (r: Result<u32, LaunchError>)
        requires
            old(self).wf(),
            old(self).next_id < u32::MAX,
        ensures
            final(self).wf(),
            final(self).sessions@ == old(self).sessions@,
            final(self).data_dir == old(self).data_dir,
            r is Err ==> final(self).next_id == old(self).next_id,
            command@.len() == 0 ==> r == Err::<u32, LaunchError>(LaunchError::EmptyCommand),
            command@.len() > 0 && !spec_is_absolute(command@[0]@) && env.path_lookup == Some(false)
                ==> (r matches Err(LaunchError::CommandNotFound(c)) && c@ == command@[0]@),
            command@.len() > 0 && spec_is_absolute(command@[0]@) && !env.absolute_exists
                ==> (r matches Err(LaunchError::CommandMissing(c)) && c@ == command@[0]@),
            command@.len() > 0 && (if spec_is_absolute(command@[0]@) {
                env.absolute_exists
            } else {
                env.path_lookup != Some(false)
            }) ==> (if !env.workdir_exists {
                r matches Err(LaunchError::WorkdirMissing(w)) && w@ == working_dir@
            } else if !env.workdir_is_dir {
                r matches Err(LaunchError::WorkdirNotDir(w)) && w@ == working_dir@
            } else {
                r == Ok::<u32, LaunchError>(old(self).next_id)
            }),
            (r is Ok) <==> spec_launch_ok(command@.map_values(|c: String| c@), *env),
            r is Ok ==> r == Ok::<u32, LaunchError>(old(self).next_id) && final(self).next_id
                == old(self).next_id + 1,
            r is Ok ==> forall|i: int|
                0 <= i < old(self).sessions@.len() ==> (#[trigger] old(
                    self,
                ).sessions@[i].meta.id) < r.unwrap(),
    {
        if command.len() == 0 {
            return Err(LaunchError::EmptyCommand);
        }
        let argv0 = &command[0];
        let absolute = argv0.unicode_len() > 0 && argv0.as_str().get_char(0) == '/';
        if !absolute {
            match env.path_lookup {
                Some(false) => {
                    return Err(LaunchError::CommandNotFound(clone_string(argv0)));
                },
                _ => {},
            }
        } else if !env.absolute_exists {
            return Err(LaunchError::CommandMissing(clone_string(argv0)));
        }
        if !env.workdir_exists {
            return Err(LaunchError::WorkdirMissing(working_dir.to_owned()));
        }
        if !env.workdir_is_dir {
            return Err(LaunchError::WorkdirNotDir(working_dir.to_owned()));
        }
        let id = self.next_id;
        self.next_id = self.next_id + 1;
        Ok(id)
    }

    /// Record a session whose child has been spawned. The id is the one
    /// `prepare_launch` allocated; the caller observed the spawn and
    /// hands in the child's pid and the wall-clock launch time. The
    /// session enters the registry `Running` with no clients attached,
    /// at its place in id order.
    pub fn complete_launch(
        &mut self,
        id: u32,
        prompt: String,
        working_dir: String,
        created_at: String,
        log_path: String,
        pid: Option<u32>,
    )
        requires
            old(self).wf(),
            !old(self).spec_has(id),
            id < old(self).next_id,
        ensures
            final(self).wf(),
            final(self).next_id == old(self).next_id,
            final(self).data_dir == old(self).data_dir,
            final(self).spec_has(id),
            exists|k: int|
                0 <= k <= old(self).sessions@.len() && final(self).sessions@ == #[trigger] old(
                    self,
                ).sessions@.insert(
                    k,
                    (Session {
                        meta: (SessionMeta {
                            id,
                            prompt,
                            working_dir,
                            created_at,
                            status: SessionStatus::Running,
                            pid,
                        }),
                        attached_count: 0,
                        log_path,
                    }),
                ),
    {
        let s = Session {
            meta: SessionMeta {
                id,
                prompt,
                working_dir,
                created_at,
                status: SessionStatus::Running,
                pid,
            },
            attached_count: 0,
            log_path,
        };
        let mut k: usize = 0;
        while k < self.sessions.len() && self.sessions[k].meta.id < id
            invariant
                old(self) == self,
                self.wf(),
                k <= self.sessions@.len(),
                forall|m: int| 0 <= m < k ==> (#[trigger] self.sessions@[m].meta.id) < id,
            decreases self.sessions@.len() - k,
        {
            k = k + 1;
        }
        proof {
            if k < self.sessions@.len() {
                assert(self.sessions@[k as int].meta.id != id);
                assert(self.sessions@[k as int].meta.id > id);
            }
        }
        self.sessions.insert(k, s);
        proof {
            let ns = final(self).sessions@;
            let os = old(self).sessions@;
            assert forall|i: int, j: int| 0 <= i < j < ns.len() implies (
            #[trigger] ns[i].meta.id) < (#[trigger] ns[j].meta.id) by {
                if j < k {
                    assert(ns[i] == os[i] && ns[j] == os[j]);
                } else if i > k {
                    assert(ns[i] == os[i - 1] && ns[j] == os[j - 1]);
                } else if i == k {
                    assert(ns[j] == os[j - 1]);
                    assert(os[j - 1].meta.id > id);
                } else if j == k {
                    assert(ns[i] == os[i]);
                } else {
                    assert(ns[i] == os[i]);
                    assert(ns[j] == os[j - 1]);
                    assert(os[j - 1].meta.id > id) by {
                        if j - 1 > k - 1 {
                            if j - 1 <= k {
                            } else {
                                assert(os[k as int].meta.id < os[j - 1].meta.id);
                            }
                        }
                    }
                }
            }
            assert(ns[k as int].meta.id == id);
        }
    }

    /// Kill a session: its status latches to `Killed` (unless already
    /// terminal, in which case the first writer has won and nothing
    /// changes) and the child's pid, if any, is returned for the caller
    /// to signal. `NotFound` exactly when the id is unknown.
    pub fn kill(&mut self, id: u32) -> (r: Result<Option<u32>, SessionError>)
        requires
            old(self).wf(),
        ensures
            final(self).wf(),
            final(self).next_id == old(self).next_id,
            final(self).data_dir == old(self).data_dir,
            !old(self).spec_has(id) ==> r == Err::<Option<u32>, SessionError>(
                SessionError::NotFound(id),
            ) && final(self).sessions@ == old(self).sessions@,
            old(self).spec_has(id) ==> {
                let i = old(self).spec_index_of(id);
                let s = old(self).sessions@[i];
                &&& r == Ok::<Option<u32>, SessionError>(s.meta.pid)
                &&& final(self).sessions@ == old(self).sessions@.update(
                    i,
                    (Session {
                        meta: (SessionMeta {
                            status: spec_apply_status(s.meta.status, SessionStatus::Killed),
                            ..s.meta
                        }),
                        ..s
                    }),
                )
            },
    {
        match self.find(id) {
            None => Err(SessionError::NotFound(id)),
            Some(i) => {
                let s = self.sessions.remove(i);
                let pid = s.meta.pid;
                let status = apply_status(s.meta.status, SessionStatus::Killed);
                let s2 = Session { meta: SessionMeta { status, ..s.meta }, ..s };
                self.sessions.insert(i, s2);
                proof {
                    let os = old(self).sessions@;
                    let w = old(self).spec_index_of(id);
                    assert(final(self).sessions@ =~= os.update(
                        w,
                        (Session {
                            meta: (SessionMeta {
                                status: spec_apply_status(
                                    os[w].meta.status,
                                    SessionStatus::Killed,
                                ),
                                ..os[w].meta
                            }),
                            ..os[w]
                        }),
                    ));
                }
                Ok(pid)
            },
        }
    }
}

impl SessionManager {
    /// The summarized view of one session, with the optional log-derived
    /// fields supplied by the caller (absent in plain listings).
    fn session_info(
        s: &Session,
        output_size_bytes: Option<u64>,
        last_output_snippet: Option<String>,
    ) -> (info: SessionInfo)
        ensures
            info.id == s.meta.id,
            info.prompt@ == s.meta.prompt@,
            info.working_dir@ == s.meta.working_dir@,
            info.created_at@ == s.meta.created_at@,
            info.status@ == s.meta.status.spec_display(),
            info.attached == (s.attached_count > 0),
            info.pid == s.meta.pid,
            info.output_size_bytes == output_size_bytes,
            info.last_output_snippet == last_output_snippet,
    {
        SessionInfo {
            id: s.meta.id,
            prompt: clone_string(&s.meta.prompt),
            working_dir: clone_string(&s.meta.working_dir),
            created_at: clone_string(&s.meta.created_at),
            status: s.meta.status.display(),
            attached: s.attached_count > 0,
            pid: s.meta.pid,
            output_size_bytes,
            last_output_snippet,
        }
    }

    /// List every session, in ascending id order (the registry's own
    /// order), each summarized with its live status and whether any
    /// client is attached. The log-derived fields stay empty here.
    pub fn list(&self) -> (r: Vec<SessionInfo>)
        requires
            self.wf(),
        ensures
            r@.len() == self.sessions@.len(),
            forall|i: int|
                0 <= i < r@.len() ==> spec_info_matches(#[trigger] r@[i], self.sessions@[i]),
            forall|i: int, j: int| 0 <= i < j < r@.len() ==> r@[i].id < r@[j].id,
    {
        let mut r: Vec<SessionInfo> = Vec::new();
        let mut i: usize = 0;
        while i < self.sessions.len()
            invariant
                self.wf(),
                i <= self.sessions@.len(),
                r@.len() == i,
                forall|k: int|
                    0 <= k < i ==> spec_info_matches(#[trigger] r@[k], self.sessions@[k]),
            decreases self.sessions@.len() - i,
        {
            let info = Self::session_info(&self.sessions[i], None, None);
            r.push(info);
            i = i + 1;
        }
        proof {
            assert forall|i: int, j: int| 0 <= i < j < r@.len() implies r@[i].id < r@[j].id by {
                assert(spec_info_matches(r@[i], self.sessions@[i]));
                assert(spec_info_matches(r@[j], self.sessions@[j]));
            }
        }
        r
    }

    /// Detailed status for one session: the summary enriched with the
    /// log size and the last lines of output, both observed by the
    /// caller from the log file. `NotFound` exactly when the id is
    /// unknown.
    pub fn get_status(
        &self,
        id: u32,
        output_size: u64,
        snippet: Option<String>,
    ) -> (r: Result<(SessionInfo, u64), SessionError>)
        requires
            self.wf(),
        ensures
            !self.spec_has(id) ==> (r matches Err(e) && e == SessionError::NotFound(id)),
            self.spec_has(id) ==> (r matches Ok(p) && {
                let s = self.sessions@[self.spec_index_of(id)];
                &&& spec_info_matches_full(p.0, s, output_size, snippet)
                &&& p.1 == output_size
            }),
    {
        match self.find(id) {
            None => Err(SessionError::NotFound(id)),
            Some(i) => {
                let info = Self::session_info(
                    &self.sessions[i],
                    Some(output_size),
                    snippet,
                );
                Ok((info, output_size))
            },
        }
    }

    /// Kill every running session: each latches to `Killed`; sessions
    /// already ended are untouched. Returns how many sessions were
    /// running (the snapshot size a bulk kill reports), the pids to
    /// signal, and the ids that were latched, in registry order.
    pub fn kill_all(&mut self) -> (r: (usize, Vec<u32>, Vec<u32>))
        requires
            old(self).wf(),
        ensures
            final(self).wf(),
            final(self).next_id == old(self).next_id,
            final(self).data_dir == old(self).data_dir,
            final(self).sessions@.len() == old(self).sessions@.len(),
            forall|i: int|
                0 <= i < old(self).sessions@.len() ==> #[trigger] final(self).sessions@[i] == {
                    let s = old(self).sessions@[i];
                    (Session {
                        meta: (SessionMeta {
                            status: spec_apply_status(s.meta.status, SessionStatus::Killed),
                            ..s.meta
                        }),
                        ..s
                    })
                },
            r.0 == spec_count_running(old(self).sessions@),
            r.1@ == spec_kill_pids(old(self).sessions@),
            r.2@ == spec_killed_ids(old(self).sessions@),
    {
        let ghost os = old(self).sessions@;
        let mut count: usize = 0;
        let mut pids: Vec<u32> = Vec::new();
        let mut killed: Vec<u32> = Vec::new();
        let mut i: usize = 0;
        proof {
            assert(os.subrange(0, 0) =~= Seq::<Session>::empty());
        }
        while i < self.sessions.len()
            invariant
                i <= self.sessions@.len(),
                self.sessions@.len() == os.len(),
                self.next_id == old(self).next_id,
                self.data_dir == old(self).data_dir,
                self.wf() == old(self).wf(),
                old(self).wf(),
                forall|k: int| i <= k < os.len() ==> #[trigger] self.sessions@[k] == os[k],
                forall|k: int|
                    0 <= k < i ==> #[trigger] self.sessions@[k] == (Session {
                        meta: (SessionMeta {
                            status: spec_apply_status(os[k].meta.status, SessionStatus::Killed),
                            ..os[k].meta
                        }),
                        ..os[k]
                    }),
                count == spec_count_running(os.subrange(0, i as int)),
                count <= i,
                pids@ == spec_kill_pids(os.subrange(0, i as int)),
                killed@ == spec_killed_ids(os.subrange(0, i as int)),
                forall|k: int, m: int|
                    0 <= k < m < self.sessions@.len() ==> (#[trigger] self.sessions@[k].meta.id)
                        < (#[trigger] self.sessions@[m].meta.id),
                forall|k: int|
                    0 <= k < self.sessions@.len() ==> (#[trigger] self.sessions@[k].meta.id)
                        < self.next_id,
            decreases self.sessions@.len() - i,
        {
            let ghost before = self.sessions@;
            let running = !self.sessions[i].meta.status.is_terminal();
            if running {
                count = count + 1;
                killed.push(self.sessions[i].meta.id);
                match self.sessions[i].meta.pid {
                    Some(pid) => pids.push(pid),
                    None => {},
                }
                let s = self.sessions.remove(i);
                let s2 = Session {
                    meta: SessionMeta { status: SessionStatus::Killed, ..s.meta },
                    ..s
                };
                self.sessions.insert(i, s2);
                proof {
                    assert(self.sessions@ =~= before.update(i as int, self.sessions@[i as int]));
                }
            }
            i = i + 1;
            proof {
                let pre = os.subrange(0, i as int);
                assert(pre.drop_last() =~= os.subrange(0, i - 1));
                assert(pre.last() == os[i - 1]);
                assert(self.sessions@[i - 1] == (Session {
                    meta: (SessionMeta {
                        status: spec_apply_status(os[i - 1].meta.status, SessionStatus::Killed),
                        ..os[i - 1].meta
                    }),
                    ..os[i - 1]
                }));
            }
        }
        proof {
            assert(os.subrange(0, os.len() as int) =~= os);
        }
        (count, pids, killed)
    }

    /// The absolute path of a session's output log:
    /// `<data_dir>/sessions/<id>/output.log`. `NotFound` exactly when
    /// the id is unknown.
    pub fn log_path(&self, id: u32) -> (r: Result<String, SessionError>)
        requires
            self.wf(),
        ensures
            !self.spec_has(id) ==> (r matches Err(e) && e == SessionError::NotFound(id)),
            self.spec_has(id) ==> (r matches Ok(p) && p@ == spec_log_path(self.data_dir@, id)),
    {
        if self.find(id).is_none() {
            return Err(SessionError::NotFound(id));
        }
        let mut p = clone_string(&self.data_dir);
        p.append("/sessions/");
        p.append(u32_to_dec(id).as_str());
        p.append("/output.log");
        Ok(p)
    }

    /// Reconcile each session's cached status with the statuses the
    /// caller observed from the live workers, under the sticky rule.
    /// Returns whether anything changed (the signal that the metadata
    /// snapshot wants writing).
    pub fn refresh_statuses(&mut self, observed: &Vec<(u32, SessionStatus)>) -> (changed: bool)
        requires
            old(self).wf(),
        ensures
            final(self).wf(),
            final(self).next_id == old(self).next_id,
            final(self).data_dir == old(self).data_dir,
            final(self).sessions@.len() == old(self).sessions@.len(),
            forall|i: int|
                0 <= i < old(self).sessions@.len() ==> #[trigger] final(self).sessions@[i] == {
                    let s = old(self).sessions@[i];
                    (Session {
                        meta: (SessionMeta {
                            status: match spec_observed_for(observed@, s.meta.id) {
                                Some(st) => spec_apply_status(s.meta.status, st),
                                None => s.meta.status,
                            },
                            ..s.meta
                        }),
                        ..s
                    })
                },
            changed <==> exists|i: int|
                0 <= i < old(self).sessions@.len()
                    && (#[trigger] final(self).sessions@[i].meta.status)
                    != old(self).sessions@[i].meta.status,
    {
        let ghost os = old(self).sessions@;
        let mut changed = false;
        let mut i: usize = 0;
        while i < self.sessions.len()
            invariant
                i <= self.sessions@.len(),
                self.sessions@.len() == os.len(),
                self.next_id == old(self).next_id,
                self.data_dir == old(self).data_dir,
                old(self).wf(),
                forall|k: int| i <= k < os.len() ==> #[trigger] self.sessions@[k] == os[k],
                forall|k: int|
                    0 <= k < i ==> #[trigger] self.sessions@[k] == (Session {
                        meta: (SessionMeta {
                            status: match spec_observed_for(observed@, os[k].meta.id) {
                                Some(st) => spec_apply_status(os[k].meta.status, st),
                                None => os[k].meta.status,
                            },
                            ..os[k].meta
                        }),
                        ..os[k]
                    }),
                changed <==> exists|k: int|
                    0 <= k < i && (#[trigger] self.sessions@[k].meta.status)
                        != os[k].meta.status,
                forall|k: int, m: int|
                    0 <= k < m < self.sessions@.len() ==> (#[trigger] self.sessions@[k].meta.id)
                        < (#[trigger] self.sessions@[m].meta.id),
                forall|k: int|
                    0 <= k < self.sessions@.len() ==> (#[trigger] self.sessions@[k].meta.id)
                        < self.next_id,
            decreases self.sessions@.len() - i,
        {
            let ghost before = self.sessions@;
            let ghost changed0 = changed;
            let id = self.sessions[i].meta.id;
            match observed_for(observed, id) {
                Some(st) => {
                    let cur = self.sessions[i].meta.status;
                    let next = apply_status(cur, st);
                    if next != cur {
                        changed = true;
                    }
                    let s = self.sessions.remove(i);
                    let s2 = Session {
                        meta: SessionMeta { status: next, ..s.meta },
                        ..s
                    };
                    self.sessions.insert(i, s2);
                    proof {
                        assert(self.sessions@ =~= before.update(
                            i as int,
                            self.sessions@[i as int],
                        ));
                    }
                },
                None => {},
            }
            i = i + 1;
            proof {
                assert(self.sessions@[i - 1] == (Session {
                    meta: (SessionMeta {
                        status: match spec_observed_for(observed@, os[i - 1].meta.id) {
                            Some(st) => spec_apply_status(os[i - 1].meta.status, st),
                            None => os[i - 1].meta.status,
                        },
                        ..os[i - 1].meta
                    }),
                    ..os[i - 1]
                }));
                if changed {
                    if self.sessions@[i - 1].meta.status != os[i - 1].meta.status {
                        assert(0 <= i - 1 < i && (#[trigger] self.sessions@[i
                            - 1].meta.status) != os[i - 1].meta.status);
                    } else {
                        assert(changed0);
                        let k = choose|k: int|
                            0 <= k < i - 1 && (#[trigger] before[k].meta.status)
                                != os[k].meta.status;
                        assert(self.sessions@[k] == before[k]);
                        assert(0 <= k < i && (#[trigger] self.sessions@[k].meta.status)
                            != os[k].meta.status);
                    }
                }
            }
        }
        changed
    }

    /// Snapshot every session's metadata, in registry order: what the
    /// persistence coordinator serializes to disk.
    pub fn metas(&self) -> (r: Vec<SessionMeta>)
        requires
            self.wf(),
        ensures
            r@.len() == self.sessions@.len(),
            forall|i: int|
                0 <= i < r@.len() ==> spec_meta_matches(#[trigger] r@[i], self.sessions@[i].meta),
    {
        let mut r: Vec<SessionMeta> = Vec::new();
        let mut i: usize = 0;
        while i < self.sessions.len()
            invariant
                self.wf(),
                i <= self.sessions@.len(),
                r@.len() == i,
                forall|k: int|
                    0 <= k < i ==> spec_meta_matches(#[trigger] r@[k], self.sessions@[k].meta),
            decreases self.sessions@.len() - i,
        {
            let m = &self.sessions[i].meta;
            r.push(SessionMeta {
                id: m.id,
                prompt: clone_string(&m.prompt),
                working_dir: clone_string(&m.working_dir),
                created_at: clone_string(&m.created_at),
                status: m.status,
                pid: m.pid,
            });
            i = i + 1;
        }
        r
    }

    /// Resize a session's terminal: the verb validates that the session
    /// exists and hands the dimensions back for the caller to apply to
    /// the PTY master. `NotFound` exactly when the id is unknown.
    pub fn resize(&self, id: u32, cols: u16, rows: u16) -> (r: Result<(u16, u16), SessionError>)
        requires
            self.wf(),
        ensures
            !self.spec_has(id) ==> (r matches Err(e) && e == SessionError::NotFound(id)),
            self.spec_has(id) ==> r == Ok::<(u16, u16), SessionError>((cols, rows)),
    {
        match self.find(id) {
            None => Err(SessionError::NotFound(id)),
            Some(_) => Ok((cols, rows)),
        }
    }

    /// Send input to a session without attaching: the verb validates
    /// that the session exists and counts the bytes; the caller then
    /// offers them to the session's input queue without blocking.
    /// `NotFound` exactly when the id is unknown.
    pub fn send_input(&self, id: u32, data: &Vec<u8>) -> (r: Result<usize, SessionError>)
        requires
            self.wf(),
        ensures
            !self.spec_has(id) ==> (r matches Err(e) && e == SessionError::NotFound(id)),
            self.spec_has(id) ==> r == Ok::<usize, SessionError>(data@.len() as usize),
    {
        match self.find(id) {
            None => Err(SessionError::NotFound(id)),
            Some(_) => Ok(data.len()),
        }
    }
}

/// How a listing entry summarizes a session when the log-derived fields
/// are left empty.
pub open spec fn spec_info_matches(info: SessionInfo, s: Session) -> bool {
    &&& spec_info_core(info, s)
    &&& info.output_size_bytes is None
    &&& info.last_output_snippet is None
}

/// The summary fields every listing shares.
pub open spec fn spec_info_core(info: SessionInfo, s: Session) -> bool {
    &&& info.id == s.meta.id
    &&& info.prompt@ == s.meta.prompt@
    &&& info.working_dir@ == s.meta.working_dir@
    &&& info.created_at@ == s.meta.created_at@
    &&& info.status@ == s.meta.status.spec_display()
    &&& info.attached == (s.attached_count > 0)
    &&& info.pid == s.meta.pid
}

/// How a detailed status summarizes a session, log size and snippet
/// included.
pub open spec fn spec_info_matches_full(
    info: SessionInfo,
    s: Session,
    output_size: u64,
    snippet: Option<String>,
) -> bool {
    &&& spec_info_core(info, s)
    &&& info.output_size_bytes == Some(output_size)
    &&& info.last_output_snippet == snippet
}

/// Metadata snapshots carry the same plain values, field for field.
pub open spec fn spec_meta_matches(a: SessionMeta, b: SessionMeta) -> bool {
    &&& a.id == b.id
    &&& a.prompt@ == b.prompt@
    &&& a.working_dir@ == b.working_dir@
    &&& a.created_at@ == b.created_at@
    &&& a.status == b.status
    &&& a.pid == b.pid
}

/// The output log of session `id` under `data_dir`.
pub open spec fn spec_log_path(data_dir: Seq<char>, id: u32) -> Seq<char> {
    data_dir + "/sessions/"@ + spec_dec_nat(id as nat) + "/output.log"@
}

/// The first status observation for this id, if any.
fn observed_for(obs: &Vec<(u32, SessionStatus)>, id: u32) -> (r: Option<SessionStatus>)
    ensures
        r == spec_observed_for(obs@, id),
{
    let mut j: usize = 0;
    proof {
        assert(obs@.skip(0) =~= obs@);
    }
    while j < obs.len()
        invariant
            j <= obs@.len(),
            spec_observed_for(obs@, id) == spec_observed_for(obs@.skip(j as int), id),
        decreases obs@.len() - j,
    {
        proof {
            assert(obs@.skip(j as int)[0] == obs@[j as int]);
            assert(obs@.skip(j as int).skip(1) =~= obs@.skip(j + 1));
        }
        if obs[j].0 == id {
            return Some(obs[j].1);
        }
        j = j + 1;
    }
    None
}

/// Id monotonicity across launches. A launch returns the counter's
/// current value and leaves the counter strictly above it, and no other
/// verb ever lowers the counter; so at any later launch the counter —
/// and with it the id handed out — is strictly greater.
pub proof fn lemma_id_monotonicity(id1: u32, counter_after_first: int, counter_at_second: int)
    requires
        counter_after_first > id1,
        counter_at_second >= counter_after_first,
    ensures
        counter_at_second > id1,
{
}

/// Clone a string with its contents pinned.
pub fn clone_string(s: &String) -> (r: String)
    ensures
        r@ == s@,
{
    s.clone()
}

/// Increment saturating at the machine word.
pub open spec fn spec_sat_inc(n: usize) -> usize {
    if n < usize::MAX {
        (n + 1) as usize
    } else {
        n
    }
}

/// Decrement saturating at zero.
pub open spec fn spec_sat_dec(n: usize) -> usize {
    if n > 0 {
        (n - 1) as usize
    } else {
        0
    }
}

/// Attach/detach accounting: a successful attach followed by a detach
/// restores the registry exactly — the advisory attach count returns to
/// its pre-attach value (for any count below the machine word, where the
/// increment does not saturate).
pub proof fn lemma_attach_detach_accounting(s: Seq<Session>, i: int)
    requires
        0 <= i < s.len(),
        s[i].attached_count < usize::MAX,
    ensures
        ({
            let attached = s.update(
                i,
                (Session { attached_count: spec_sat_inc(s[i].attached_count), ..s[i] }),
            );
            let detached = attached.update(
                i,
                (Session {
                    attached_count: spec_sat_dec(attached[i].attached_count),
                    ..attached[i]
                }),
            );
            detached == s
        }),
{
    let attached = s.update(
        i,
        (Session { attached_count: spec_sat_inc(s[i].attached_count), ..s[i] }),
    );
    let detached = attached.update(
        i,
        (Session { attached_count: spec_sat_dec(attached[i].attached_count), ..attached[i] }),
    );
    assert(detached =~= s);
}

/// `spec_next_id_from` stays above every id it covers and is at least 1.
pub proof fn lemma_next_id_from_bounds(ids: Seq<u32>)
    requires
        forall|i: int| 0 <= i < ids.len() ==> (#[trigger] ids[i]) < u32::MAX,
    ensures
        spec_next_id_from(ids) >= 1,
        forall|i: int| 0 <= i < ids.len() ==> (#[trigger] ids[i]) < spec_next_id_from(ids),
    decreases ids.len(),
{
    if ids.len() > 0 {
        lemma_next_id_from_bounds(ids.skip(1));
        assert forall|i: int| 0 <= i < ids.len() implies (#[trigger] ids[i]) < spec_next_id_from(
            ids,
        ) by {
            if i == 0 {
                assert(spec_next_id_from(ids) >= ids[0] as int + 1);
            } else {
                assert(ids.skip(1)[i - 1] == ids[i]);
                assert(ids.skip(1)[i - 1] < spec_next_id_from(ids.skip(1)));
                assert(spec_next_id_from(ids) >= spec_next_id_from(ids.skip(1)));
            }
        }
    }
}

} // verus!
