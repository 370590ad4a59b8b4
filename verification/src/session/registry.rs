//! The registry of sessions: their summaries, their output and their ends.
use super::model::{
    clone_exit, id_texts, status_is_live, BufferStats, ExitInfo, SessionId, SessionStatus, SessionSummary,
    SignalKind,
};
use crate::buffer::store::{
    held_bytes, held_lines, is_page, law_held_lines_are_shown, page_lines, shown, BufferReadError, BufferStore, ShownLine,
    Transcript,
};
use crate::buffer::store::appended;
use crate::buffer::view::{BufferReadPage, BufferReadRequest, BufferView};
use crate::error::Failure;
use crate::ordered::{lists_in_order, OrderedMap};
use crate::outside::pattern_fault;
use crate::pty::runtime::{decode_escaped_input, decoded};
use crate::text::{cat2, cat4, decimal, decimal_text, join, joined, opt_text, texts};
use vstd::prelude::*;

verus! {

/// One session of the registry.
pub struct SessionEntry {
    pub summary: SessionSummary,
    pub buffer: BufferStore,
    /// Whether a running program is attached.
    pub attached: bool,
    /// Whether the end of the program was asked for.
    pub termination_requested: bool,
}

/// The outcome of ending a session.
#[derive(Debug, PartialEq, Eq)]
pub struct SessionKillResult {
    pub session_id: SessionId,
    pub previous_status: SessionStatus,
    pub current_status: SessionStatus,
    pub cleanup: bool,
}

/// The outcome of typing into a session.
#[derive(Debug, PartialEq, Eq)]
pub struct SessionWriteResult {
    pub session_id: SessionId,
    pub bytes_written: usize,
    pub accepted: bool,
    pub status: SessionStatus,
}

/// The outcome of waiting for a session.
#[derive(Debug, PartialEq, Eq)]
pub struct SessionWaitResult {
    pub completed: bool,
    pub status: SessionStatus,
    pub exit_info: Option<ExitInfo>,
    pub last_output_preview: Option<String>,
}

/// How long, in seconds, a session may take to end before it is killed, and how
/// long it may take after that.
pub const CLEANUP_WAIT_SECS: u64 = 2;

/// An end of a session that is under way.
#[derive(Debug, PartialEq, Eq)]
pub struct KillRun {
    pub session_id: SessionId,
    pub previous_status: SessionStatus,
    pub cleanup: bool,
    /// Whether the first signal did not help and a kill was sent.
    pub escalated: bool,
}

/// What ending a session asks for next.
#[derive(Debug, PartialEq, Eq)]
pub enum KillProgress {
    /// Send a signal, then report with `kill_signalled`.
    Signal { signal: SignalKind, run: KillRun },
    /// Wait for the exit, then report with `kill_waited`.
    Wait { seconds: u64, run: KillRun },
    /// Nothing is left to do.
    Done(SessionKillResult),
}

/// What waiting for a session asks for next.
#[derive(Debug, PartialEq, Eq)]
pub enum WaitProgress {
    /// Wait for the exit, then report with `wait_finish`.
    Pending,
    /// Nothing is left to do.
    Done(SessionWaitResult),
}

/// Says that there is no such session.
pub open spec fn not_found_text(id: Seq<char>) -> Seq<char> {
    "session not found: session_id="@ + id
}

/// Says that no program runs in the session.
pub open spec fn not_running_text(id: Seq<char>) -> Seq<char> {
    "session is not running: session_id="@ + id
}

fn session_not_found(session_id: &SessionId) -> (r: Failure)
    ensures
        r@ == not_found_text(session_id@),
{
    Failure::new(cat2("session not found: session_id=", session_id.as_str()))
}

fn session_not_running(session_id: &SessionId) -> (r: Failure)
    ensures
        r@ == not_running_text(session_id@),
{
    Failure::new(cat2("session is not running: session_id=", session_id.as_str()))
}

/// The transcript of a buffer that has seen nothing.
pub open spec fn empty_transcript(max_lines: nat) -> Transcript {
    Transcript {
        max_lines,
        lines: Seq::empty(),
        pending: None,
        dropped: 0,
        total_bytes: 0,
    }
}

/// The entry of a session that has just come in.
pub open spec fn is_new_entry(e: SessionEntry, session: SessionSummary, max_lines: nat) -> bool {
    &&& e.summary == session
    &&& e.buffer@ == empty_transcript(max_lines)
    &&& !e.attached
    &&& !e.termination_requested
}

/// The texts of shown lines.
pub open spec fn line_texts(lines: Seq<ShownLine>) -> Seq<Seq<char>> {
    lines.map_values(|l: ShownLine| l.text)
}

/// The last lines of the output in plain form, ten at most.
pub open spec fn last_lines(t: Transcript) -> Seq<char> {
    let all = shown(t, BufferView::Plain);
    let from = if all.len() > 10 {
        all.len() - 10
    } else {
        0
    };
    joined(line_texts(all.skip(from)), "\n"@)
}

/// The preview of a session's output: its last lines, unless they are empty.
pub open spec fn preview_text(t: Transcript) -> Option<Seq<char>> {
    if held_lines(t) == 0 || last_lines(t).len() == 0 {
        None
    } else {
        Some(last_lines(t))
    }
}

/// Whether the end of a session needs no signal: it is over, or nothing runs.
pub open spec fn is_over(e: SessionEntry) -> bool {
    e.summary.exit_info is Some || !e.attached
}

/// The status that an exit leaves behind.
pub open spec fn exit_status(e: SessionEntry) -> SessionStatus {
    if e.termination_requested {
        SessionStatus::Killed
    } else {
        SessionStatus::Exited
    }
}

/// An entry after the exit of its program.
pub open spec fn exited(e: SessionEntry, exit_info: ExitInfo) -> SessionEntry {
    SessionEntry {
        summary: SessionSummary {
            exit_info: Some(exit_info),
            status: exit_status(e),
            ..e.summary
        },
        attached: false,
        ..e
    }
}

/// An entry whose end was asked for.
pub open spec fn closing(e: SessionEntry) -> SessionEntry {
    if is_over(e) {
        e
    } else {
        SessionEntry {
            summary: SessionSummary { status: SessionStatus::Closing, ..e.summary },
            termination_requested: true,
            ..e
        }
    }
}

/// What waiting for a session gives.
pub open spec fn is_wait_result(e: SessionEntry, completed: bool, r: SessionWaitResult) -> bool {
    &&& r.completed == completed
    &&& r.status == e.summary.status
    &&& r.exit_info == e.summary.exit_info
    &&& opt_text(r.last_output_preview) == preview_text(e.buffer@)
}

/// The sessions, at most `session_limit` of them, and their output.
pub struct SessionRegistry {
    session_limit: usize,
    max_buffer_lines: usize,
    sessions: OrderedMap<SessionEntry>,
}

impl Default for SessionRegistry {
    fn default() -> (r: Self)
        ensures
            r.wf(),
            r.limit() == 32,
            r.buffer_lines() == 50_000,
            r.sessions() == Map::<Seq<char>, SessionEntry>::empty(),
    {
        SessionRegistry::new(32, 50_000)
    }
}

impl SessionRegistry {
    /// The sessions by identifier.
    pub closed spec fn sessions(&self) -> Map<Seq<char>, SessionEntry> {
        self.sessions@
    }

    /// The identifiers in order.
    pub closed spec fn ids(&self) -> Seq<Seq<char>> {
        self.sessions.keys()
    }

    /// How many sessions there may be.
    pub closed spec fn limit(&self) -> nat {
        self.session_limit as nat
    }

    /// How many lines each session's buffer holds at most.
    pub closed spec fn buffer_lines(&self) -> nat {
        self.max_buffer_lines as nat
    }

    /// A registry is valid: each session stands under its own identifier, with a
    /// valid summary and a valid buffer of the registry's size.
    pub closed spec fn wf(&self) -> bool {
        &&& self.sessions.wf()
        &&& self.session_limit >= 1
        &&& self.max_buffer_lines >= 1
        &&& forall|k: Seq<char>| #[trigger]
            self.sessions@.contains_key(k) ==> self.entry_wf(k, self.sessions@[k])
    }

    closed spec fn entry_wf(&self, k: Seq<char>, e: SessionEntry) -> bool {
        &&& e.summary.session_id@ == k
        &&& e.summary.wf()
        &&& e.buffer.wf()
        &&& e.buffer@.max_lines == self.max_buffer_lines
    }

    /// Everything but the sessions is as it was.
    pub open spec fn same_limits(&self, other: &Self) -> bool {
        self.limit() == other.limit() && self.buffer_lines() == other.buffer_lines()
    }

    /// What a valid registry promises of each session.
    pub proof fn lemma_wf(&self, id: Seq<char>)
        requires
            self.wf(),
            self.sessions().contains_key(id),
        ensures
            self.sessions()[id].summary.session_id@ == id,
            self.sessions()[id].summary.wf(),
            self.sessions()[id].buffer.wf(),
            self.sessions()[id].buffer@.max_lines == self.buffer_lines(),
            held_lines(self.sessions()[id].buffer@) <= self.buffer_lines(),
    {
        assert(self.entry_wf(id, self.sessions@[id]));
        self.sessions@[id].buffer.lemma_wf();
    }

    /// The identifiers list the sessions in order.
    pub proof fn lemma_ids(&self)
        requires
            self.wf(),
        ensures
            lists_in_order(self.ids(), self.sessions().dom()),
            self.limit() >= 1,
            self.buffer_lines() >= 1,
    {
        self.sessions.lemma_listing();
    }

    /// An empty registry. Both limits are one at least.
    pub fn new(session_limit: usize, max_buffer_lines: usize) -> (r: Self)
        ensures
            r.wf(),
            r.limit() == if session_limit >= 1 {
                session_limit as nat
            } else {
                1
            },
            r.buffer_lines() == if max_buffer_lines >= 1 {
                max_buffer_lines as nat
            } else {
                1
            },
            r.sessions() == Map::<Seq<char>, SessionEntry>::empty(),
    {
        SessionRegistry {
            session_limit: if session_limit >= 1 {
                session_limit
            } else {
                1
            },
            max_buffer_lines: if max_buffer_lines >= 1 {
                max_buffer_lines
            } else {
                1
            },
            sessions: OrderedMap::new(),
        }
    }

    /// Takes in a session that is about to start, unless the registry is full.
    pub fn create_starting(&mut self, session: SessionSummary) -> (r: Result<SessionId, Failure>)
        requires
            old(self).wf(),
            session.wf(),
        ensures
            final(self).wf(),
            final(self).same_limits(old(self)),
            match r {
                Ok(id) => {
                    &&& old(self).sessions().dom().len() < old(self).limit()
                    &&& id == session.session_id
                    &&& final(self).sessions() == old(self).sessions().insert(
                        id@,
                        final(self).sessions()[id@],
                    )
                    &&& is_new_entry(
                        final(self).sessions()[id@],
                        session,
                        old(self).buffer_lines(),
                    )
                },
                Err(e) => {
                    &&& old(self).sessions().dom().len() >= old(self).limit()
                    &&& e@ == "session limit reached: session_limit="@ + decimal_text(
                        old(self).limit(),
                    )
                    &&& *final(self) == *old(self)
                },
            },
    {
        if self.sessions.len() >= self.session_limit {
            let limit = decimal(self.session_limit as u64);
            return Err(
                Failure::new(cat2("session limit reached: session_limit=", limit.as_str())),
            );
        }
        let session_id = session.session_id.clone();
        self.insert(session);
        Ok(session_id)
    }

    /// Puts a session in the registry, in place of one with its identifier.
    pub fn insert(&mut self, session: SessionSummary)
        requires
            old(self).wf(),
            session.wf(),
        ensures
            final(self).wf(),
            final(self).same_limits(old(self)),
            final(self).sessions() == old(self).sessions().insert(
                session.session_id@,
                final(self).sessions()[session.session_id@],
            ),
            is_new_entry(
                final(self).sessions()[session.session_id@],
                session,
                old(self).buffer_lines(),
            ),
    {
        let ghost before = *self;
        let key = session.session_id.as_str().to_owned();
        let entry = SessionEntry {
            summary: session,
            buffer: BufferStore::new(self.max_buffer_lines),
            attached: false,
            termination_requested: false,
        };
        let _ = self.sessions.insert(key, entry);
        proof {
            assert(self.sessions@ =~= before.sessions@.insert(key@, self.sessions@[key@]));
            assert forall|k: Seq<char>| #[trigger]
                self.sessions@.contains_key(k) implies self.entry_wf(k, self.sessions@[k]) by {
                if k != key@ {
                    assert(before.entry_wf(k, before.sessions@[k]));
                }
            }
        }
    }

    /// Puts back an entry that was taken out to be changed.
    fn put_back(&mut self, key: &str, entry: SessionEntry)
        requires
            old(self).wf(),
            old(self).entry_wf(key@, entry),
        ensures
            final(self).wf(),
            final(self).same_limits(old(self)),
            final(self).sessions() == old(self).sessions().insert(key@, entry),
    {
        let ghost before = *self;
        let _ = self.sessions.insert(key.to_owned(), entry);
        proof {
            assert forall|k: Seq<char>| #[trigger]
                self.sessions@.contains_key(k) implies self.entry_wf(k, self.sessions@[k]) by {
                if k != key@ {
                    assert(before.entry_wf(k, before.sessions@[k]));
                }
            }
        }
    }

    /// Takes the entry of a session out.
    fn take_out(&mut self, session_id: &SessionId) -> (r: Option<SessionEntry>)
        requires
            old(self).wf(),
        ensures
            final(self).wf(),
            final(self).same_limits(old(self)),
            final(self).sessions() == old(self).sessions().remove(session_id@),
            match r {
                Some(e) => {
                    &&& old(self).sessions().contains_key(session_id@)
                    &&& e == old(self).sessions()[session_id@]
                    &&& final(self).entry_wf(session_id@, e)
                },
                None => !old(self).sessions().contains_key(session_id@),
            },
    {
        let ghost before = *self;
        let r = self.sessions.remove(session_id.as_str());
        proof {
            assert forall|k: Seq<char>| #[trigger]
                self.sessions@.contains_key(k) implies self.entry_wf(k, self.sessions@[k]) by {
                assert(before.entry_wf(k, before.sessions@[k]));
            }
            if before.sessions@.contains_key(session_id@) {
                assert(before.entry_wf(session_id@, before.sessions@[session_id@]));
            }
        }
        r
    }

    /// Notes that the program of a session could not be started.
    pub fn mark_failed_to_spawn(&mut self, session_id: &SessionId) -> (r: Result<(), Failure>)
        requires
            old(self).wf(),
        ensures
            final(self).wf(),
            final(self).same_limits(old(self)),
            match r {
                Ok(_) => {
                    let e = old(self).sessions()[session_id@];
                    &&& old(self).sessions().contains_key(session_id@)
                    &&& final(self).sessions() == old(self).sessions().insert(
                        session_id@,
                        SessionEntry {
                            summary: SessionSummary {
                                status: SessionStatus::FailedToSpawn,
                                exit_info: Some(
                                    ExitInfo {
                                        exit_code: None,
                                        exit_signal: None,
                                        finished_at: None,
                                    },
                                ),
                                ..e.summary
                            },
                            attached: false,
                            ..e
                        },
                    )
                },
                Err(e) => {
                    &&& !old(self).sessions().contains_key(session_id@)
                    &&& e@ == not_found_text(session_id@)
                    &&& final(self).sessions() == old(self).sessions()
                },
            },
    {
        let ghost all = self.sessions@;
        match self.take_out(session_id) {
            None => {
                assert(self.sessions@ =~= all);
                Err(session_not_found(session_id))
            },
            Some(entry) => {
                let mut entry = entry;
                entry.summary.status = SessionStatus::FailedToSpawn;
                entry.summary.exit_info = Some(ExitInfo::default());
                entry.attached = false;
                let ghost changed = entry;
                self.put_back(session_id.as_str(), entry);
                assert(self.sessions@ =~= all.insert(session_id@, changed));
                Ok(())
            },
        }
    }

    /// Notes that the program of a session runs.
    pub fn attach_runtime(&mut self, session_id: &SessionId, pid: Option<u32>) -> (r: Result<
        (),
        Failure,
    >)
        requires
            old(self).wf(),
        ensures
            final(self).wf(),
            final(self).same_limits(old(self)),
            match r {
                Ok(_) => {
                    let e = old(self).sessions()[session_id@];
                    &&& old(self).sessions().contains_key(session_id@)
                    &&& final(self).sessions() == old(self).sessions().insert(
                        session_id@,
                        SessionEntry {
                            summary: SessionSummary {
                                status: SessionStatus::Running,
                                pid,
                                ..e.summary
                            },
                            attached: true,
                            ..e
                        },
                    )
                },
                Err(e) => {
                    &&& !old(self).sessions().contains_key(session_id@)
                    &&& e@ == not_found_text(session_id@)
                    &&& final(self).sessions() == old(self).sessions()
                },
            },
    {
        let ghost all = self.sessions@;
        match self.take_out(session_id) {
            None => {
                assert(self.sessions@ =~= all);
                Err(session_not_found(session_id))
            },
            Some(entry) => {
                let mut entry = entry;
                entry.summary.status = SessionStatus::Running;
                entry.summary.pid = pid;
                entry.attached = true;
                let ghost changed = entry;
                self.put_back(session_id.as_str(), entry);
                assert(self.sessions@ =~= all.insert(session_id@, changed));
                Ok(())
            },
        }
    }

    /// Notes that the program of a session has ended.
    pub fn mark_exited(&mut self, session_id: &SessionId, exit_info: ExitInfo) -> (r: Result<
        (),
        Failure,
    >)
        requires
            old(self).wf(),
        ensures
            final(self).wf(),
            final(self).same_limits(old(self)),
            match r {
                Ok(_) => {
                    &&& old(self).sessions().contains_key(session_id@)
                    &&& final(self).sessions() == old(self).sessions().insert(
                        session_id@,
                        exited(old(self).sessions()[session_id@], exit_info),
                    )
                },
                Err(e) => {
                    &&& !old(self).sessions().contains_key(session_id@)
                    &&& e@ == not_found_text(session_id@)
                    &&& final(self).sessions() == old(self).sessions()
                },
            },
    {
        let ghost all = self.sessions@;
        match self.take_out(session_id) {
            None => {
                assert(self.sessions@ =~= all);
                Err(session_not_found(session_id))
            },
            Some(entry) => {
                let mut entry = entry;
                entry.summary.exit_info = Some(exit_info);
                entry.summary.status = if entry.termination_requested {
                    SessionStatus::Killed
                } else {
                    SessionStatus::Exited
                };
                entry.attached = false;
                let ghost changed = entry;
                self.put_back(session_id.as_str(), entry);
                assert(self.sessions@ =~= all.insert(session_id@, changed));
                Ok(())
            },
        }
    }

    /// Whether a session can take in that many bytes more without its count of
    /// bytes running over.
    pub fn has_room_for(&self, session_id: &SessionId, len: usize) -> (r: bool)
        requires
            self.wf(),
        ensures
            r == (self.sessions().contains_key(session_id@)
                ==> self.sessions()[session_id@].buffer@.total_bytes
                + len < usize::MAX),
    {
        match self.sessions.get(session_id.as_str()) {
            Some(entry) => {
                proof {
                    self.lemma_wf(session_id@);
                }
                entry.buffer.stats().total_bytes_seen < usize::MAX - len
            },
            None => true,
        }
    }

    /// Takes in output of a session.
    pub fn append_output(&mut self, session_id: &SessionId, chunk: &[u8]) -> (r: Result<
        (),
        Failure,
    >)
        requires
            old(self).wf(),
            old(self).sessions().contains_key(session_id@)
                ==> old(self).sessions()[session_id@].buffer@.total_bytes + chunk@.len() < usize::MAX,
        ensures
            final(self).wf(),
            final(self).same_limits(old(self)),
            match r {
                Ok(_) => {
                    let e = old(self).sessions()[session_id@];
                    let f = final(self).sessions()[session_id@];
                    &&& old(self).sessions().contains_key(session_id@)
                    &&& final(self).sessions() == old(self).sessions().insert(session_id@, f)
                    &&& f.buffer@ == appended(e.buffer@, chunk@)
                    &&& f == (SessionEntry {
                        summary: SessionSummary {
                            buffer_stats: f.summary.buffer_stats,
                            ..e.summary
                        },
                        buffer: f.buffer,
                        ..e
                    })
                    &&& f.summary.buffer_stats.line_count == held_lines(f.buffer@)
                    &&& f.summary.buffer_stats.byte_count == held_bytes(f.buffer@)
                },
                Err(e) => {
                    &&& !old(self).sessions().contains_key(session_id@)
                    &&& e@ == not_found_text(session_id@)
                    &&& final(self).sessions() == old(self).sessions()
                },
            },
    {
        let ghost all = self.sessions@;
        match self.take_out(session_id) {
            None => {
                assert(self.sessions@ =~= all);
                Err(session_not_found(session_id))
            },
            Some(entry) => {
                let mut entry = entry;
                let ghost before = entry;
                entry.buffer.append_bytes(chunk);
                proof {
                    crate::buffer::store::law_every_line_is_accounted_for(before.buffer@, chunk@);
                    crate::buffer::store::lemma_appended_limit(before.buffer@, chunk@);
                }
                let stats = entry.buffer.stats();
                entry.summary.buffer_stats = BufferStats {
                    line_count: stats.retained_lines,
                    byte_count: stats.retained_bytes,
                };
                let ghost changed = entry;
                self.put_back(session_id.as_str(), entry);
                assert(self.sessions@ =~= all.insert(session_id@, changed));
                Ok(())
            },
        }
    }

    /// All sessions, in the order of their identifiers.
    pub fn list(&self) -> (r: Vec<SessionSummary>)
        requires
            self.wf(),
        ensures
            r@.len() == self.ids().len(),
            forall|i: int|
                0 <= i < r@.len() ==> (#[trigger] r@[i]).wf()
                    && self.sessions()[self.ids()[i]].summary.same_as(r@[i]),
    {
        let mut r: Vec<SessionSummary> = Vec::new();
        let mut i: usize = 0;
        proof {
            self.sessions.lemma_listing();
        }
        let n: usize = self.sessions.len();
        while i < n
            invariant
                self.wf(),
                i <= n == self.sessions.keys().len(),
                r@.len() == i,
                forall|k: int|
                    0 <= k < self.sessions.keys().len() ==> self.sessions@.contains_key(
                        #[trigger] self.sessions.keys()[k],
                    ) && self.sessions@[self.sessions.keys()[k]] == self.sessions.values()[k],
                forall|k: int|
                    0 <= k < i ==> (#[trigger] r@[k]).wf()
                        && self.sessions()[self.ids()[k]].summary.same_as(r@[k]),
            decreases n - i,
        {
            let entry = self.sessions.value_at(i);
            proof {
                assert(self.sessions@.contains_key(self.sessions.keys()[i as int]));
                self.lemma_wf(self.sessions.keys()[i as int]);
            }
            r.push(entry.summary.copied());
            i = i + 1;
        }
        r
    }

    /// What is known of a session.
    pub fn get(&self, session_id: &SessionId) -> (r: Option<SessionSummary>)
        requires
            self.wf(),
        ensures
            match r {
                Some(s) => {
                    &&& self.sessions().contains_key(session_id@)
                    &&& self.sessions()[session_id@].summary.same_as(s)
                    &&& s.wf()
                },
                None => !self.sessions().contains_key(session_id@),
            },
    {
        match self.sessions.get(session_id.as_str()) {
            Some(entry) => {
                proof {
                    self.lemma_wf(session_id@);
                }
                Some(entry.summary.copied())
            },
            None => None,
        }
    }

    /// The status of a session.
    pub fn status_of(&self, session_id: &SessionId) -> (r: Option<SessionStatus>)
        requires
            self.wf(),
        ensures
            match r {
                Some(s) => self.sessions().contains_key(session_id@)
                    && self.sessions()[session_id@].summary.status == s,
                None => !self.sessions().contains_key(session_id@),
            },
    {
        match self.sessions.get(session_id.as_str()) {
            Some(entry) => Some(entry.summary.status),
            None => None,
        }
    }

    /// Takes a session out of the registry.
    pub fn remove(&mut self, session_id: &SessionId) -> (r: Option<SessionSummary>)
        requires
            old(self).wf(),
        ensures
            final(self).wf(),
            final(self).same_limits(old(self)),
            final(self).sessions() == old(self).sessions().remove(session_id@),
            match r {
                Some(s) => old(self).sessions().contains_key(session_id@) && s
                    == old(self).sessions()[session_id@].summary && s.wf(),
                None => !old(self).sessions().contains_key(session_id@),
            },
    {
        match self.take_out(session_id) {
            Some(entry) => Some(entry.summary),
            None => None,
        }
    }

    /// Takes a session out of the registry; that there is none is an error.
    pub fn cleanup(&mut self, session_id: &SessionId) -> (r: Result<SessionSummary, Failure>)
        requires
            old(self).wf(),
        ensures
            final(self).wf(),
            final(self).same_limits(old(self)),
            final(self).sessions() == old(self).sessions().remove(session_id@),
            match r {
                Ok(s) => old(self).sessions().contains_key(session_id@) && s
                    == old(self).sessions()[session_id@].summary,
                Err(e) => !old(self).sessions().contains_key(session_id@) && e@ == not_found_text(
                    session_id@,
                ),
            },
    {
        match self.remove(session_id) {
            Some(s) => Ok(s),
            None => Err(session_not_found(session_id)),
        }
    }

    /// Reads a page of a session's output.
    pub fn read_output(&self, session_id: &SessionId, request: &BufferReadRequest) -> (r: Result<
        BufferReadPage,
        Failure,
    >)
        requires
            self.wf(),
        ensures
            match r {
                Ok(page) => {
                    &&& self.sessions().contains_key(session_id@)
                    &&& request.pattern is Some ==> pattern_fault(
                        request.pattern->0@,
                        request.ignore_case,
                    ) is None
                    &&& is_page(self.sessions()[session_id@].buffer@, *request, page)
                },
                Err(e) => if !self.sessions().contains_key(session_id@) {
                    e@ == not_found_text(session_id@)
                } else {
                    &&& request.pattern is Some
                    &&& pattern_fault(request.pattern->0@, request.ignore_case) matches Some(fault)
                    &&& e@ == "invalid regex pattern for buffer read: session_id="@ + session_id@
                        + " "@ + fault
                },
            },
    {
        match self.sessions.get(session_id.as_str()) {
            None => Err(session_not_found(session_id)),
            Some(entry) => {
                proof {
                    self.lemma_wf(session_id@);
                }
                match entry.buffer.read(request) {
                    Ok(page) => Ok(page),
                    Err(BufferReadError::InvalidRegex { pattern, message }) => Err(
                        Failure::new(
                            cat4(
                                "invalid regex pattern for buffer read: session_id=",
                                session_id.as_str(),
                                " ",
                                message.as_str(),
                            ),
                        ),
                    ),
                }
            },
        }
    }

    /// The text that is to be typed into a session: the data as it is, or what
    /// it stands for where it is escaped.
    pub fn prepare_write(&self, session_id: &SessionId, data: &str, escaped: bool) -> (r: Result<
        String,
        Failure,
    >)
        requires
            self.wf(),
        ensures
            ({
                let known = self.sessions().contains_key(session_id@);
                let attached = known && self.sessions()[session_id@].attached;
                match r {
                    Ok(text) => attached && if escaped {
                        decoded(data@, data@) == Ok::<Seq<char>, Seq<char>>(text@)
                    } else {
                        text@ == data@
                    },
                    Err(e) => if !known {
                        e@ == not_found_text(session_id@)
                    } else if !attached {
                        e@ == not_running_text(session_id@)
                    } else {
                        escaped && decoded(data@, data@) == Err::<Seq<char>, Seq<char>>(e@)
                    },
                }
            }),
    {
        match self.sessions.get(session_id.as_str()) {
            None => Err(session_not_found(session_id)),
            Some(entry) => {
                if !entry.attached {
                    return Err(session_not_running(session_id));
                }
                if escaped {
                    decode_escaped_input(data)
                } else {
                    Ok(data.to_owned())
                }
            },
        }
    }

    /// What typing gave: the number of bytes that were written, or why they were
    /// not.
    pub fn finish_write(&self, session_id: &SessionId, outcome: Result<usize, Failure>) -> (r:
        Result<SessionWriteResult, Failure>)
        requires
            self.wf(),
        ensures
            match r {
                Ok(w) => {
                    &&& outcome == Ok::<usize, Failure>(w.bytes_written)
                    &&& self.sessions().contains_key(session_id@)
                    &&& w.session_id@ == session_id@
                    &&& w.accepted
                    &&& w.status == self.sessions()[session_id@].summary.status
                },
                Err(e) => match outcome {
                    Err(failure) => e == failure,
                    Ok(_) => !self.sessions().contains_key(session_id@) && e@ == not_found_text(
                        session_id@,
                    ),
                },
            },
    {
        let bytes_written: usize = match outcome {
            Ok(n) => n,
            Err(failure) => {
                return Err(failure);
            },
        };
        match self.status_of(session_id) {
            None => Err(session_not_found(session_id)),
            Some(status) => Ok(
                SessionWriteResult {
                    session_id: session_id.clone(),
                    bytes_written,
                    accepted: true,
                    status,
                },
            ),
        }
    }

    /// Begins the end of a session. A session that is over, or in which nothing
    /// runs, is taken out at once where cleanup is asked for; where something
    /// runs a signal is to be sent.
    pub fn kill_begin(&mut self, session_id: &SessionId, signal: SignalKind, cleanup: bool) -> (r:
        Result<KillProgress, Failure>)
        requires
            old(self).wf(),
        ensures
            final(self).wf(),
            final(self).same_limits(old(self)),
            ({
                let e = old(self).sessions()[session_id@];
                let known = old(self).sessions().contains_key(session_id@);
                match r {
                    Err(err) => {
                        &&& !known
                        &&& err@ == not_found_text(session_id@)
                        &&& final(self).sessions() == old(self).sessions()
                    },
                    Ok(KillProgress::Done(done)) => {
                        &&& known
                        &&& is_over(e)
                        &&& cleanup || !e.attached
                        &&& done.session_id@ == session_id@
                        &&& done.previous_status == e.summary.status
                        &&& done.current_status == e.summary.status
                        &&& done.cleanup == cleanup
                        &&& final(self).sessions() == if cleanup {
                            old(self).sessions().remove(session_id@)
                        } else {
                            old(self).sessions()
                        }
                    },
                    Ok(KillProgress::Signal { signal: s, run }) => {
                        &&& known
                        &&& e.attached
                        &&& is_over(e) ==> !cleanup
                        &&& s == signal
                        &&& run.session_id@ == session_id@
                        &&& run.previous_status == e.summary.status
                        &&& run.cleanup == cleanup
                        &&& !run.escalated
                        &&& final(self).sessions() == old(self).sessions().insert(
                            session_id@,
                            closing(e),
                        )
                    },
                    Ok(KillProgress::Wait { .. }) => false,
                }
            }),
    {
        let ghost all = self.sessions@;
        match self.take_out(session_id) {
            None => {
                assert(self.sessions@ =~= all);
                Err(session_not_found(session_id))
            },
            Some(entry) => {
                let mut entry = entry;
                let previous_status = entry.summary.status;
                let attached = entry.attached;
                let already_exited = entry.summary.exit_info.is_some() || !attached;
                if !already_exited {
                    entry.termination_requested = true;
                    entry.summary.status = SessionStatus::Closing;
                }
                if already_exited && cleanup {
                    return Ok(
                        KillProgress::Done(
                            SessionKillResult {
                                session_id: session_id.clone(),
                                previous_status,
                                current_status: entry.summary.status,
                                cleanup: true,
                            },
                        ),
                    );
                }
                let current_status = entry.summary.status;
                let ghost changed = entry;
                self.put_back(session_id.as_str(), entry);
                proof {
                    assert(self.sessions@ =~= all.insert(session_id@, changed));
                    if already_exited {
                        assert(self.sessions@ =~= all);
                    }
                }
                if attached {
                    Ok(
                        KillProgress::Signal {
                            signal,
                            run: KillRun {
                                session_id: session_id.clone(),
                                previous_status,
                                cleanup,
                                escalated: false,
                            },
                        },
                    )
                } else {
                    Ok(
                        KillProgress::Done(
                            SessionKillResult {
                                session_id: session_id.clone(),
                                previous_status,
                                current_status,
                                cleanup: false,
                            },
                        ),
                    )
                }
            },
        }
    }

    /// Goes on once a signal was sent, or could not be. Without cleanup that is
    /// all; with cleanup the exit is waited for.
    pub fn kill_signalled(&self, run: KillRun, outcome: Result<(), Failure>) -> (r: Result<
        KillProgress,
        Failure,
    >)
        requires
            self.wf(),
        ensures
            match r {
                Err(e) => match outcome {
                    Err(failure) => e == failure,
                    Ok(_) => {
                        &&& !run.cleanup
                        &&& !self.sessions().contains_key(run.session_id@)
                        &&& e@ == not_found_text(run.session_id@)
                    },
                },
                Ok(KillProgress::Wait { seconds, run: next }) => {
                    &&& outcome is Ok
                    &&& run.cleanup
                    &&& seconds == CLEANUP_WAIT_SECS
                    &&& next == run
                },
                Ok(KillProgress::Done(done)) => {
                    &&& outcome is Ok
                    &&& !run.cleanup
                    &&& self.sessions().contains_key(run.session_id@)
                    &&& done.session_id == run.session_id
                    &&& done.previous_status == run.previous_status
                    &&& done.current_status == self.sessions()[run.session_id@].summary.status
                    &&& !done.cleanup
                },
                Ok(KillProgress::Signal { .. }) => false,
            },
    {
        match outcome {
            Err(failure) => {
                return Err(failure);
            },
            Ok(_) => {},
        }
        if run.cleanup {
            return Ok(KillProgress::Wait { seconds: CLEANUP_WAIT_SECS, run });
        }
        match self.status_of(&run.session_id) {
            None => Err(session_not_found(&run.session_id)),
            Some(current_status) => Ok(
                KillProgress::Done(
                    SessionKillResult {
                        session_id: run.session_id,
                        previous_status: run.previous_status,
                        current_status,
                        cleanup: false,
                    },
                ),
            ),
        }
    }

    /// Goes on once the wait is over. A session that has ended is taken out; one
    /// that has not is killed, and once only.
    pub fn kill_waited(&mut self, run: KillRun, outcome: Result<Option<ExitInfo>, Failure>) -> (r:
        Result<KillProgress, Failure>)
        requires
            old(self).wf(),
        ensures
            final(self).wf(),
            final(self).same_limits(old(self)),
            ({
                let id = run.session_id@;
                let known = old(self).sessions().contains_key(id);
                let e = old(self).sessions()[id];
                match outcome {
                    Err(failure) => {
                        &&& r matches Err(err)
                        &&& err == failure
                        &&& final(self).sessions() == old(self).sessions()
                    },
                    Ok(None) => {
                        &&& final(self).sessions() == old(self).sessions()
                        &&& if run.escalated {
                            &&& r matches Err(err)
                            &&& err@
                                == "session did not exit before cleanup deadline: session_id="@ + id
                        } else {
                            &&& r matches Ok(KillProgress::Signal { signal, run: next })
                            &&& signal == SignalKind::Sigkill
                            &&& next == (KillRun { escalated: true, ..run })
                        }
                    },
                    Ok(Some(exit)) => if known {
                        &&& final(self).sessions() == old(self).sessions().remove(id)
                        &&& r matches Ok(KillProgress::Done(done))
                        &&& done.session_id == run.session_id
                        &&& done.previous_status == run.previous_status
                        &&& done.current_status == exit_status(e)
                        &&& done.cleanup
                    } else {
                        &&& final(self).sessions() == old(self).sessions()
                        &&& r matches Err(err)
                        &&& err@ == not_found_text(id)
                    },
                }
            }),
    {
        let exit = match outcome {
            Err(failure) => {
                return Err(failure);
            },
            Ok(None) => {
                if run.escalated {
                    return Err(
                        Failure::new(
                            cat2(
                                "session did not exit before cleanup deadline: session_id=",
                                run.session_id.as_str(),
                            ),
                        ),
                    );
                }
                return Ok(
                    KillProgress::Signal {
                        signal: SignalKind::Sigkill,
                        run: KillRun {
                            session_id: run.session_id,
                            previous_status: run.previous_status,
                            cleanup: run.cleanup,
                            escalated: true,
                        },
                    },
                );
            },
            Ok(Some(exit)) => exit,
        };
        let ghost all = self.sessions@;
        let _ = self.mark_exited(&run.session_id, exit);
        match self.remove(&run.session_id) {
            None => {
                assert(self.sessions@ =~= all);
                Err(session_not_found(&run.session_id))
            },
            Some(removed) => {
                assert(self.sessions@ =~= all.remove(run.session_id@));
                Ok(
                    KillProgress::Done(
                        SessionKillResult {
                            session_id: run.session_id,
                            previous_status: run.previous_status,
                            current_status: removed.status,
                            cleanup: true,
                        },
                    ),
                )
            },
        }
    }

    /// Begins to wait for a session, which needs no waiting where it is over.
    pub fn wait_begin(&self, session_id: &SessionId) -> (r: Result<WaitProgress, Failure>)
        requires
            self.wf(),
        ensures
            ({
                let e = self.sessions()[session_id@];
                match r {
                    Err(err) => !self.sessions().contains_key(session_id@) && err@
                        == not_found_text(session_id@),
                    Ok(WaitProgress::Pending) => self.sessions().contains_key(session_id@)
                        && !is_over(e),
                    Ok(WaitProgress::Done(done)) => {
                        &&& self.sessions().contains_key(session_id@)
                        &&& is_over(e)
                        &&& is_wait_result(e, true, done)
                    },
                }
            }),
    {
        match self.sessions.get(session_id.as_str()) {
            None => Err(session_not_found(session_id)),
            Some(entry) => {
                proof {
                    self.lemma_wf(session_id@);
                }
                if entry.summary.exit_info.is_some() || !entry.attached {
                    Ok(
                        WaitProgress::Done(
                            SessionWaitResult {
                                completed: true,
                                status: entry.summary.status,
                                exit_info: clone_exit(&entry.summary.exit_info),
                                last_output_preview: preview_from_entry(entry),
                            },
                        ),
                    )
                } else {
                    Ok(WaitProgress::Pending)
                }
            },
        }
    }

    /// Goes on once the wait is over, with the exit that came or none.
    pub fn wait_finish(
        &mut self,
        session_id: &SessionId,
        outcome: Result<Option<ExitInfo>, Failure>,
    ) -> (r: Result<SessionWaitResult, Failure>)
        requires
            old(self).wf(),
        ensures
            final(self).wf(),
            final(self).same_limits(old(self)),
            ({
                let known = old(self).sessions().contains_key(session_id@);
                let e = old(self).sessions()[session_id@];
                match outcome {
                    Err(failure) => {
                        &&& r matches Err(err)
                        &&& err == failure
                        &&& final(self).sessions() == old(self).sessions()
                    },
                    Ok(exit) => if !known {
                        &&& r matches Err(err)
                        &&& err@ == not_found_text(session_id@)
                        &&& final(self).sessions() == old(self).sessions()
                    } else {
                        let after = match exit {
                            Some(info) => exited(e, info),
                            None => e,
                        };
                        &&& final(self).sessions() == old(self).sessions().insert(
                            session_id@,
                            after,
                        )
                        &&& r matches Ok(done)
                        &&& is_wait_result(after, after.summary.exit_info is Some, done)
                    },
                }
            }),
    {
        let ghost all = self.sessions@;
        match outcome {
            Err(failure) => {
                return Err(failure);
            },
            Ok(Some(exit)) => {
                let _ = self.mark_exited(session_id, exit);
            },
            Ok(None) => {
                proof {
                    if all.contains_key(session_id@) {
                        assert(all.insert(session_id@, all[session_id@]) =~= all);
                    }
                }
            },
        }
        match self.sessions.get(session_id.as_str()) {
            None => Err(session_not_found(session_id)),
            Some(entry) => {
                proof {
                    self.lemma_wf(session_id@);
                }
                Ok(
                    SessionWaitResult {
                        completed: entry.summary.exit_info.is_some(),
                        status: entry.summary.status,
                        exit_info: clone_exit(&entry.summary.exit_info),
                        last_output_preview: preview_from_entry(entry),
                    },
                )
            },
        }
    }

    /// The sessions that a shutdown has to end: those that may still have a
    /// program running, in the order of their identifiers.
    pub fn shutdown_targets(&self) -> (r: Vec<SessionId>)
        requires
            self.wf(),
        ensures
            lists_in_order(
                id_texts(r@),
                Set::new(
                    |k: Seq<char>|
                        self.sessions().contains_key(k) && status_is_live(
                            self.sessions()[k].summary.status,
                        ),
                ),
            ),
    {
        let ghost live = |k: Seq<char>| status_is_live(self.sessions()[k].summary.status);
        let mut r: Vec<SessionId> = Vec::new();
        let mut i: usize = 0;
        proof {
            self.sessions.lemma_listing();
            reveal(Seq::filter);
            assert(id_texts(r@) =~= self.ids().take(0).filter(live));
        }
        let n: usize = self.sessions.len();
        while i < n
            invariant
                self.wf(),
                i <= n == self.ids().len(),
                live == (|k: Seq<char>| status_is_live(self.sessions()[k].summary.status)),
                id_texts(r@) == self.ids().take(i as int).filter(live),
            decreases n - i,
        {
            let entry = self.sessions.value_at(i);
            let ghost before = r@;
            let ghost key = self.ids()[i as int];
            proof {
                self.sessions.lemma_listing();
                assert(self.sessions@.contains_key(self.sessions.keys()[i as int]));
                self.lemma_wf(key);
                assert(self.ids().take(i + 1) =~= self.ids().take(i as int).push(key));
                self.ids().take(i as int).lemma_filter_push(key, live);
            }
            if entry.summary.status.is_live() {
                r.push(entry.summary.session_id.clone());
                assert(id_texts(r@) =~= id_texts(before).push(key));
            }
            i = i + 1;
        }
        proof {
            assert(self.ids().take(i as int) =~= self.ids());
            crate::ordered::lemma_filter_lists(self.ids(), live);
            self.sessions.lemma_listing();
            assert(Set::new(|k: Seq<char>| self.ids().contains(k) && live(k)) =~= Set::new(
                |k: Seq<char>|
                    self.sessions().contains_key(k) && status_is_live(
                        self.sessions()[k].summary.status,
                    ),
            ));
        }
        r
    }
}

/// The preview of a session's output.
fn preview_from_entry(entry: &SessionEntry) -> (r: Option<String>)
    requires
        entry.buffer.wf(),
    ensures
        opt_text(r) == preview_text(entry.buffer@),
{
    let retained_lines: usize = entry.buffer.stats().retained_lines;
    if retained_lines == 0 {
        return None;
    }
    let offset: usize = if retained_lines > 10 {
        retained_lines - 10
    } else {
        0
    };
    let request = BufferReadRequest {
        offset,
        limit: 10,
        pattern: None,
        ignore_case: false,
        view: BufferView::Plain,
    };
    match entry.buffer.read(&request) {
        Err(_) => None,
        Ok(page) => {
            let mut lines: Vec<String> = Vec::new();
            let mut i: usize = 0;
            while i < page.lines.len()
                invariant
                    i <= page.lines@.len(),
                    texts(lines@) == line_texts(page_lines(page.lines@)).take(i as int),
                decreases page.lines@.len() - i,
            {
                let ghost before = lines@;
                lines.push(page.lines[i].text.clone());
                i = i + 1;
                proof {
                    assert(texts(lines@) =~= texts(before).push(page.lines@[i - 1].text@));
                    assert(line_texts(page_lines(page.lines@)).take(i as int) =~= line_texts(
                        page_lines(page.lines@),
                    ).take(i - 1).push(page.lines@[i - 1].text@));
                }
            }
            let preview = join(&lines, "\n");
            proof {
                let all = shown(entry.buffer@, BufferView::Plain);
                assert(all.len() == held_lines(entry.buffer@));
                assert(page_lines(page.lines@) =~= all.skip(offset as int));
                assert(line_texts(page_lines(page.lines@)).take(i as int) =~= line_texts(
                    all.skip(offset as int),
                ));
            }
            if preview.as_str().is_empty() {
                None
            } else {
                Some(preview)
            }
        },
    }
}

/// A session that was told to end is seen as killed once it exits, and one that
/// was not as exited.
pub proof fn law_killed_means_asked_for(e: SessionEntry, exit_info: ExitInfo)
    ensures
        exited(e, exit_info).summary.status == SessionStatus::Killed <==> e.termination_requested,
        exited(e, exit_info).summary.status == SessionStatus::Exited
            <==> !e.termination_requested,
        !is_over(e) ==> exited(closing(e), exit_info).summary.status == SessionStatus::Killed,
        is_over(exited(e, exit_info)),
{
}

/// The preview of a session is its last ten lines in plain form, one below the other, or
/// all of them where there are fewer; there is none where nothing is in them.
pub proof fn law_preview_is_the_last_ten_lines(t: Transcript)
    ensures
        ({
            let all = shown(t, BufferView::Plain);
            let n: int = if all.len() > 10 {
                10
            } else {
                all.len() as int
            };
            let text = joined(Seq::new(n as nat, |i: int| all[all.len() - n + i].text), "\n"@);
            &&& all.len() == 0 ==> preview_text(t) is None
            &&& text.len() == 0 ==> preview_text(t) is None
            &&& all.len() > 0 && text.len() > 0 ==> preview_text(t) == Some(text)
        }),
{
    law_held_lines_are_shown(t, BufferView::Plain, 0);
    let all = shown(t, BufferView::Plain);
    let n: int = if all.len() > 10 {
        10
    } else {
        all.len() as int
    };
    let from = if all.len() > 10 {
        all.len() - 10
    } else {
        0
    };
    assert(line_texts(all.skip(from)) =~= Seq::new(
        n as nat,
        |i: int| all[all.len() - n + i].text,
    ));
}

/// An exit is recorded with its information and nothing runs after it: the session was
/// killed exactly where its end was asked for. Its output and everything else stay.
pub proof fn law_exits_are_recorded(e: SessionEntry, exit_info: ExitInfo)
    ensures
        ({
            let r = exited(e, exit_info);
            &&& r.summary.exit_info == Some(exit_info)
            &&& !r.attached
            &&& e.termination_requested ==> r.summary.status == SessionStatus::Killed
            &&& !e.termination_requested ==> r.summary.status == SessionStatus::Exited
            &&& r.buffer == e.buffer
            &&& r.summary.session_id == e.summary.session_id
            &&& r.summary.command == e.summary.command
            &&& r.summary.pid == e.summary.pid
            &&& r.summary.buffer_stats == e.summary.buffer_stats
            &&& r.termination_requested == e.termination_requested
        }),
{
}

/// A session in which a program runs is closing once its end is asked for; one that is
/// over, or in which nothing runs, stays as it is.
pub proof fn law_running_sessions_close(e: SessionEntry)
    ensures
        ({
            let over = e.summary.exit_info is Some || !e.attached;
            let r = closing(e);
            &&& is_over(e) <==> over
            &&& over ==> r == e
            &&& !over ==> {
                &&& r.summary.status == SessionStatus::Closing
                &&& r.termination_requested
                &&& r.attached
                &&& r.summary.exit_info is None
                &&& r.buffer == e.buffer
                &&& r.summary.session_id == e.summary.session_id
                &&& r.summary.pid == e.summary.pid
            }
        }),
{
}

/// What waiting gives is what is known of the session: whether it is over, its status,
/// its exit and the preview of its output.
pub proof fn law_waiting_tells_what_is_known(
    e: SessionEntry,
    completed: bool,
    r: SessionWaitResult,
)
    requires
        is_wait_result(e, completed, r),
    ensures
        r.completed == completed,
        r.status == e.summary.status,
        r.exit_info == e.summary.exit_info,
        opt_text(r.last_output_preview) == preview_text(e.buffer@),
{
}

/// A session that comes in has printed nothing, runs nothing and was not asked to end.
pub proof fn law_new_sessions_are_empty(e: SessionEntry, session: SessionSummary, max_lines: nat)
    requires
        is_new_entry(e, session, max_lines),
    ensures
        e.summary == session,
        shown(e.buffer@, BufferView::Plain).len() == 0,
        e.buffer@.max_lines == max_lines,
        e.buffer@.dropped == 0,
        e.buffer@.total_bytes == 0,
        !e.attached,
        !e.termination_requested,
{
}

/// A session has two seconds to end, and two more once it was killed.
pub proof fn law_sessions_have_two_seconds_to_end()
    ensures
        CLEANUP_WAIT_SECS == 2,
{
}

} // verus!
