//! What is known of a terminal session.
use crate::ordered::OrderedMap;
use crate::outside::{is_new_id, random_uuid, utc_now};
use crate::ssh::model::SshConnectionId;
use crate::text::{blank, cat2, clone_opt, clone_strings, is_blank, same};
use crate::timestamp::Timestamp;
use vstd::prelude::*;

verus! {

/// The identifier of a session.
#[derive(Debug, PartialEq, Eq, PartialOrd, Ord, Hash)]
pub struct SessionId(String);

impl Clone for SessionId {
    fn clone(&self) -> (r: Self)
        ensures
            r == *self,
    {
        SessionId(self.0.clone())
    }
}

impl From<String> for SessionId {
    fn from(value: String) -> (r: Self) {
        SessionId(value)
    }
}

impl vstd::std_specs::convert::FromSpecImpl<String> for SessionId {
    open spec fn obeys_from_spec() -> bool {
        true
    }

    closed spec fn from_spec(value: String) -> Self {
        SessionId(value)
    }
}

impl SessionId {
    /// The text of the identifier.
    pub closed spec fn view(&self) -> Seq<char> {
        self.0@
    }

    /// An identifier made from a string has the text of that string.
    pub proof fn lemma_from_text(value: String)
        ensures
            <Self as vstd::std_specs::convert::FromSpec<String>>::from_spec(value)@ == value@,
    {
    }

    /// A new identifier: a fixed prefix and 32 random hexadecimal digits.
    pub fn new() -> (r: Self)
        ensures
            is_new_id("pty_"@, r@),
    {
        let suffix = random_uuid();
        let r = SessionId(cat2("pty_", suffix.as_str()));
        assert(r@.skip("pty_"@.len() as int) =~= suffix@);
        r
    }

    /// The identifier with the given text.
    pub fn of(value: &str) -> (r: Self)
        ensures
            r@ == value@,
    {
        SessionId(value.to_owned())
    }

    /// Reads an identifier, which is not blank.
    pub fn parse(value: &str) -> (r: Result<Self, &'static str>)
        ensures
            match r {
                Ok(id) => !is_blank(value@) && id@ == value@,
                Err(e) => is_blank(value@) && e@ == "session id cannot be empty"@,
            },
    {
        if blank(value) {
            Err("session id cannot be empty")
        } else {
            Ok(SessionId(value.to_owned()))
        }
    }

    /// The text of the identifier.
    pub fn as_str(&self) -> (r: &str)
        ensures
            r@ == self@,
    {
        self.0.as_str()
    }

    /// Whether two identifiers are the same.
    pub fn same_as(&self, other: &Self) -> (r: bool)
        ensures
            r == (self@ == other@),
    {
        same(self.0.as_str(), other.0.as_str())
    }
}

/// The texts of identifiers.
pub open spec fn id_texts(ids: Seq<SessionId>) -> Seq<Seq<char>> {
    ids.map_values(|s: SessionId| s@)
}

/// Where a session stands in its life.
#[derive(Debug, Clone, Copy, PartialEq, Eq, Structural)]
pub enum SessionStatus {
    Starting,
    Running,
    Exited,
    FailedToSpawn,
    Closing,
    Killed,
}

/// Whether the program runs here or on a remote host.
#[derive(Debug, Clone, Copy, PartialEq, Eq, Structural)]
pub enum SessionTransport {
    Local,
    Ssh,
}

impl Default for SessionTransport {
    fn default() -> (r: Self)
        ensures
            r == SessionTransport::Local,
    {
        SessionTransport::Local
    }
}

/// The form in which output is asked for.
#[derive(Debug, Clone, Copy, PartialEq, Eq, Structural)]
pub enum ReadView {
    Plain,
    Ansi,
    Raw,
}

/// The signals that a session can be sent.
#[derive(Debug, Clone, Copy, PartialEq, Eq, Structural)]
pub enum SignalKind {
    Sigint,
    Sigterm,
    Sigkill,
}

/// A part of a listing.
#[derive(Debug, Clone, Copy, PartialEq, Eq, Structural)]
pub struct Pagination {
    pub offset: usize,
    pub limit: usize,
}

/// How much output a session's buffer holds.
#[derive(Debug, Clone, Copy, PartialEq, Eq, Structural)]
pub struct BufferStats {
    pub line_count: usize,
    pub byte_count: usize,
}

impl Default for BufferStats {
    fn default() -> (r: Self)
        ensures
            r == (BufferStats { line_count: 0, byte_count: 0 }),
    {
        BufferStats { line_count: 0, byte_count: 0 }
    }
}

/// How a program ended.
#[derive(Debug, PartialEq, Eq)]
pub struct ExitInfo {
    pub exit_code: Option<i32>,
    pub exit_signal: Option<String>,
    pub finished_at: Option<Timestamp>,
}

impl Default for ExitInfo {
    fn default() -> (r: Self)
        ensures
            r == (ExitInfo { exit_code: None, exit_signal: None, finished_at: None }),
    {
        ExitInfo { exit_code: None, exit_signal: None, finished_at: None }
    }
}

impl Clone for ExitInfo {
    fn clone(&self) -> (r: Self)
        ensures
            r == *self,
    {
        ExitInfo {
            exit_code: self.exit_code,
            exit_signal: clone_opt(&self.exit_signal),
            finished_at: self.finished_at,
        }
    }
}

/// A copy of what may be known of an exit.
pub fn clone_exit(o: &Option<ExitInfo>) -> (r: Option<ExitInfo>)
    ensures
        r == *o,
{
    match o {
        Some(e) => Some(e.clone()),
        None => None,
    }
}

/// What is known of a session.
#[derive(Debug, PartialEq, Eq)]
pub struct SessionSummary {
    pub session_id: SessionId,
    pub title: Option<String>,
    pub description: String,
    pub command: String,
    pub args: Vec<String>,
    pub cwd: Option<String>,
    pub transport: SessionTransport,
    pub connection_id: Option<SshConnectionId>,
    pub target_summary: Option<String>,
    pub remote_cwd: Option<String>,
    pub remote_command: Option<String>,
    pub remote_env_preview: OrderedMap<String>,
    pub status: SessionStatus,
    pub pid: Option<u32>,
    pub started_at: Timestamp,
    pub buffer_stats: BufferStats,
    pub exit_info: Option<ExitInfo>,
}

impl SessionSummary {
    /// A summary is valid: its preview of the environment is an ordered map.
    pub open spec fn wf(&self) -> bool {
        self.remote_env_preview.wf()
    }

    /// Whether two summaries say the same.
    pub open spec fn same_as(&self, other: SessionSummary) -> bool {
        &&& other == (SessionSummary {
            args: other.args,
            remote_env_preview: other.remote_env_preview,
            ..*self
        })
        &&& self.args@ == other.args@
        &&& self.remote_env_preview@ == other.remote_env_preview@
        &&& other.wf() == self.wf()
    }

    /// A copy that says the same.
    pub fn copied(&self) -> (r: SessionSummary)
        requires
            self.wf(),
        ensures
            self.same_as(r),
            r.wf(),
    {
        SessionSummary {
            session_id: self.session_id.clone(),
            title: clone_opt(&self.title),
            description: self.description.clone(),
            command: self.command.clone(),
            args: clone_strings(&self.args),
            cwd: clone_opt(&self.cwd),
            transport: self.transport,
            connection_id: match &self.connection_id {
                Some(c) => Some(c.clone()),
                None => None,
            },
            target_summary: clone_opt(&self.target_summary),
            remote_cwd: clone_opt(&self.remote_cwd),
            remote_command: clone_opt(&self.remote_command),
            remote_env_preview: self.remote_env_preview.copied(),
            status: self.status,
            pid: self.pid,
            started_at: self.started_at,
            buffer_stats: self.buffer_stats,
            exit_info: clone_exit(&self.exit_info),
        }
    }

    /// A local session that is about to start, under a new identifier.
    pub fn placeholder(description: String, command: String) -> (r: SessionSummary)
        ensures
            r.is_fresh_local(description, command),
            is_new_id("pty_"@, r.session_id@),
    {
        SessionSummary {
            session_id: SessionId::new(),
            title: None,
            description,
            command,
            args: Vec::new(),
            cwd: None,
            transport: SessionTransport::Local,
            connection_id: None,
            target_summary: None,
            remote_cwd: None,
            remote_command: None,
            remote_env_preview: OrderedMap::new(),
            status: SessionStatus::Starting,
            pid: None,
            started_at: utc_now(),
            buffer_stats: BufferStats::default(),
            exit_info: None,
        }
    }

    /// A local session that is about to start, with nothing said of it but a
    /// description and a command.
    pub open spec fn is_fresh_local(&self, description: String, command: String) -> bool {
        &&& *self == (SessionSummary {
            session_id: self.session_id,
            title: None,
            description,
            command,
            args: self.args,
            cwd: None,
            transport: SessionTransport::Local,
            connection_id: None,
            target_summary: None,
            remote_cwd: None,
            remote_command: None,
            remote_env_preview: self.remote_env_preview,
            status: SessionStatus::Starting,
            pid: None,
            started_at: self.started_at,
            buffer_stats: BufferStats { line_count: 0, byte_count: 0 },
            exit_info: None,
        })
        &&& self.args@.len() == 0
        &&& self.remote_env_preview@ == Map::<Seq<char>, String>::empty()
        &&& self.wf()
    }
}

/// Whether a session in this status may still have a program running.
pub open spec fn status_is_live(status: SessionStatus) -> bool {
    status == SessionStatus::Starting || status == SessionStatus::Running || status
        == SessionStatus::Closing
}

impl SessionStatus {
    /// Whether a session in this status may still have a program running.
    pub fn is_live(&self) -> (r: bool)
        ensures
            r == status_is_live(*self),
    {
        match self {
            SessionStatus::Starting | SessionStatus::Running | SessionStatus::Closing => true,
            _ => false,
        }
    }
}

/// A session may still have a program running while it starts, runs or closes, and not
/// once it has ended, was killed or could not be started.
pub proof fn law_sessions_live_until_they_end(status: SessionStatus)
    ensures
        status == SessionStatus::Starting ==> status_is_live(status),
        status == SessionStatus::Running ==> status_is_live(status),
        status == SessionStatus::Closing ==> status_is_live(status),
        status == SessionStatus::Exited ==> !status_is_live(status),
        status == SessionStatus::Killed ==> !status_is_live(status),
        status == SessionStatus::FailedToSpawn ==> !status_is_live(status),
{
}

/// Summaries that say the same agree in every part.
pub proof fn law_same_summaries_agree(a: SessionSummary, b: SessionSummary)
    requires
        a.same_as(b),
    ensures
        b.session_id == a.session_id,
        b.title == a.title,
        b.description == a.description,
        b.command == a.command,
        b.args@ == a.args@,
        b.cwd == a.cwd,
        b.transport == a.transport,
        b.connection_id == a.connection_id,
        b.target_summary == a.target_summary,
        b.remote_cwd == a.remote_cwd,
        b.remote_command == a.remote_command,
        b.remote_env_preview@ == a.remote_env_preview@,
        b.status == a.status,
        b.pid == a.pid,
        b.started_at == a.started_at,
        b.buffer_stats == a.buffer_stats,
        b.exit_info == a.exit_info,
{
}

} // verus!
