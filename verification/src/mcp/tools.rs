//! The tools: what they are asked, with their defaults, and what they answer.
use crate::app::context::AppContext;
use crate::app::types;
use crate::app::types::{
    SpawnSessionRequest, SshConnectResult, SshDirectoryEntry, SshDirectoryEntryType,
    SshDisconnectResult, SshListDirectoryResult, SshListResult, SshMkdirResult, SshReadFileResult,
    SshUnmountResult, SshWriteFileResult,
};
use crate::buffer::store::{
    is_page, is_part_of, law_page_shows_what_is_asked, page_lines, selected, shown, ShownLine,
    Transcript,
};
use crate::buffer::view::{BufferReadPage, BufferReadRequest, BufferView};
use crate::error::Failure;
use crate::json::JsonValue;
use crate::outside::{pattern_fault, pattern_matches};
use crate::session::model::{
    ReadView, SessionId, SessionStatus, SessionSummary, SessionTransport, SignalKind,
};
use crate::session::registry::{
    line_texts, not_found_text, SessionKillResult, SessionWaitResult, SessionWriteResult,
};
use crate::ssh::model::{
    SshAuthKind, SshConnectionId, SshConnectionStatus, SshConnectionSummary, SshMountBackend,
    SshMountId, SshMountStatus, SshMountSummary, SshTarget,
};
use crate::text::{clone_opt, join, joined, texts};
use crate::timestamp::Timestamp;
use vstd::prelude::*;

verus! {

/// The body of the answer of a tool that has failed: its message.
pub fn tool_failure_body(failure: &Failure) -> (r: Vec<(String, JsonValue)>)
    ensures
        r@.len() == 1,
        r@[0].0@ == "message"@,
        r@[0].1 matches JsonValue::Text(t) && t@ == failure@,
{
    let mut r: Vec<(String, JsonValue)> = Vec::new();
    r.push(("message".to_owned(), JsonValue::Text(failure.message.clone())));
    r
}

/// How much of a remote file is read where nothing is said.
pub const DEFAULT_FILE_BYTES: usize = 131_072;

/// An optional truth value, or its default.
pub open spec fn flag_or(o: Option<bool>, default: bool) -> bool {
    match o {
        Some(b) => b,
        None => default,
    }
}

fn flag(o: Option<bool>, default: bool) -> (r: bool)
    ensures
        r == flag_or(o, default),
{
    match o {
        Some(b) => b,
        None => default,
    }
}

/// An optional number, or its default, and one at least.
pub open spec fn limit_or(o: Option<usize>, default: usize) -> usize {
    let n = match o {
        Some(n) => n,
        None => default,
    };
    if n >= 1 {
        n
    } else {
        1
    }
}

fn limit(o: Option<usize>, default: usize) -> (r: usize)
    ensures
        r == limit_or(o, default),
{
    let n: usize = match o {
        Some(n) => n,
        None => default,
    };
    if n >= 1 {
        n
    } else {
        1
    }
}

/// The form in which lines are shown.
pub open spec fn view_of(view: ReadView) -> BufferView {
    match view {
        ReadView::Plain => BufferView::Plain,
        ReadView::Ansi => BufferView::Ansi,
        ReadView::Raw => BufferView::Raw,
    }
}

/// The form in which lines are shown, plain where nothing is said.
pub open spec fn view_or_plain(view: Option<ReadView>) -> BufferView {
    match view {
        Some(v) => view_of(v),
        None => BufferView::Plain,
    }
}

/// The form in which lines are shown.
pub fn resolve_buffer_view(view: ReadView) -> (r: BufferView)
    ensures
        r == view_of(view),
{
    match view {
        ReadView::Plain => BufferView::Plain,
        ReadView::Ansi => BufferView::Ansi,
        ReadView::Raw => BufferView::Raw,
    }
}

#[derive(Debug, PartialEq, Eq)]
pub struct PtySpawnRequest {
    pub command: String,
    pub args: Vec<String>,
    pub cwd: Option<String>,
    pub env: Option<Vec<(String, JsonValue)>>,
    pub title: Option<String>,
    pub description: String,
    pub wait_for_output_ms: Option<u64>,
    pub output_limit: Option<usize>,
    pub output_view: Option<ReadView>,
}

/// What is waited for at the start of a session.
#[derive(Debug, Clone, Copy, PartialEq, Eq, Structural)]
pub struct InitialOutput {
    pub wait_ms: u64,
    pub limit: usize,
    pub view: BufferView,
}

impl PtySpawnRequest {
    /// The first output that is waited for, where anything is said of it.
    pub fn initial_output(&self, default_limit: usize) -> (r: Option<InitialOutput>)
        ensures
            match r {
                Some(o) => {
                    &&& self.wait_for_output_ms is Some || self.output_limit is Some
                        || self.output_view is Some
                    &&& o.wait_ms == match self.wait_for_output_ms {
                        Some(ms) => ms,
                        None => 0,
                    }
                    &&& o.limit == limit_or(self.output_limit, default_limit)
                    &&& o.view == view_or_plain(self.output_view)
                },
                None => self.wait_for_output_ms is None && self.output_limit is None
                    && self.output_view is None,
            },
    {
        if self.wait_for_output_ms.is_none() && self.output_limit.is_none()
            && self.output_view.is_none() {
            return None;
        }
        Some(
            InitialOutput {
                wait_ms: match self.wait_for_output_ms {
                    Some(ms) => ms,
                    None => 0,
                },
                limit: limit(self.output_limit, default_limit),
                view: match self.output_view {
                    Some(v) => resolve_buffer_view(v),
                    None => BufferView::Plain,
                },
            },
        )
    }

    /// The session that is asked for.
    pub fn into_app(self) -> (r: SpawnSessionRequest)
        ensures
            r == (SpawnSessionRequest {
                command: self.command,
                args: self.args,
                cwd: self.cwd,
                env: self.env,
                title: self.title,
                description: Some(self.description),
            }),
    {
        SpawnSessionRequest {
            command: self.command,
            args: self.args,
            cwd: self.cwd,
            env: self.env,
            title: self.title,
            description: Some(self.description),
        }
    }
}

#[derive(Debug, PartialEq, Eq)]
pub struct PtyReadLine {
    pub line_number: usize,
    pub text: String,
}

#[derive(Debug, PartialEq, Eq)]
pub struct PtyOutputSnapshot {
    pub offset: usize,
    pub returned: usize,
    pub has_more: bool,
    pub total_lines: usize,
    pub lines: Vec<PtyReadLine>,
}

/// The lines of a snapshot as a reader sees them.
pub open spec fn snapshot_lines(lines: Seq<PtyReadLine>) -> Seq<ShownLine> {
    lines.map_values(|l: PtyReadLine| ShownLine { number: l.line_number as nat, text: l.text@ })
}

/// Whether a snapshot shows a page.
pub open spec fn shows_page(s: PtyOutputSnapshot, page: BufferReadPage) -> bool {
    &&& s.offset == page.offset
    &&& s.returned == page.returned
    &&& s.has_more == page.has_more
    &&& s.total_lines == page.total_lines
    &&& snapshot_lines(s.lines@) == page_lines(page.lines@)
}

/// A page as a snapshot.
pub fn output_snapshot_from_page(page: BufferReadPage) -> (r: PtyOutputSnapshot)
    ensures
        shows_page(r, page),
{
    let mut lines: Vec<PtyReadLine> = Vec::new();
    let mut i: usize = 0;
    while i < page.lines.len()
        invariant
            i <= page.lines@.len(),
            snapshot_lines(lines@) == page_lines(page.lines@).take(i as int),
        decreases page.lines@.len() - i,
    {
        let ghost before = lines@;
        let line = &page.lines[i];
        let item = PtyReadLine { line_number: line.line_number, text: line.text.clone() };
        lines.push(item);
        i = i + 1;
        proof {
            let shown = ShownLine { number: item.line_number as nat, text: item.text@ };
            assert(snapshot_lines(lines@) =~= snapshot_lines(before).push(shown));
            assert(page_lines(page.lines@).take(i as int) =~= page_lines(page.lines@).take(
                i - 1,
            ).push(shown));
        }
    }
    assert(page_lines(page.lines@).take(i as int) =~= page_lines(page.lines@));
    PtyOutputSnapshot {
        offset: page.offset,
        returned: page.returned,
        has_more: page.has_more,
        total_lines: page.total_lines,
        lines,
    }
}

/// How many milliseconds pass between two looks at the first output.
pub const CAPTURE_INTERVAL_MS: u64 = 10;

/// What capturing the first output asks for next.
#[derive(Debug, PartialEq, Eq)]
pub enum CaptureProgress {
    /// Wait so many milliseconds, then look again.
    Sleep { ms: u64 },
    /// Nothing is left to do.
    Done(Option<PtyOutputSnapshot>),
}

/// The page of first output.
pub open spec fn first_page(want: InitialOutput) -> BufferReadRequest {
    BufferReadRequest {
        offset: 0,
        limit: want.limit,
        pattern: None,
        ignore_case: false,
        view: want.view,
    }
}

/// Looks for the first output of a session: what there is, is shown; where there is
/// none, it is waited for until the time is up.
pub fn capture_initial_output(
    context: &AppContext,
    session_id: &SessionId,
    want: InitialOutput,
    elapsed_ms: u64,
) -> (r: Result<CaptureProgress, Failure>)
    requires
        context.wf(),
    ensures
        ({
            let e = context.registry.sessions()[session_id@];
            if !context.registry.sessions().contains_key(session_id@) {
                r matches Err(e) && e@ == not_found_text(session_id@)
            } else {
                exists|page: BufferReadPage|
                    {
                        &&& #[trigger] is_page(e.buffer@, first_page(want), page)
                        &&& if page.returned > 0 {
                            r matches Ok(CaptureProgress::Done(Some(s))) && shows_page(s, page)
                        } else if elapsed_ms >= want.wait_ms {
                            r == Ok::<CaptureProgress, Failure>(CaptureProgress::Done(None))
                        } else {
                            r == Ok::<CaptureProgress, Failure>(
                                CaptureProgress::Sleep { ms: CAPTURE_INTERVAL_MS },
                            )
                        }
                    }
            }
        }),
{
    let request = BufferReadRequest {
        offset: 0,
        limit: want.limit,
        pattern: None,
        ignore_case: false,
        view: want.view,
    };
    match context.registry.read_output(session_id, &request) {
        Err(e) => Err(e),
        Ok(page) => {
            assert(is_page(
                context.registry.sessions()[session_id@].buffer@,
                first_page(want),
                page,
            ));
            if page.returned > 0 {
                Ok(CaptureProgress::Done(Some(output_snapshot_from_page(page))))
            } else if elapsed_ms >= want.wait_ms {
                Ok(CaptureProgress::Done(None))
            } else {
                Ok(CaptureProgress::Sleep { ms: CAPTURE_INTERVAL_MS })
            }
        },
    }
}

#[derive(Debug, PartialEq, Eq)]
pub struct PtySpawnResponse {
    pub session_id: SessionId,
    pub title: Option<String>,
    pub status: SessionStatus,
    pub pid: Option<u32>,
    pub cwd: Option<String>,
    pub started_at: Timestamp,
    pub initial_output: Option<PtyOutputSnapshot>,
}

impl PtySpawnResponse {
    /// The answer about a session that was started.
    pub fn from_summary(s: SessionSummary, initial_output: Option<PtyOutputSnapshot>) -> (r: Self)
        ensures
            r == (PtySpawnResponse {
                session_id: s.session_id,
                title: s.title,
                status: s.status,
                pid: s.pid,
                cwd: s.cwd,
                started_at: s.started_at,
                initial_output,
            }),
    {
        PtySpawnResponse {
            session_id: s.session_id,
            title: s.title,
            status: s.status,
            pid: s.pid,
            cwd: s.cwd,
            started_at: s.started_at,
            initial_output,
        }
    }
}

#[derive(Debug, Clone, Copy, PartialEq, Eq, Structural)]
pub enum WriteMode {
    Plain,
    Escaped,
}

#[derive(Debug, PartialEq, Eq)]
pub struct PtyWriteRequest {
    pub session_id: SessionId,
    pub data: String,
    pub mode: Option<WriteMode>,
}

impl PtyWriteRequest {
    /// Whether the data is escaped, which it is not where nothing is said.
    pub fn is_escaped(&self) -> (r: bool)
        ensures
            r == (self.mode == Some(WriteMode::Escaped)),
    {
        match self.mode {
            Some(WriteMode::Escaped) => true,
            _ => false,
        }
    }
}

#[derive(Debug, PartialEq, Eq)]
pub struct PtyWriteResponse {
    pub session_id: SessionId,
    pub bytes_written: usize,
    pub accepted: bool,
    pub status: SessionStatus,
}

impl PtyWriteResponse {
    /// The answer about what was typed.
    pub fn from_result(w: SessionWriteResult) -> (r: Self)
        ensures
            r == (PtyWriteResponse {
                session_id: w.session_id,
                bytes_written: w.bytes_written,
                accepted: w.accepted,
                status: w.status,
            }),
    {
        PtyWriteResponse {
            session_id: w.session_id,
            bytes_written: w.bytes_written,
            accepted: w.accepted,
            status: w.status,
        }
    }
}

#[derive(Debug, PartialEq, Eq)]
pub struct PtyReadRequest {
    pub session_id: SessionId,
    pub offset: Option<usize>,
    pub limit: Option<usize>,
    pub pattern: Option<String>,
    pub ignore_case: Option<bool>,
    pub view: Option<ReadView>,
}

/// The page that a request asks for.
pub open spec fn asked_page(request: PtyReadRequest, default_limit: usize) -> BufferReadRequest {
    BufferReadRequest {
        offset: match request.offset {
            Some(n) => n,
            None => 0,
        },
        limit: limit_or(request.limit, default_limit),
        pattern: request.pattern,
        ignore_case: flag_or(request.ignore_case, false),
        view: view_or_plain(request.view),
    }
}

impl PtyReadRequest {
    /// The page that is asked for.
    pub fn page_request(&self, default_limit: usize) -> (r: BufferReadRequest)
        ensures
            r == asked_page(*self, default_limit),
    {
        BufferReadRequest {
            offset: match self.offset {
                Some(n) => n,
                None => 0,
            },
            limit: limit(self.limit, default_limit),
            pattern: clone_opt(&self.pattern),
            ignore_case: flag(self.ignore_case, false),
            view: match self.view {
                Some(v) => resolve_buffer_view(v),
                None => BufferView::Plain,
            },
        }
    }
}

#[derive(Debug, PartialEq, Eq)]
pub struct PtyReadResponse {
    pub session_id: SessionId,
    pub status: SessionStatus,
    pub offset: usize,
    pub returned: usize,
    pub has_more: bool,
    pub total_lines: usize,
    pub lines: String,
}

/// Whether an answer shows a page: its lines as one text.
pub open spec fn answers_page(r: PtyReadResponse, page: BufferReadPage) -> bool {
    &&& r.offset == page.offset
    &&& r.returned == page.returned
    &&& r.has_more == page.has_more
    &&& r.total_lines == page.total_lines
    &&& r.lines@ == joined(line_texts(page_lines(page.lines@)), "\n"@)
}

/// A page as an answer: its lines as one text.
pub fn read_response_from_page(session_id: SessionId, status: SessionStatus, page: BufferReadPage) -> (r:
    PtyReadResponse)
    ensures
        r.session_id == session_id,
        r.status == status,
        answers_page(r, page),
{
    let mut lines: Vec<String> = Vec::new();
    let mut i: usize = 0;
    while i < page.lines.len()
        invariant
            i <= page.lines@.len(),
            texts(lines@) == line_texts(page_lines(page.lines@)).take(i as int),
        decreases page.lines@.len() - i,
    {
        let ghost before = lines@;
        lines.push(page.lines[i].text.clone());
        i = i + 1;
        proof {
            assert(texts(lines@) =~= texts(before).push(page.lines@[i - 1].text@));
            assert(line_texts(page_lines(page.lines@)).take(i as int) =~= line_texts(
                page_lines(page.lines@),
            ).take(i - 1).push(page.lines@[i - 1].text@));
        }
    }
    assert(line_texts(page_lines(page.lines@)).take(i as int) =~= line_texts(
        page_lines(page.lines@),
    ));
    PtyReadResponse {
        session_id,
        status,
        offset: page.offset,
        returned: page.returned,
        has_more: page.has_more,
        total_lines: page.total_lines,
        lines: join(&lines, "\n"),
    }
}

/// Reads output of a session.
pub fn pty_read(context: &AppContext, request: PtyReadRequest) -> (r: Result<
    PtyReadResponse,
    Failure,
>)
    requires
        context.wf(),
    ensures
        ({
            let id = request.session_id@;
            let known = context.registry.sessions().contains_key(id);
            let e = context.registry.sessions()[id];
            let want = asked_page(request, context.config.default_read_limit);
            let fault = if request.pattern is Some {
                pattern_fault(request.pattern->0@, want.ignore_case)
            } else {
                None
            };
            if !known {
                r matches Err(e) && e@ == not_found_text(id)
            } else if fault is Some {
                r matches Err(e) && e@ == "invalid regex pattern for buffer read: session_id="@ + id
                    + " "@ + fault->0
            } else {
                &&& r matches Ok(answer)
                &&& answer.session_id == request.session_id
                &&& answer.status == e.summary.status
                &&& exists|page: BufferReadPage|
                    {
                        &&& #[trigger] is_page(e.buffer@, want, page)
                        &&& answers_page(answer, page)
                    }
            }
        }),
        r is Ok <==> context.registry.sessions().contains_key(request.session_id@) && (
        request.pattern is Some ==> pattern_fault(
            request.pattern->0@,
            request.ignore_case == Some(true),
        ) is None),
        r matches Ok(answer) ==> shows_as_asked(
            context.registry.sessions()[request.session_id@].buffer@,
            request,
            context.config.default_read_limit,
            answer,
        ),
{
    let want = request.page_request(context.config.default_read_limit);
    match context.registry.read_output(&request.session_id, &want) {
        Ok(page) => {
            assert(is_page(
                context.registry.sessions()[request.session_id@].buffer@,
                want,
                page,
            ));
            let status = match context.registry.status_of(&request.session_id) {
                Some(status) => status,
                None => SessionStatus::Exited,
            };
            let ghost asked = request;
            let answer = read_response_from_page(request.session_id, status, page);
            proof {
                law_read_answers_what_was_asked(
                    context.registry.sessions()[asked.session_id@].buffer@,
                    asked,
                    context.config.default_read_limit,
                    page,
                    answer,
                );
            }
            Ok(answer)
        },
        Err(e) => Err(e),
    }
}

#[derive(Debug, PartialEq, Eq)]
pub struct PtyListResponse {
    pub sessions: Vec<SessionSummary>,
}

/// A session with what its connection adds to it.
pub open spec fn enriched_by(s: SessionSummary, c: SshConnectionSummary, r: SessionSummary) -> bool {
    &&& s.same_as(
        SessionSummary {
            transport: s.transport,
            connection_id: s.connection_id,
            target_summary: s.target_summary,
            remote_command: s.remote_command,
            ..r
        },
    )
    &&& r.transport == SessionTransport::Ssh
    &&& r.connection_id == Some(c.connection_id)
    &&& r.target_summary == Some(c.target_summary)
    &&& if s.remote_command is Some {
        r.remote_command == s.remote_command
    } else {
        r.remote_command is Some && r.remote_command->0@ == "remote-session"@
    }
}

/// All sessions, in the order of their identifiers, each with what its connection
/// adds to it where it runs over a known one.
pub fn enrich_sessions_with_ssh_context(context: &AppContext) -> (r: Vec<SessionSummary>)
    requires
        context.wf(),
    ensures
        r@.len() == context.registry.ids().len(),
        forall|i: int|
            0 <= i < r@.len() ==> {
                let id = context.registry.ids()[i];
                let s = context.registry.sessions()[id].summary;
                let links = context.ssh_registry.links();
                let connections = context.ssh_registry.connections();
                if links.contains_key(id) && connections.contains_key(links[id]) {
                    enriched_by(s, connections[links[id]], #[trigger] r@[i])
                } else {
                    s.same_as(r@[i])
                }
            },
{
    let sessions = context.registry.list();
    let mut r: Vec<SessionSummary> = Vec::new();
    let mut i: usize = 0;
    while i < sessions.len()
        invariant
            context.wf(),
            i <= sessions@.len(),
            sessions@.len() == context.registry.ids().len(),
            forall|k: int|
                0 <= k < sessions@.len() ==> (#[trigger] sessions@[k]).wf()
                    && context.registry.sessions()[context.registry.ids()[k]].summary.same_as(
                    sessions@[k],
                ),
            r@.len() == i,
            forall|k: int|
                0 <= k < i ==> {
                    let id = context.registry.ids()[k];
                    let s = context.registry.sessions()[id].summary;
                    let links = context.ssh_registry.links();
                    let connections = context.ssh_registry.connections();
                    if links.contains_key(id) && connections.contains_key(links[id]) {
                        enriched_by(s, connections[links[id]], #[trigger] r@[k])
                    } else {
                        s.same_as(r@[k])
                    }
                },
        decreases sessions@.len() - i,
    {
        proof {
            let id = context.registry.ids()[i as int];
            context.registry.lemma_ids();
            assert(context.registry.ids().contains(id));
            assert(context.registry.ids().to_set().contains(id));
            context.registry.lemma_wf(id);
        }
        let mut session = sessions[i].copied();
        match context.ssh_registry.connection_of_session(&session.session_id) {
            Some(connection) => {
                session.transport = SessionTransport::Ssh;
                session.connection_id = Some(connection.connection_id);
                session.target_summary = Some(connection.target_summary);
                if session.remote_command.is_none() {
                    session.remote_command = Some("remote-session".to_owned());
                }
            },
            None => {},
        }
        r.push(session);
        i = i + 1;
    }
    r
}

#[derive(Debug, PartialEq, Eq)]
pub struct SshConnectRequest {
    pub host_alias: Option<String>,
    pub host: Option<String>,
    pub port: Option<u16>,
    pub user: Option<String>,
    pub identity_path: Option<String>,
    pub auth_kind: Option<SshAuthKind>,
    pub title: Option<String>,
    pub description: String,
    pub verify_host_key: Option<bool>,
}

impl SshConnectRequest {
    /// The connection that is asked for. The way of authentication has to be said,
    /// and the host key is verified where nothing is said.
    pub fn into_app(self) -> (r: Result<types::SshConnectRequest, Failure>)
        ensures
            match self.auth_kind {
                Some(auth_kind) => r == Ok::<types::SshConnectRequest, Failure>(
                    types::SshConnectRequest {
                        host_alias: self.host_alias,
                        host: self.host,
                        user: self.user,
                        port: self.port,
                        auth_kind,
                        identity_path: self.identity_path,
                        title: self.title,
                        description: Some(self.description),
                        verify_host_key: flag_or(self.verify_host_key, true),
                    },
                ),
                None => r matches Err(e) && e@ == "ssh_connect requires explicit auth_kind"@,
            },
    {
        match self.auth_kind {
            Some(auth_kind) => Ok(
                types::SshConnectRequest {
                    host_alias: self.host_alias,
                    host: self.host,
                    user: self.user,
                    port: self.port,
                    auth_kind,
                    identity_path: self.identity_path,
                    title: self.title,
                    description: Some(self.description),
                    verify_host_key: flag(self.verify_host_key, true),
                },
            ),
            None => Err(Failure::new("ssh_connect requires explicit auth_kind".to_owned())),
        }
    }
}

#[derive(Debug, PartialEq, Eq)]
pub struct SshConnectResponse {
    pub connection_id: SshConnectionId,
    pub title: Option<String>,
    pub status: SshConnectionStatus,
    pub target: SshTarget,
    pub started_at: Timestamp,
    pub reused: bool,
}

impl SshConnectResponse {
    /// The answer about a connection.
    pub fn from_result(c: SshConnectResult) -> (r: Self)
        ensures
            r == (SshConnectResponse {
                connection_id: c.connection.connection_id,
                title: c.connection.title,
                status: c.connection.status,
                target: c.connection.target,
                started_at: c.connection.started_at,
                reused: c.reused,
            }),
    {
        SshConnectResponse {
            connection_id: c.connection.connection_id,
            title: c.connection.title,
            status: c.connection.status,
            target: c.connection.target,
            started_at: c.connection.started_at,
            reused: c.reused,
        }
    }
}

#[derive(Debug, PartialEq, Eq)]
pub struct SshListResponse {
    pub connections: Vec<SshConnectionSummary>,
    pub mounts: Vec<SshMountSummary>,
}

impl SshListResponse {
    /// The answer about all connections and mounts.
    pub fn from_result(l: SshListResult) -> (r: Self)
        ensures
            r == (SshListResponse { connections: l.connections, mounts: l.mounts }),
    {
        SshListResponse { connections: l.connections, mounts: l.mounts }
    }
}

#[derive(Debug, PartialEq, Eq)]
pub struct SshSessionSpawnRequest {
    pub connection_id: SshConnectionId,
    pub command: Option<String>,
    pub args: Vec<String>,
    pub cwd: Option<String>,
    pub env: Option<Vec<(String, JsonValue)>>,
    pub shell: Option<String>,
    pub interactive: Option<bool>,
    pub login: Option<bool>,
    pub title: Option<String>,
    pub description: String,
}

impl SshSessionSpawnRequest {
    /// The remote session that is asked for, which is interactive and no login
    /// session where nothing is said.
    pub fn into_app(self) -> (r: types::SshSessionSpawnRequest)
        ensures
            r == (types::SshSessionSpawnRequest {
                connection_id: self.connection_id,
                command: self.command,
                args: self.args,
                cwd: self.cwd,
                env: self.env,
                shell: self.shell,
                interactive: flag_or(self.interactive, true),
                login: flag_or(self.login, false),
                title: self.title,
                description: Some(self.description),
            }),
    {
        types::SshSessionSpawnRequest {
            connection_id: self.connection_id,
            command: self.command,
            args: self.args,
            cwd: self.cwd,
            env: self.env,
            shell: self.shell,
            interactive: flag(self.interactive, true),
            login: flag(self.login, false),
            title: self.title,
            description: Some(self.description),
        }
    }
}

#[derive(Debug, PartialEq, Eq)]
pub struct SshExecRequest {
    pub connection_id: SshConnectionId,
    pub script: String,
    pub cwd: Option<String>,
    pub env: Option<Vec<(String, JsonValue)>>,
    pub shell: Option<String>,
    pub login: Option<bool>,
    pub title: Option<String>,
    pub description: String,
}

impl SshExecRequest {
    /// The remote script that is asked for.
    pub fn into_app(self) -> (r: types::SshExecRequest)
        ensures
            r == (types::SshExecRequest {
                connection_id: self.connection_id,
                script: self.script,
                cwd: self.cwd,
                env: self.env,
                shell: self.shell,
                login: flag_or(self.login, false),
                title: self.title,
                description: Some(self.description),
            }),
    {
        types::SshExecRequest {
            connection_id: self.connection_id,
            script: self.script,
            cwd: self.cwd,
            env: self.env,
            shell: self.shell,
            login: flag(self.login, false),
            title: self.title,
            description: Some(self.description),
        }
    }
}

#[derive(Debug, PartialEq, Eq)]
pub struct SshSessionSpawnResponse {
    pub connection_id: SshConnectionId,
    pub session_id: SessionId,
    pub transport: SessionTransport,
    pub status: SessionStatus,
    pub target_summary: Option<String>,
    pub remote_cwd: Option<String>,
    pub started_at: Timestamp,
}

impl SshSessionSpawnResponse {
    /// The answer about a remote session that was started.
    pub fn from_summary(connection_id: SshConnectionId, s: SessionSummary) -> (r: Self)
        ensures
            r == (SshSessionSpawnResponse {
                connection_id,
                session_id: s.session_id,
                transport: s.transport,
                status: s.status,
                target_summary: s.target_summary,
                remote_cwd: s.remote_cwd,
                started_at: s.started_at,
            }),
    {
        SshSessionSpawnResponse {
            connection_id,
            session_id: s.session_id,
            transport: s.transport,
            status: s.status,
            target_summary: s.target_summary,
            remote_cwd: s.remote_cwd,
            started_at: s.started_at,
        }
    }
}

#[derive(Debug, PartialEq, Eq)]
pub struct SshMountRequest {
    pub connection_id: SshConnectionId,
    pub remote_path: String,
    pub local_path: String,
    pub read_only: Option<bool>,
    pub backend: Option<SshMountBackend>,
    pub create_local_path: Option<bool>,
    pub title: Option<String>,
    pub description: String,
}

impl SshMountRequest {
    /// The mount that is asked for, which can be written to and whose directory is
    /// made where nothing is said.
    pub fn into_app(self) -> (r: types::SshMountRequest)
        ensures
            r == (types::SshMountRequest {
                connection_id: self.connection_id,
                remote_path: self.remote_path,
                local_path: self.local_path,
                read_only: flag_or(self.read_only, false),
                backend: self.backend,
                create_local_path: flag_or(self.create_local_path, true),
                title: self.title,
                description: Some(self.description),
            }),
    {
        types::SshMountRequest {
            connection_id: self.connection_id,
            remote_path: self.remote_path,
            local_path: self.local_path,
            read_only: flag(self.read_only, false),
            backend: self.backend,
            create_local_path: flag(self.create_local_path, true),
            title: self.title,
            description: Some(self.description),
        }
    }
}

#[derive(Debug, PartialEq, Eq)]
pub struct SshMountResponse {
    pub mount_id: SshMountId,
    pub connection_id: SshConnectionId,
    pub remote_path: String,
    pub local_path: String,
    pub backend: SshMountBackend,
    pub status: SshMountStatus,
    pub mounted_at: Timestamp,
}

impl SshMountResponse {
    /// The answer about a mount that was made.
    pub fn from_summary(m: SshMountSummary) -> (r: Self)
        ensures
            r == (SshMountResponse {
                mount_id: m.mount_id,
                connection_id: m.connection_id,
                remote_path: m.remote_path,
                local_path: m.local_path,
                backend: m.backend,
                status: m.status,
                mounted_at: m.mounted_at,
            }),
    {
        SshMountResponse {
            mount_id: m.mount_id,
            connection_id: m.connection_id,
            remote_path: m.remote_path,
            local_path: m.local_path,
            backend: m.backend,
            status: m.status,
            mounted_at: m.mounted_at,
        }
    }
}

#[derive(Debug, PartialEq, Eq)]
pub struct SshUnmountRequest {
    pub mount_id: SshMountId,
    pub force: Option<bool>,
    pub cleanup_local_path: Option<bool>,
}

impl SshUnmountRequest {
    /// The mount that is to be taken away, gently and with its directory left where
    /// nothing is said.
    pub fn into_app(self) -> (r: types::SshUnmountRequest)
        ensures
            r == (types::SshUnmountRequest {
                mount_id: self.mount_id,
                force: flag_or(self.force, false),
                cleanup_local_path: flag_or(self.cleanup_local_path, false),
            }),
    {
        types::SshUnmountRequest {
            mount_id: self.mount_id,
            force: flag(self.force, false),
            cleanup_local_path: flag(self.cleanup_local_path, false),
        }
    }
}

#[derive(Debug, PartialEq, Eq)]
pub struct SshUnmountResponse {
    pub mount_id: SshMountId,
    pub previous_status: SshMountStatus,
    pub current_status: SshMountStatus,
    pub local_path: String,
    pub cleanup_local_path: bool,
}

impl SshUnmountResponse {
    /// The answer about a mount that was taken away.
    pub fn from_result(u: SshUnmountResult) -> (r: Self)
        ensures
            r == (SshUnmountResponse {
                mount_id: u.mount.mount_id,
                previous_status: u.previous_status,
                current_status: u.mount.status,
                local_path: u.mount.local_path,
                cleanup_local_path: u.cleanup_local_path,
            }),
    {
        SshUnmountResponse {
            mount_id: u.mount.mount_id,
            previous_status: u.previous_status,
            current_status: u.mount.status,
            local_path: u.mount.local_path,
            cleanup_local_path: u.cleanup_local_path,
        }
    }
}

#[derive(Debug, PartialEq, Eq)]
pub struct SshDisconnectRequest {
    pub connection_id: SshConnectionId,
    pub force: Option<bool>,
    pub cleanup_mounts: Option<bool>,
}

impl SshDisconnectRequest {
    /// The connection that is to be ended, gently and with nothing cleaned up where
    /// nothing is said. Tunnels are left as they are.
    pub fn into_app(self) -> (r: types::SshDisconnectRequest)
        ensures
            r == (types::SshDisconnectRequest {
                connection_id: self.connection_id,
                force: flag_or(self.force, false),
                cleanup_mounts: flag_or(self.cleanup_mounts, false),
                cleanup_tunnels: false,
            }),
    {
        types::SshDisconnectRequest {
            connection_id: self.connection_id,
            force: flag(self.force, false),
            cleanup_mounts: flag(self.cleanup_mounts, false),
            cleanup_tunnels: false,
        }
    }
}

#[derive(Debug, PartialEq, Eq)]
pub struct SshDisconnectResponse {
    pub connection_id: SshConnectionId,
    pub previous_status: SshConnectionStatus,
    pub current_status: SshConnectionStatus,
    pub closed_sessions: usize,
    pub closed_mounts: usize,
}

impl SshDisconnectResponse {
    /// The answer about a connection that was ended.
    pub fn from_result(d: SshDisconnectResult) -> (r: Self)
        ensures
            r == (SshDisconnectResponse {
                connection_id: d.connection_id,
                previous_status: d.previous_status,
                current_status: d.current_status,
                closed_sessions: d.closed_sessions,
                closed_mounts: d.closed_mounts,
            }),
    {
        SshDisconnectResponse {
            connection_id: d.connection_id,
            previous_status: d.previous_status,
            current_status: d.current_status,
            closed_sessions: d.closed_sessions,
            closed_mounts: d.closed_mounts,
        }
    }
}

#[derive(Debug, PartialEq, Eq)]
pub struct SshReadFileRequest {
    pub connection_id: SshConnectionId,
    pub path: String,
    pub max_bytes: Option<usize>,
}

impl SshReadFileRequest {
    /// How much of the file is read at most.
    pub fn byte_limit(&self) -> (r: usize)
        ensures
            r == match self.max_bytes {
                Some(n) => n,
                None => DEFAULT_FILE_BYTES,
            },
    {
        match self.max_bytes {
            Some(n) => n,
            None => DEFAULT_FILE_BYTES,
        }
    }
}

#[derive(Debug, PartialEq, Eq)]
pub struct SshReadFileResponse {
    pub connection_id: SshConnectionId,
    pub path: String,
    pub content: String,
    pub bytes_read: usize,
}

impl SshReadFileResponse {
    /// The answer about a file that was read.
    pub fn from_result(f: SshReadFileResult) -> (r: Self)
        ensures
            r == (SshReadFileResponse {
                connection_id: f.connection_id,
                path: f.path,
                content: f.content,
                bytes_read: f.bytes_read,
            }),
    {
        SshReadFileResponse {
            connection_id: f.connection_id,
            path: f.path,
            content: f.content,
            bytes_read: f.bytes_read,
        }
    }
}

#[derive(Debug, PartialEq, Eq)]
pub struct SshWriteFileRequest {
    pub connection_id: SshConnectionId,
    pub path: String,
    pub content: String,
    pub append: Option<bool>,
    pub create_parent: Option<bool>,
}

impl SshWriteFileRequest {
    /// Whether the content goes behind what is there.
    pub fn appends(&self) -> (r: bool)
        ensures
            r == flag_or(self.append, false),
    {
        flag(self.append, false)
    }

    /// Whether the directory of the file is made.
    pub fn creates_parent(&self) -> (r: bool)
        ensures
            r == flag_or(self.create_parent, false),
    {
        flag(self.create_parent, false)
    }
}

#[derive(Debug, PartialEq, Eq)]
pub struct SshWriteFileResponse {
    pub connection_id: SshConnectionId,
    pub path: String,
    pub bytes_written: usize,
    pub append: bool,
}

impl SshWriteFileResponse {
    /// The answer about a file that was written.
    pub fn from_result(f: SshWriteFileResult) -> (r: Self)
        ensures
            r == (SshWriteFileResponse {
                connection_id: f.connection_id,
                path: f.path,
                bytes_written: f.bytes_written,
                append: f.append,
            }),
    {
        SshWriteFileResponse {
            connection_id: f.connection_id,
            path: f.path,
            bytes_written: f.bytes_written,
            append: f.append,
        }
    }
}

#[derive(Debug, Clone, Copy, PartialEq, Eq, Structural)]
pub enum SshDirectoryEntryTypeView {
    File,
    Directory,
    Symlink,
    Other,
}

/// A kind of entry as it is shown.
pub open spec fn type_view(t: SshDirectoryEntryType) -> SshDirectoryEntryTypeView {
    match t {
        SshDirectoryEntryType::File => SshDirectoryEntryTypeView::File,
        SshDirectoryEntryType::Directory => SshDirectoryEntryTypeView::Directory,
        SshDirectoryEntryType::Symlink => SshDirectoryEntryTypeView::Symlink,
        SshDirectoryEntryType::Other => SshDirectoryEntryTypeView::Other,
    }
}

#[derive(Debug, PartialEq, Eq)]
pub struct SshDirectoryEntryView {
    pub name: String,
    pub path: String,
    pub entry_type: SshDirectoryEntryTypeView,
}

#[derive(Debug, PartialEq, Eq)]
pub struct SshListDirRequest {
    pub connection_id: SshConnectionId,
    pub path: String,
    pub include_hidden: Option<bool>,
}

impl SshListDirRequest {
    /// Whether hidden entries are listed too.
    pub fn lists_hidden(&self) -> (r: bool)
        ensures
            r == flag_or(self.include_hidden, false),
    {
        flag(self.include_hidden, false)
    }
}

#[derive(Debug, PartialEq, Eq)]
pub struct SshListDirResponse {
    pub connection_id: SshConnectionId,
    pub path: String,
    pub entries: Vec<SshDirectoryEntryView>,
}

impl SshListDirResponse {
    /// The answer about a directory that was listed.
    pub fn from_result(l: SshListDirectoryResult) -> (r: Self)
        ensures
            r.connection_id == l.connection_id,
            r.path == l.path,
            r.entries@ == l.entries@.map_values(
                |e: SshDirectoryEntry|
                    SshDirectoryEntryView {
                        name: e.name,
                        path: e.path,
                        entry_type: type_view(e.entry_type),
                    },
            ),
    {
        let ghost shown = |e: SshDirectoryEntry|
            SshDirectoryEntryView {
                name: e.name,
                path: e.path,
                entry_type: type_view(e.entry_type),
            };
        let mut entries: Vec<SshDirectoryEntryView> = Vec::new();
        let mut i: usize = 0;
        while i < l.entries.len()
            invariant
                i <= l.entries@.len(),
                shown == (|e: SshDirectoryEntry|
                    SshDirectoryEntryView {
                        name: e.name,
                        path: e.path,
                        entry_type: type_view(e.entry_type),
                    }),
                entries@ == l.entries@.map_values(shown).take(i as int),
            decreases l.entries@.len() - i,
        {
            let e = &l.entries[i];
            entries.push(
                SshDirectoryEntryView {
                    name: e.name.clone(),
                    path: e.path.clone(),
                    entry_type: match e.entry_type {
                        SshDirectoryEntryType::File => SshDirectoryEntryTypeView::File,
                        SshDirectoryEntryType::Directory => SshDirectoryEntryTypeView::Directory,
                        SshDirectoryEntryType::Symlink => SshDirectoryEntryTypeView::Symlink,
                        SshDirectoryEntryType::Other => SshDirectoryEntryTypeView::Other,
                    },
                },
            );
            i = i + 1;
            proof {
                let all = l.entries@.map_values(shown);
                assert(all.take(i as int) =~= all.take(i - 1).push(all[i - 1]));
            }
        }
        assert(l.entries@.map_values(shown).take(i as int) =~= l.entries@.map_values(shown));
        SshListDirResponse { connection_id: l.connection_id, path: l.path, entries }
    }
}

#[derive(Debug, PartialEq, Eq)]
pub struct SshMkdirRequest {
    pub connection_id: SshConnectionId,
    pub path: String,
    pub parents: Option<bool>,
}

impl SshMkdirRequest {
    /// Whether the directories above are made too.
    pub fn makes_parents(&self) -> (r: bool)
        ensures
            r == flag_or(self.parents, false),
    {
        flag(self.parents, false)
    }
}

#[derive(Debug, PartialEq, Eq)]
pub struct SshMkdirResponse {
    pub connection_id: SshConnectionId,
    pub path: String,
    pub parents: bool,
}

impl SshMkdirResponse {
    /// The answer about a directory that was made.
    pub fn from_result(m: SshMkdirResult) -> (r: Self)
        ensures
            r == (SshMkdirResponse {
                connection_id: m.connection_id,
                path: m.path,
                parents: m.parents,
            }),
    {
        SshMkdirResponse { connection_id: m.connection_id, path: m.path, parents: m.parents }
    }
}

#[derive(Debug, PartialEq, Eq)]
pub struct PtyKillRequest {
    pub session_id: SessionId,
    pub signal: Option<SignalKind>,
    pub cleanup: Option<bool>,
}

impl PtyKillRequest {
    /// The signal that is sent.
    pub fn signal_or_default(&self) -> (r: SignalKind)
        ensures
            r == match self.signal {
                Some(s) => s,
                None => SignalKind::Sigterm,
            },
    {
        match self.signal {
            Some(s) => s,
            None => SignalKind::Sigterm,
        }
    }

    /// Whether the session is taken out once it has ended.
    pub fn cleans_up(&self) -> (r: bool)
        ensures
            r == flag_or(self.cleanup, false),
    {
        flag(self.cleanup, false)
    }
}

#[derive(Debug, PartialEq, Eq)]
pub struct PtyKillResponse {
    pub session_id: SessionId,
    pub previous_status: SessionStatus,
    pub current_status: SessionStatus,
    pub cleanup: bool,
}

impl PtyKillResponse {
    /// The answer about a session that was told to end.
    pub fn from_result(k: SessionKillResult) -> (r: Self)
        ensures
            r == (PtyKillResponse {
                session_id: k.session_id,
                previous_status: k.previous_status,
                current_status: k.current_status,
                cleanup: k.cleanup,
            }),
    {
        PtyKillResponse {
            session_id: k.session_id,
            previous_status: k.previous_status,
            current_status: k.current_status,
            cleanup: k.cleanup,
        }
    }
}

#[derive(Debug, PartialEq, Eq)]
pub struct PtyWaitRequest {
    pub session_id: SessionId,
    pub timeout_ms: Option<u64>,
}

#[derive(Debug, PartialEq, Eq)]
pub struct PtyWaitResponse {
    pub completed: bool,
    pub status: SessionStatus,
    pub exit_code: Option<i32>,
    pub exit_signal: Option<String>,
    pub last_output_preview: Option<String>,
}

impl PtyWaitResponse {
    /// The answer about a session that was waited for.
    pub fn from_result(w: SessionWaitResult) -> (r: Self)
        ensures
            r == (PtyWaitResponse {
                completed: w.completed,
                status: w.status,
                exit_code: match w.exit_info {
                    Some(info) => info.exit_code,
                    None => None,
                },
                exit_signal: match w.exit_info {
                    Some(info) => info.exit_signal,
                    None => None,
                },
                last_output_preview: w.last_output_preview,
            }),
    {
        let (exit_code, exit_signal) = match w.exit_info {
            Some(info) => (info.exit_code, info.exit_signal),
            None => (None, None),
        };
        PtyWaitResponse {
            completed: w.completed,
            status: w.status,
            exit_code,
            exit_signal,
            last_output_preview: w.last_output_preview,
        }
    }
}

/// Whether an answer shows the lines from an offset on, at most so many, one below the
/// other.
pub open spec fn shows_part_of(
    answer: PtyReadResponse,
    all: Seq<ShownLine>,
    offset: int,
    limit: int,
) -> bool {
    exists|lines: Seq<ShownLine>|
        {
            &&& #[trigger] is_part_of(lines, all, offset, limit)
            &&& answer.returned == lines.len()
            &&& answer.lines@ == joined(Seq::new(lines.len(), |i: int| lines[i].text), "\n"@)
        }
}

/// Whether an answer shows what a request asks for of what a session has printed: in
/// the form that it names, the lines that hold its pattern, with the case of letters
/// minded unless it says that it is not; from its offset on, and at most as many as its
/// limit says. The lines stand one below the other.
pub open spec fn shows_as_asked(
    t: Transcript,
    request: PtyReadRequest,
    default_limit: usize,
    answer: PtyReadResponse,
) -> bool {
    let ignore = request.ignore_case == Some(true);
    let held = match request.view {
        None => shown(t, BufferView::Plain),
        Some(ReadView::Plain) => shown(t, BufferView::Plain),
        Some(ReadView::Ansi) => shown(t, BufferView::Ansi),
        Some(ReadView::Raw) => shown(t, BufferView::Raw),
    };
    let all = match request.pattern {
        Some(p) => held.filter(|l: ShownLine| pattern_matches(p@, ignore, l.text)),
        None => held,
    };
    let offset: int = if request.offset is Some {
        request.offset->0 as int
    } else {
        0
    };
    let asked: int = if request.limit is Some {
        request.limit->0 as int
    } else {
        default_limit as int
    };
    let limit: int = if asked == 0 {
        1
    } else {
        asked
    };
    &&& shows_part_of(answer, all, offset, limit)
    &&& offset <= all.len() ==> answer.offset == offset
    &&& offset > all.len() ==> answer.offset == all.len()
    &&& answer.has_more <==> offset + limit < all.len()
    &&& answer.total_lines == held.len()
}

/// A read is answered with what was asked for: the case of letters is not minded
/// exactly where the request says so.
pub proof fn law_read_answers_what_was_asked(
    t: Transcript,
    request: PtyReadRequest,
    default_limit: usize,
    page: BufferReadPage,
    answer: PtyReadResponse,
)
    requires
        is_page(t, asked_page(request, default_limit), page),
        answers_page(answer, page),
    ensures
        shows_as_asked(t, request, default_limit, answer),
{
    let want = asked_page(request, default_limit);
    law_page_shows_what_is_asked(t, want, page);
    let lines = page_lines(page.lines@);
    let held = shown(t, want.view);
    let ignore = request.ignore_case == Some(true);
    if request.pattern is Some {
        let p = request.pattern->0;
        assert((|l: ShownLine| pattern_matches(p@, ignore, l.text)) =~= (|l: ShownLine|
            pattern_matches(want.pattern->0@, want.ignore_case, l.text)));
    }
    let all = selected(t, want);
    assert(is_part_of(lines, all, want.offset as int, want.limit as int));
    assert(line_texts(lines) =~= Seq::new(lines.len(), |i: int| lines[i].text));
    assert(shows_part_of(answer, all, want.offset as int, want.limit as int));
}

/// What is not said is what it usually is: a truth value is its default, a limit is its
/// default and one at least, and lines are shown plain.
pub proof fn law_defaults_hold_where_nothing_is_said(
    flag: Option<bool>,
    usual: bool,
    limit: Option<usize>,
    usual_limit: usize,
    view: Option<ReadView>,
)
    ensures
        flag == Some(true) ==> flag_or(flag, usual),
        flag == Some(false) ==> !flag_or(flag, usual),
        flag is None ==> flag_or(flag, usual) == usual,
        limit is Some && limit->0 > 0 ==> limit_or(limit, usual_limit) == limit->0,
        limit is None && usual_limit > 0 ==> limit_or(limit, usual_limit) == usual_limit,
        limit == Some(0usize) || (limit is None && usual_limit == 0) ==> limit_or(
            limit,
            usual_limit,
        ) == 1,
        view is None ==> view_or_plain(view) == BufferView::Plain,
        view == Some(ReadView::Plain) ==> view_or_plain(view) == BufferView::Plain,
        view == Some(ReadView::Ansi) ==> view_or_plain(view) == BufferView::Ansi,
        view == Some(ReadView::Raw) ==> view_or_plain(view) == BufferView::Raw,
{
}

/// The first output of a session that is shown is its first lines, as many as are
/// asked for and in the form that is asked for, whatever they hold.
pub proof fn law_first_output_is_the_first_lines(
    t: Transcript,
    want: InitialOutput,
    page: BufferReadPage,
    s: PtyOutputSnapshot,
)
    requires
        is_page(t, first_page(want), page),
        shows_page(s, page),
    ensures
        ({
            let held = shown(t, want.view);
            &&& is_part_of(snapshot_lines(s.lines@), held, 0, want.limit as int)
            &&& s.offset == 0
            &&& s.returned == s.lines@.len()
            &&& s.has_more <==> want.limit < held.len()
            &&& s.total_lines == held.len()
        }),
{
    law_page_shows_what_is_asked(t, first_page(want), page);
    assert(snapshot_lines(s.lines@).len() == s.lines@.len());
    assert(page_lines(page.lines@).len() == page.lines@.len());
}

/// A session that runs over a connection is shown with that connection and its target,
/// and with its own account of everything else.
pub proof fn law_sessions_show_their_connection(
    s: SessionSummary,
    c: SshConnectionSummary,
    r: SessionSummary,
)
    requires
        enriched_by(s, c, r),
    ensures
        r.session_id@ == s.session_id@,
        r.status == s.status,
        r.pid == s.pid,
        r.transport == SessionTransport::Ssh,
        r.connection_id == Some(c.connection_id),
        r.target_summary == Some(c.target_summary),
        s.remote_command is Some ==> r.remote_command == s.remote_command,
        s.remote_command is None ==> r.remote_command is Some && r.remote_command->0@
            == "remote-session"@,
{
}

/// Each kind of entry is shown as what it is.
pub proof fn law_kinds_are_shown_as_they_are(t: SshDirectoryEntryType)
    ensures
        t == SshDirectoryEntryType::File <==> type_view(t) == SshDirectoryEntryTypeView::File,
        t == SshDirectoryEntryType::Directory <==> type_view(t)
            == SshDirectoryEntryTypeView::Directory,
        t == SshDirectoryEntryType::Symlink <==> type_view(t)
            == SshDirectoryEntryTypeView::Symlink,
        t == SshDirectoryEntryType::Other <==> type_view(t) == SshDirectoryEntryTypeView::Other,
{
}

} // verus!
