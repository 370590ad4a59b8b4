//! Sessions on this host.
use super::context::{brings_nothing_in, AppContext};
use super::ssh_connections::{only_links_changed, updated_links, SshService};
use super::support::{describe_in, described_in, Manner};
use super::types::SpawnSessionRequest;
use crate::error::Failure;
use crate::ordered::{map_texts, OrderedMap};
use crate::outside::is_new_id;
use crate::permission::guard::{checked_env_opt, spawn_refusal, CwdFacts, SpawnValidationInput};
use crate::pty::runtime::{PtySpawnRequest, DEFAULT_PTY_COLS, DEFAULT_PTY_ROWS};
use crate::session::model::{
    BufferStats, ExitInfo, SessionId, SessionStatus, SessionSummary, SessionTransport,
};
use crate::session::registry::{
    is_new_entry, not_found_text, SessionEntry, SessionKillResult, SessionWaitResult,
};
use crate::text::{cat2, clone_opt, clone_strings, decimal_text, opt_text};
use crate::timestamp::Timestamp;
use vstd::prelude::*;

verus! {

/// The part of the application that is about sessions on this host.
pub struct LocalSessionService;

/// What a request asks the guard.
pub open spec fn spawn_input(r: SpawnSessionRequest) -> SpawnValidationInput {
    SpawnValidationInput { command: r.command, args: r.args, cwd: r.cwd, env: r.env }
}

/// Whether a summary is that of a local session that is about to start.
pub open spec fn is_local_session(
    s: SessionSummary,
    request: SpawnSessionRequest,
    manner: Manner,
    cwd: Option<Seq<char>>,
) -> bool {
    &&& s.title == request.title
    &&& s.description@ == described_in(
        manner,
        opt_text(request.description),
        "PTY session: "@ + request.command@,
    )
    &&& s.command@ == request.command@
    &&& s.args@ == request.args@
    &&& opt_text(s.cwd) == cwd
    &&& s.transport == SessionTransport::Local
    &&& s.connection_id is None
    &&& s.target_summary is None
    &&& s.remote_cwd is None
    &&& s.remote_command is None
    &&& s.remote_env_preview@ == Map::<Seq<char>, String>::empty()
    &&& s.status == SessionStatus::Starting
    &&& s.pid is None
    &&& s.buffer_stats == (BufferStats { line_count: 0, byte_count: 0 })
    &&& s.exit_info is None
}

/// Says that there are too many sessions.
pub open spec fn full_text(limit: nat) -> Seq<char> {
    "session limit reached: session_limit="@ + decimal_text(limit)
}

/// Whether a new session has come in and nothing else has changed.
pub open spec fn session_came_in(before: AppContext, after: AppContext, id: Seq<char>) -> bool {
    &&& after == (AppContext { registry: after.registry, ..before })
    &&& after.registry.same_limits(&before.registry)
    &&& after.registry.sessions() == before.registry.sessions().insert(
        id,
        after.registry.sessions()[id],
    )
}

/// What beginning a local session does, in the manner in which it is asked for.
pub open spec fn spawn_begun(
    before: AppContext,
    request: SpawnSessionRequest,
    manner: Manner,
    facts: CwdFacts,
    r: Result<(SessionId, PtySpawnRequest), Failure>,
    after: AppContext,
) -> bool {
    let refusal = spawn_refusal(before.guard@, spawn_input(request), facts);
    let cwd = if request.cwd is Some {
        Some(facts.canonical->Ok_0@)
    } else {
        None
    };
    if refusal is Some {
        &&& r matches Err(e)
        &&& refusal == Some(e@)
        &&& after == before
    } else if before.registry.sessions().dom().len() >= before.registry.limit() {
        &&& r matches Err(e)
        &&& e@ == full_text(before.registry.limit())
        &&& after == before
    } else {
        &&& r matches Ok((id, pty))
        &&& session_came_in(before, after, id@)
        &&& is_new_entry(
            after.registry.sessions()[id@],
            after.registry.sessions()[id@].summary,
            before.registry.buffer_lines(),
        )
        &&& is_new_id("pty_"@, id@)
        &&& is_local_session(after.registry.sessions()[id@].summary, request, manner, cwd)
        &&& after.registry.sessions()[id@].summary.session_id@ == id@
        &&& pty.command@ == request.command@
        &&& pty.args@ == request.args@
        &&& opt_text(pty.cwd) == cwd
        &&& pty.wf()
        &&& checked_env_opt(before.guard@, request.env) == Ok::<
            Map<Seq<char>, Seq<char>>,
            Seq<char>,
        >(map_texts(pty.env@))
        &&& pty.rows == DEFAULT_PTY_ROWS
        &&& pty.cols == DEFAULT_PTY_COLS
    }
}

/// An entry whose program runs.
pub open spec fn running(e: SessionEntry, pid: Option<u32>) -> SessionEntry {
    SessionEntry {
        summary: SessionSummary { status: SessionStatus::Running, pid, ..e.summary },
        attached: true,
        ..e
    }
}

/// An entry whose program could not be started.
pub open spec fn not_started(e: SessionEntry) -> SessionEntry {
    SessionEntry {
        summary: SessionSummary {
            status: SessionStatus::FailedToSpawn,
            exit_info: Some(
                ExitInfo { exit_code: None, exit_signal: None, finished_at: None },
            ),
            ..e.summary
        },
        attached: false,
        ..e
    }
}

/// The sessions once a program was started, or could not be.
pub open spec fn sessions_after_start(
    sessions: Map<Seq<char>, SessionEntry>,
    id: Seq<char>,
    outcome: Result<Option<u32>, Failure>,
) -> Map<Seq<char>, SessionEntry> {
    if !sessions.contains_key(id) {
        sessions
    } else {
        match outcome {
            Ok(pid) => sessions.insert(id, running(sessions[id], pid)),
            Err(_) => sessions.insert(id, not_started(sessions[id])),
        }
    }
}

/// What is answered once a program was started, or could not be.
pub open spec fn start_answer(
    sessions: Map<Seq<char>, SessionEntry>,
    id: Seq<char>,
    outcome: Result<Option<u32>, Failure>,
    r: Result<SessionSummary, Failure>,
) -> bool {
    match outcome {
        Err(failure) => r == Err::<SessionSummary, Failure>(failure),
        Ok(pid) => if sessions.contains_key(id) {
            &&& r matches Ok(s)
            &&& running(sessions[id], pid).summary.same_as(s)
        } else {
            &&& r matches Err(e)
            &&& e@ == not_found_text(id)
        },
    }
}

/// Whether only the sessions have changed.
pub open spec fn only_sessions_changed(
    before: AppContext,
    after: AppContext,
    sessions: Map<Seq<char>, SessionEntry>,
) -> bool {
    &&& after == (AppContext { registry: after.registry, ..before })
    &&& after.registry.same_limits(&before.registry)
    &&& after.registry.sessions() == sessions
}

impl LocalSessionService {
    /// The summary of a session that starts at a moment, under an identifier.
    pub fn new_session(
        request: &SpawnSessionRequest,
        manner: Manner,
        cwd: Option<String>,
        session_id: SessionId,
        now: Timestamp,
    ) -> (r: SessionSummary)
        ensures
            r.session_id == session_id,
            r.started_at == now,
            is_local_session(r, *request, manner, opt_text(cwd)),
            r.wf(),
    {
        let usual = cat2("PTY session: ", request.command.as_str());
        SessionSummary {
            session_id,
            title: clone_opt(&request.title),
            description: describe_in(manner, &request.description, usual),
            command: request.command.clone(),
            args: clone_strings(&request.args),
            cwd,
            transport: SessionTransport::Local,
            connection_id: None,
            target_summary: None,
            remote_cwd: None,
            remote_command: None,
            remote_env_preview: OrderedMap::new(),
            status: SessionStatus::Starting,
            pid: None,
            started_at: now,
            buffer_stats: BufferStats::default(),
            exit_info: None,
        }
    }

    /// Begins a session: checks what is asked for, takes the session in, and gives
    /// the program that is to be started.
    pub fn spawn_session(
        context: &mut AppContext,
        request: SpawnSessionRequest,
        facts: &CwdFacts,
    ) -> (r: Result<(SessionId, PtySpawnRequest), Failure>)
        requires
            old(context).wf(),
        ensures
            final(context).wf(),
            spawn_begun(*old(context), request, Manner::Service, *facts, r, *final(context)),
    {
        LocalSessionService::spawn_session_in(context, request, Manner::Service, facts)
    }

    /// Begins a session in a manner.
    pub fn spawn_session_in(
        context: &mut AppContext,
        request: SpawnSessionRequest,
        manner: Manner,
        facts: &CwdFacts,
    ) -> (r: Result<(SessionId, PtySpawnRequest), Failure>)
        requires
            old(context).wf(),
        ensures
            final(context).wf(),
            spawn_begun(*old(context), request, manner, *facts, r, *final(context)),
    {
        let input = SpawnValidationInput {
            command: request.command,
            args: request.args,
            cwd: request.cwd,
            env: request.env,
        };
        let validated = match context.guard.validate_spawn(&input, facts) {
            Ok(v) => v,
            Err(e) => {
                return Err(e);
            },
        };
        let request = SpawnSessionRequest {
            command: input.command,
            args: input.args,
            cwd: input.cwd,
            env: input.env,
            title: request.title,
            description: request.description,
        };
        let session = LocalSessionService::new_session(
            &request,
            manner,
            clone_opt(&validated.cwd),
            SessionId::new(),
            Timestamp::now(),
        );
        let session_id = match context.registry.create_starting(session) {
            Ok(id) => id,
            Err(e) => {
                return Err(e);
            },
        };
        let mut pty = PtySpawnRequest::new(validated.command).args(validated.args);
        pty.cwd = validated.cwd;
        pty.env = validated.env;
        proof {
            assert(Seq::<String>::empty() + validated.args@ =~= validated.args@);
            assert(pty.args@ =~= request.args@);
        }
        Ok((session_id, pty))
    }

    /// Goes on once the program was started, or could not be.
    pub fn spawn_finished(
        context: &mut AppContext,
        session_id: &SessionId,
        outcome: Result<Option<u32>, Failure>,
    ) -> (r: Result<SessionSummary, Failure>)
        requires
            old(context).wf(),
        ensures
            final(context).wf(),
            brings_nothing_in(*old(context), *final(context)),
            only_sessions_changed(
                *old(context),
                *final(context),
                sessions_after_start(old(context).registry.sessions(), session_id@, outcome),
            ),
            start_answer(old(context).registry.sessions(), session_id@, outcome, r),
    {
        match outcome {
            Ok(pid) => {
                match context.registry.attach_runtime(session_id, pid) {
                    Ok(_) => {},
                    Err(e) => {
                        return Err(e);
                    },
                }
                match context.registry.get(session_id) {
                    Some(s) => Ok(s),
                    None => Err(Failure::new(cat2("session not found: session_id=", session_id.as_str()))),
                }
            },
            Err(failure) => {
                let _ = context.registry.mark_failed_to_spawn(session_id);
                Err(failure)
            },
        }
    }

    /// Brings the link of a session up to date once an end of it is done.
    pub fn kill_session(context: &mut AppContext, outcome: SessionKillResult) -> (r:
        SessionKillResult)
        requires
            old(context).wf(),
        ensures
            final(context).wf(),
            brings_nothing_in(*old(context), *final(context)),
            r == outcome,
            only_links_changed(
                *old(context),
                *final(context),
                updated_links(
                    old(context).ssh_registry.links(),
                    old(context).registry.sessions(),
                    set![outcome.session_id@],
                ),
            ),
    {
        SshService::refresh_session_tracking(context, &outcome.session_id);
        outcome
    }

    /// Brings the link of a session up to date once a wait for it is over.
    pub fn wait_session(
        context: &mut AppContext,
        session_id: &SessionId,
        outcome: SessionWaitResult,
    ) -> (r: SessionWaitResult)
        requires
            old(context).wf(),
        ensures
            final(context).wf(),
            brings_nothing_in(*old(context), *final(context)),
            r == outcome,
            only_links_changed(
                *old(context),
                *final(context),
                updated_links(
                    old(context).ssh_registry.links(),
                    old(context).registry.sessions(),
                    set![session_id@],
                ),
            ),
    {
        SshService::refresh_session_tracking(context, session_id);
        outcome
    }
}

/// A refused session is not taken in: the sessions are as they were.
pub proof fn law_refused_session_leaves_no_trace(
    before: AppContext,
    request: SpawnSessionRequest,
    manner: Manner,
    facts: CwdFacts,
    r: Result<(SessionId, PtySpawnRequest), Failure>,
    after: AppContext,
)
    requires
        spawn_begun(before, request, manner, facts, r, after),
        r is Err,
    ensures
        after == before,
{
}

/// A registry that begins sessions only where there is room never holds more than
/// its limit.
pub proof fn law_session_limit_holds(
    before: AppContext,
    request: SpawnSessionRequest,
    manner: Manner,
    facts: CwdFacts,
    r: Result<(SessionId, PtySpawnRequest), Failure>,
    after: AppContext,
)
    requires
        spawn_begun(before, request, manner, facts, r, after),
        before.registry.sessions().dom().finite(),
        before.registry.sessions().dom().len() <= before.registry.limit(),
    ensures
        after.registry.sessions().dom().len() <= after.registry.limit(),
{
    if r is Ok {
        let id = r->Ok_0.0@;
        assert(after.registry.sessions().dom() =~= before.registry.sessions().dom().insert(id));
    }
}

/// A session on this host is what is asked for: the program, its arguments and its
/// directory are those of the request and the guard has let all of them pass; the session
/// is known as one on this host that starts, with the title of the request.
pub proof fn law_session_runs_what_is_asked(
    before: AppContext,
    request: SpawnSessionRequest,
    manner: Manner,
    facts: CwdFacts,
    r: Result<(SessionId, PtySpawnRequest), Failure>,
    after: AppContext,
)
    requires
        spawn_begun(before, request, manner, facts, r, after),
    ensures
        ({
            let refusal = spawn_refusal(
                before.guard@,
                SpawnValidationInput {
                    command: request.command,
                    args: request.args,
                    cwd: request.cwd,
                    env: request.env,
                },
                facts,
            );
            &&& r is Ok <==> refusal is None && before.registry.sessions().dom().len()
                < before.registry.limit()
            &&& refusal is Some ==> refusal == Some(r->Err_0@)
            &&& r is Err ==> after == before
        }),
        r matches Ok((id, pty)) ==> {
            let e = after.registry.sessions()[id@];
            let s = e.summary;
            &&& pty.command@ == request.command@
            &&& pty.args@ == request.args@
            &&& request.cwd is None ==> pty.cwd is None && s.cwd is None
            &&& request.cwd is Some ==> facts.canonical is Ok ==> opt_text(pty.cwd) == Some(
                facts.canonical->Ok_0@,
            ) && opt_text(s.cwd) == Some(facts.canonical->Ok_0@)
            &&& pty.rows == 24
            &&& pty.cols == 80
            &&& after.registry.sessions().contains_key(id@)
            &&& forall|k: Seq<char>|
                k != id@ && #[trigger] before.registry.sessions().contains_key(k)
                    ==> after.registry.sessions().contains_key(k)
                    && after.registry.sessions()[k] == before.registry.sessions()[k]
            &&& is_new_id("pty_"@, id@)
            &&& s.connection_id is None
            &&& s.target_summary is None
            &&& s.remote_cwd is None
            &&& s.remote_command is None
            &&& s.remote_env_preview@.dom() == Set::<Seq<char>>::empty()
            &&& s.session_id@ == id@
            &&& s.command@ == request.command@
            &&& s.args@ == request.args@
            &&& s.title == request.title
            &&& s.transport == SessionTransport::Local
            &&& s.connection_id is None
            &&& s.status == SessionStatus::Starting
            &&& s.pid is None
            &&& s.exit_info is None
        },
{
}

/// A session whose program was started runs, with its process; one whose program could
/// not be started has failed; all others stay as they are.
pub proof fn law_started_sessions_run(
    sessions: Map<Seq<char>, SessionEntry>,
    id: Seq<char>,
    outcome: Result<Option<u32>, Failure>,
    k: Seq<char>,
    r: Result<SessionSummary, Failure>,
)
    requires
        start_answer(sessions, id, outcome, r),
    ensures
        ({
            let after = sessions_after_start(sessions, id, outcome);
            &&& after.contains_key(k) <==> sessions.contains_key(k)
            &&& k != id && sessions.contains_key(k) ==> after[k] == sessions[k]
            &&& sessions.contains_key(id) && outcome is Ok ==> {
                &&& after[id].summary.status == SessionStatus::Running
                &&& after[id].summary.pid == outcome->Ok_0
                &&& after[id].attached
                &&& after[id].buffer == sessions[id].buffer
                &&& after[id].summary.exit_info == sessions[id].summary.exit_info
                &&& after[id].summary.command == sessions[id].summary.command
            }
            &&& sessions.contains_key(id) && outcome is Err ==> {
                &&& after[id].summary.status == SessionStatus::FailedToSpawn
                &&& after[id].summary.pid == sessions[id].summary.pid
                &&& !after[id].attached
                &&& after[id].summary.exit_info is Some
                &&& after[id].summary.exit_info->0.exit_code is None
                &&& after[id].summary.exit_info->0.exit_signal is None
            }
        }),
        r is Ok <==> outcome is Ok && sessions.contains_key(id),
        r matches Ok(s) ==> s.status == SessionStatus::Running && s.pid == outcome->Ok_0,
        outcome is Err ==> r->Err_0 == outcome->Err_0,
{
}

/// What begins or goes on with a session leaves alone all else: the other sessions, the
/// configuration and what is known of connections, mounts and tunnels.
pub proof fn law_other_sessions_are_left_alone(
    before: AppContext,
    after: AppContext,
    id: Seq<char>,
    outcome: Result<Option<u32>, Failure>,
    k: Seq<char>,
)
    requires
        session_came_in(before, after, id) || only_sessions_changed(
            before,
            after,
            sessions_after_start(before.registry.sessions(), id, outcome),
        ),
        k != id,
    ensures
        after.config == before.config,
        after.ssh_registry == before.ssh_registry,
        after.connection_contexts == before.connection_contexts,
        after.mount_contexts == before.mount_contexts,
        after.registry.sessions().contains_key(k) <==> before.registry.sessions().contains_key(k),
        before.registry.sessions().contains_key(k) ==> after.registry.sessions()[k]
            == before.registry.sessions()[k],
{
}

} // verus!
