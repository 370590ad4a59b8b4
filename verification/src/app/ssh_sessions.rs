//! Sessions and commands on remote hosts.
use super::context::{
    brings_nothing_in, connection_context, is_used_as_made, law_connection_is_used_as_it_was_made,
    ssh_path, AppContext, SshConnectionRuntimeContext,
};
use super::local_sessions::{full_text, session_came_in, sessions_after_start, start_answer};
use super::ssh_connections::{
    lemma_links_of_one_session, lemma_nothing_relinked, only_use_changed, readiness_refusal,
    relinked, SshService,
};
use super::support::{
    describe_in, described_in, good_remote_cwd, is_valid_remote_cwd, normalize_remote_env_preview,
    remote_env_opt, Manner,
};
use super::types::{SshExecRequest, SshRunRequest, SshRunResult, SshSessionSpawnRequest};
use crate::config::{is_known_file, HostFiles};
use crate::error::Failure;
use crate::json::JsonValue;
use crate::ordered::{map_texts, OrderedMap};
use crate::outside::{decode_lossy, is_new_id, utf8_lossy};
use crate::pty::runtime::{PtySpawnRequest, DEFAULT_PTY_COLS, DEFAULT_PTY_ROWS};
use crate::session::model::{
    BufferStats, SessionId, SessionStatus, SessionSummary, SessionTransport,
};
use crate::session::registry::is_new_entry;
use crate::ssh::model::{
    debug_opt, debug_option, SshAuthKind, SshConnectionId, SshConnectionStatus,
    SshConnectionSummary,
};
use crate::ssh::runtime::{
    binary_refusal, capture_ms, exports, given, given_str, is_command,
    law_missing_programs_are_refused, law_script_runs_as_asked, law_session_goes_where_it_is_asked_to,
    law_session_runs_as_asked, lemma_env_pairs, redacted, remote_command_text, remote_exec_text,
    remote_side_runs, session_args, session_is_asked_for, sorted_pairs, CommandOutput, CommandPlan,
    SshExecPlanRequest, SshSessionSpawnPlanRequest,
};
use crate::ssh::shell::shell_quoted;
use crate::text::{
    cat2, clone_opt, is_blank, joined, lemma_trimmed_twice, opt_text, signed_decimal, signed_text,
    texts, trim, trimmed,
};
use crate::timestamp::Timestamp;
use vstd::prelude::*;

verus! {

/// What a remote execution needs to be known.
#[derive(Debug, PartialEq, Eq)]
pub struct PreparedRemoteExecution {
    pub connection: SshConnectionSummary,
    pub runtime_context: SshConnectionRuntimeContext,
    pub ssh_bin: String,
    pub remote_cwd: Option<String>,
    pub remote_env: OrderedMap<String>,
}

/// A remote session that is to be started.
pub struct RemoteSessionSpawnInput {
    pub connection: SshConnectionSummary,
    pub manner: Manner,
    pub title: Option<String>,
    pub description: Option<String>,
    pub remote_cwd: Option<String>,
    pub remote_env_preview: OrderedMap<String>,
    pub remote_command: Option<String>,
    pub command: String,
    pub args: Vec<String>,
    pub public_args: Vec<String>,
}

/// Says that a remote directory is none that can be gone to.
pub open spec fn bad_cwd_text(manner: Manner, cwd: Option<Seq<char>>) -> Seq<char> {
    (match manner {
        Manner::Service => "remote cwd must be an absolute path, ~, or ~/...: cwd="@,
        Manner::Direct => "remote cwd must be an absolute path or home-relative path: cwd="@,
    }) + debug_opt(cwd)
}

/// Why a remote execution is refused, if it is: the connection is judged first,
/// then whether there is an `ssh`, then the environment, then the directory.
pub open spec fn execution_refusal(
    context: AppContext,
    host: HostFiles,
    manner: Manner,
    id: Seq<char>,
    action: Seq<char>,
    cwd: Option<Seq<char>>,
    env: Option<Vec<(String, JsonValue)>>,
) -> Option<Seq<char>> {
    let ready = readiness_refusal(context.ssh_registry.connections(), id, action);
    if ready is Some {
        ready
    } else if ssh_path(context, host) is None {
        Some("ssh binary path could not be resolved"@)
    } else if remote_env_opt(env) is Err {
        Some(remote_env_opt(env)->Err_0)
    } else if given(cwd) is Some && !good_remote_cwd(given(cwd)->0) {
        Some(bad_cwd_text(manner, given(cwd)))
    } else {
        None
    }
}

/// The variables of a remote execution, in the order of their names.
pub open spec fn remote_pairs(env: Option<Vec<(String, JsonValue)>>) -> Seq<
    (Seq<char>, Seq<char>),
> {
    sorted_pairs(remote_env_opt(env)->Ok_0)
}

/// Whether `ssh` is a file.
pub open spec fn ssh_is_file(context: AppContext, host: HostFiles) -> bool {
    is_known_file(host, ssh_path(context, host)->0)
}

/// Why a remote session is refused, if it is.
pub open spec fn remote_spawn_refusal(
    context: AppContext,
    host: HostFiles,
    manner: Manner,
    r: SshSessionSpawnRequest,
) -> Option<Seq<char>> {
    let prepared = execution_refusal(
        context,
        host,
        manner,
        r.connection_id@,
        "remote session spawning"@,
        opt_text(r.cwd),
        r.env,
    );
    if prepared is Some {
        prepared
    } else if binary_refusal("ssh"@, ssh_path(context, host), ssh_is_file(context, host)) is Some {
        binary_refusal("ssh"@, ssh_path(context, host), ssh_is_file(context, host))
    } else {
        match spawn_command(r) {
            Err(why) => Some(why),
            Ok(_) => None,
        }
    }
}

/// What a remote session runs.
pub open spec fn spawn_command(r: SshSessionSpawnRequest) -> Result<Option<Seq<char>>, Seq<char>> {
    remote_command_text(
        opt_text(r.command),
        texts(r.args@),
        given(opt_text(r.cwd)),
        remote_pairs(r.env),
        opt_text(r.shell),
        r.login,
    )
}

/// What runs the script of a request.
pub open spec fn script_command(
    script: Seq<char>,
    cwd: Option<Seq<char>>,
    env: Option<Vec<(String, JsonValue)>>,
    shell: Option<Seq<char>>,
    login: bool,
) -> Result<Seq<char>, Seq<char>> {
    remote_exec_text(trimmed(script), given(cwd), remote_pairs(env), shell, login)
}

/// Why running a script is refused, if it is.
pub open spec fn script_refusal(
    context: AppContext,
    host: HostFiles,
    manner: Manner,
    id: Seq<char>,
    action: Seq<char>,
    script: Seq<char>,
    cwd: Option<Seq<char>>,
    env: Option<Vec<(String, JsonValue)>>,
    shell: Option<Seq<char>>,
    login: bool,
) -> Option<Seq<char>> {
    let prepared = execution_refusal(context, host, manner, id, action, cwd, env);
    if prepared is Some {
        prepared
    } else if is_blank(script) {
        Some("remote script cannot be empty"@)
    } else if binary_refusal("ssh"@, ssh_path(context, host), ssh_is_file(context, host)) is Some {
        binary_refusal("ssh"@, ssh_path(context, host), ssh_is_file(context, host))
    } else {
        match script_command(script, cwd, env, shell, login) {
            Err(why) => Some(why),
            Ok(_) => None,
        }
    }
}

/// Whether a summary is that of a remote session that is about to start.
pub open spec fn is_remote_session(
    s: SessionSummary,
    c: SshConnectionSummary,
    manner: Manner,
    title: Option<String>,
    description: Option<Seq<char>>,
    public_args: Seq<Seq<char>>,
    remote_cwd: Option<Seq<char>>,
    remote_command: Option<Seq<char>>,
    env: Map<Seq<char>, Seq<char>>,
) -> bool {
    &&& s.title == title
    &&& s.description@ == described_in(
        manner,
        description,
        "SSH session: "@ + match remote_command {
            Some(r) => r,
            None => c.target_summary@,
        },
    )
    &&& s.command@ == "ssh"@
    &&& texts(s.args@) == public_args
    &&& s.cwd is None
    &&& s.transport == SessionTransport::Ssh
    &&& s.connection_id == Some(c.connection_id)
    &&& s.target_summary == Some(c.target_summary)
    &&& opt_text(s.remote_cwd) == remote_cwd
    &&& opt_text(s.remote_command) == remote_command
    &&& map_texts(s.remote_env_preview@) == env
    &&& s.status == SessionStatus::Starting
    &&& s.pid is None
    &&& s.buffer_stats == (BufferStats { line_count: 0, byte_count: 0 })
    &&& s.exit_info is None
}

/// Whether a program is `ssh` with the given arguments on a usual terminal.
pub open spec fn is_ssh_program(p: PtySpawnRequest, ssh: Seq<char>, args: Seq<Seq<char>>) -> bool {
    &&& p.command@ == ssh
    &&& texts(p.args@) == args
    &&& p.cwd is None
    &&& p.env@ == Map::<Seq<char>, String>::empty()
    &&& p.rows == DEFAULT_PTY_ROWS
    &&& p.cols == DEFAULT_PTY_COLS
}

/// What beginning a remote session does, given how `ssh` is called and what the
/// session is said to run.
pub open spec fn remote_session_begun(
    before: AppContext,
    host: HostFiles,
    manner: Manner,
    refusal: Option<Seq<char>>,
    id: Seq<char>,
    interactive: bool,
    remote_argument: Option<Seq<char>>,
    title: Option<String>,
    description: Option<Seq<char>>,
    cwd: Option<Seq<char>>,
    said_command: Option<Seq<char>>,
    env: Map<Seq<char>, Seq<char>>,
    r: Result<(SessionId, PtySpawnRequest), Failure>,
    after: AppContext,
) -> bool {
    let c = before.ssh_registry.connections()[id];
    let made = connection_context(before.connection_contexts@, c);
    if refusal is Some {
        &&& r matches Err(e)
        &&& refusal == Some(e@)
        &&& after == before
    } else if before.registry.sessions().dom().len() >= before.registry.limit() {
        &&& r matches Err(e)
        &&& e@ == full_text(before.registry.limit())
        &&& after == before
    } else {
        &&& r matches Ok((session, pty))
        &&& session_came_in(before, after, session@)
        &&& is_new_entry(
            after.registry.sessions()[session@],
            after.registry.sessions()[session@].summary,
            before.registry.buffer_lines(),
        )
        &&& after.registry.sessions()[session@].summary.session_id@ == session@
        &&& is_new_id("pty_"@, session@)
        &&& is_remote_session(
            after.registry.sessions()[session@].summary,
            c,
            manner,
            title,
            description,
            session_args(
                c.target@,
                made.auth_kind,
                redacted(opt_text(made.identity_path)),
                made.verify_host_key,
                interactive,
                remote_argument,
            ),
            cwd,
            said_command,
            env,
        )
        &&& is_ssh_program(
            pty,
            ssh_path(before, host)->0,
            session_args(
                c.target@,
                made.auth_kind,
                opt_text(made.identity_path),
                made.verify_host_key,
                interactive,
                remote_argument,
            ),
        )
    }
}

/// What beginning a remote session with a command or a shell does.
pub open spec fn session_spawn_begun(
    before: AppContext,
    request: SshSessionSpawnRequest,
    manner: Manner,
    host: HostFiles,
    r: Result<(SessionId, PtySpawnRequest), Failure>,
    after: AppContext,
) -> bool {
    remote_session_begun(
        before,
        host,
        manner,
        remote_spawn_refusal(before, host, manner, request),
        request.connection_id@,
        request.interactive,
        spawn_command(request)->Ok_0,
        request.title,
        opt_text(request.description),
        given(opt_text(request.cwd)),
        spawn_command(request)->Ok_0,
        remote_env_opt(request.env)->Ok_0,
        r,
        after,
    )
}

/// What beginning a remote session with a script does.
pub open spec fn exec_begun(
    before: AppContext,
    request: SshExecRequest,
    manner: Manner,
    host: HostFiles,
    r: Result<(SessionId, PtySpawnRequest), Failure>,
    after: AppContext,
) -> bool {
    let cwd = opt_text(request.cwd);
    let shell = opt_text(request.shell);
    remote_session_begun(
        before,
        host,
        manner,
        script_refusal(
            before,
            host,
            manner,
            request.connection_id@,
            "remote script execution"@,
            request.script@,
            cwd,
            request.env,
            shell,
            request.login,
        ),
        request.connection_id@,
        true,
        Some(script_command(request.script@, cwd, request.env, shell, request.login)->Ok_0),
        request.title,
        opt_text(request.description),
        given(cwd),
        Some(trimmed(request.script@)),
        remote_env_opt(request.env)->Ok_0,
        r,
        after,
    )
}

/// Whether a plan runs the script of a request to its end, or else says why not.
pub open spec fn run_planned(
    context: AppContext,
    request: SshRunRequest,
    manner: Manner,
    host: HostFiles,
    r: Result<CommandPlan, Failure>,
) -> bool {
    let cwd = opt_text(request.cwd);
    let shell = opt_text(request.shell);
    let refusal = script_refusal(
        context,
        host,
        manner,
        request.connection_id@,
        "remote command execution"@,
        request.script@,
        cwd,
        request.env,
        shell,
        request.login,
    );
    let c = context.ssh_registry.connections()[request.connection_id@];
    let made = connection_context(context.connection_contexts@, c);
    match r {
        Err(e) => refusal == Some(e@),
        Ok(plan) => {
            &&& refusal is None
            &&& is_command(
                plan,
                ssh_path(context, host)->0,
                session_args(
                    c.target@,
                    made.auth_kind,
                    opt_text(made.identity_path),
                    made.verify_host_key,
                    false,
                    Some(
                        script_command(
                            request.script@,
                            cwd,
                            request.env,
                            shell,
                            request.login,
                        )->Ok_0,
                    ),
                ),
                capture_ms(request.timeout_ms),
                "ssh command timed out"@,
                "ssh command task failed"@,
                "failed to execute ssh command"@,
                request.max_output_bytes,
            )
        },
    }
}

impl SshService {
    /// Checks a remote execution and gathers what it needs.
    pub fn prepare_remote_execution(
        context: &AppContext,
        host: &HostFiles,
        manner: Manner,
        connection_id: &SshConnectionId,
        action: &str,
        cwd: &Option<String>,
        env: &Option<Vec<(String, JsonValue)>>,
    ) -> (r: Result<PreparedRemoteExecution, Failure>)
        requires
            context.wf(),
        ensures
            ({
                let refusal = execution_refusal(
                    *context,
                    *host,
                    manner,
                    connection_id@,
                    action@,
                    opt_text(*cwd),
                    *env,
                );
                match r {
                    Err(e) => refusal == Some(e@),
                    Ok(p) => {
                        &&& refusal is None
                        &&& p.connection == context.ssh_registry.connections()[connection_id@]
                        &&& p.runtime_context == connection_context(
                            context.connection_contexts@,
                            p.connection,
                        )
                        &&& ssh_path(*context, *host) == Some(p.ssh_bin@)
                        &&& opt_text(p.remote_cwd) == given(opt_text(*cwd))
                        &&& p.remote_env.wf()
                        &&& remote_env_opt(*env) == Ok::<Map<Seq<char>, Seq<char>>, Seq<char>>(
                            map_texts(p.remote_env@),
                        )
                    },
                }
            }),
    {
        let connection = match SshService::require_ready_connection(
            context,
            connection_id,
            action,
        ) {
            Ok(c) => c,
            Err(e) => {
                return Err(e);
            },
        };
        let runtime_context = context.runtime_context_for_connection(&connection);
        let ssh_bin = match context.resolve_ssh_bin_path(host) {
            Ok(p) => p,
            Err(e) => {
                return Err(e);
            },
        };
        let remote_env = match normalize_remote_env_preview(env) {
            Ok(m) => m,
            Err(e) => {
                return Err(e);
            },
        };
        let remote_cwd = match given_str(cwd) {
            Some(c) => {
                if !is_valid_remote_cwd(c) {
                    let shown = debug_option(Some(c));
                    return Err(
                        Failure::new(
                            cat2(
                                match manner {
                                    Manner::Service => "remote cwd must be an absolute path, ~, or ~/...: cwd=",
                                    Manner::Direct => "remote cwd must be an absolute path or home-relative path: cwd=",
                                },
                                shown.as_str(),
                            ),
                        ),
                    );
                }
                Some(c.to_owned())
            },
            None => None,
        };
        Ok(
            PreparedRemoteExecution { connection, runtime_context, ssh_bin, remote_cwd, remote_env },
        )
    }

    /// Begins a remote session with a command or a shell: checks what is asked for,
    /// takes the session in, and gives the program that is to be started.
    pub fn session_spawn(
        context: &mut AppContext,
        request: SshSessionSpawnRequest,
        host: &HostFiles,
    ) -> (r: Result<(SessionId, PtySpawnRequest), Failure>)
        requires
            old(context).wf(),
        ensures
            final(context).wf(),
            session_spawn_begun(
                *old(context),
                request,
                Manner::Service,
                *host,
                r,
                *final(context),
            ),
            r matches Ok((session, pty)) ==> spawns_as_asked(
                *old(context),
                request,
                session@,
                pty,
                *final(context),
            ),
    {
        let r = SshService::session_spawn_in(context, request, Manner::Service, host);
        proof {
            if r is Ok {
                law_remote_session_is_what_is_asked(
                    *old(context),
                    request,
                    Manner::Service,
                    *host,
                    r->Ok_0.0,
                    r->Ok_0.1,
                    *context,
                );
            }
        }
        r
    }

    /// Begins a remote session with a command or a shell, in a manner.
    pub fn session_spawn_in(
        context: &mut AppContext,
        request: SshSessionSpawnRequest,
        manner: Manner,
        host: &HostFiles,
    ) -> (r: Result<(SessionId, PtySpawnRequest), Failure>)
        requires
            old(context).wf(),
        ensures
            final(context).wf(),
            session_spawn_begun(*old(context), request, manner, *host, r, *final(context)),
    {
        let prepared = match SshService::prepare_remote_execution(
            context,
            host,
            manner,
            &request.connection_id,
            "remote session spawning",
            &request.cwd,
            &request.env,
        ) {
            Ok(p) => p,
            Err(e) => {
                return Err(e);
            },
        };
        let is_file = host.is_file(prepared.ssh_bin.as_str());
        proof {
            lemma_env_pairs(prepared.remote_env);
            lemma_given_twice(opt_text(request.cwd));
        }
        let plan_request = SshSessionSpawnPlanRequest {
            ssh_bin_path: Some(prepared.ssh_bin),
            target: prepared.connection.target.clone(),
            auth_kind: prepared.runtime_context.auth_kind,
            identity_path: prepared.runtime_context.identity_path,
            verify_host_key: prepared.runtime_context.verify_host_key,
            command: request.command,
            args: request.args,
            cwd: clone_opt(&prepared.remote_cwd),
            env: prepared.remote_env,
            shell: request.shell,
            interactive: request.interactive,
            login: request.login,
        };
        let plan = match context.ssh_runtime.build_session_spawn_plan(&plan_request, is_file) {
            Ok(p) => p,
            Err(e) => {
                return Err(e);
            },
        };
        let remote_command = clone_opt(&plan.remote_command);
        SshService::spawn_remote_session(
            context,
            RemoteSessionSpawnInput {
                connection: prepared.connection,
                manner,
                title: request.title,
                description: request.description,
                remote_cwd: prepared.remote_cwd,
                remote_env_preview: plan_request.env,
                remote_command,
                command: plan.command,
                args: plan.args,
                public_args: plan.public_args,
            },
        )
    }

    /// Begins a remote session with a script: checks what is asked for, takes the
    /// session in, and gives the program that is to be started.
    pub fn exec(context: &mut AppContext, request: SshExecRequest, host: &HostFiles) -> (r: Result<
        (SessionId, PtySpawnRequest),
        Failure,
    >)
        requires
            old(context).wf(),
        ensures
            final(context).wf(),
            exec_begun(*old(context), request, Manner::Service, *host, r, *final(context)),
            r matches Ok((session, pty)) ==> executes_as_asked(
                *old(context),
                request,
                session@,
                pty,
                *final(context),
            ),
    {
        let r = SshService::exec_in(context, request, Manner::Service, host);
        proof {
            if r is Ok {
                law_remote_script_is_what_is_asked(
                    *old(context),
                    request,
                    Manner::Service,
                    *host,
                    r->Ok_0.0,
                    r->Ok_0.1,
                    *context,
                );
            }
        }
        r
    }

    /// Begins a remote session with a script, in a manner.
    pub fn exec_in(
        context: &mut AppContext,
        request: SshExecRequest,
        manner: Manner,
        host: &HostFiles,
    ) -> (r: Result<(SessionId, PtySpawnRequest), Failure>)
        requires
            old(context).wf(),
        ensures
            final(context).wf(),
            exec_begun(*old(context), request, manner, *host, r, *final(context)),
    {
        let prepared = match SshService::prepare_remote_execution(
            context,
            host,
            manner,
            &request.connection_id,
            "remote script execution",
            &request.cwd,
            &request.env,
        ) {
            Ok(p) => p,
            Err(e) => {
                return Err(e);
            },
        };
        let script = trim(request.script.as_str()).to_owned();
        if script.as_str().is_empty() {
            return Err(Failure::new("remote script cannot be empty".to_owned()));
        }
        let is_file = host.is_file(prepared.ssh_bin.as_str());
        proof {
            lemma_env_pairs(prepared.remote_env);
            lemma_given_twice(opt_text(request.cwd));
        }
        let plan_request = SshExecPlanRequest {
            ssh_bin_path: Some(prepared.ssh_bin),
            target: prepared.connection.target.clone(),
            auth_kind: prepared.runtime_context.auth_kind,
            identity_path: prepared.runtime_context.identity_path,
            verify_host_key: prepared.runtime_context.verify_host_key,
            script: script.clone(),
            cwd: clone_opt(&prepared.remote_cwd),
            env: prepared.remote_env,
            shell: request.shell,
            login: request.login,
        };
        let plan = match context.ssh_runtime.build_exec_plan(&plan_request, is_file) {
            Ok(p) => p,
            Err(e) => {
                return Err(e);
            },
        };
        SshService::spawn_remote_session(
            context,
            RemoteSessionSpawnInput {
                connection: prepared.connection,
                manner,
                title: request.title,
                description: request.description,
                remote_cwd: prepared.remote_cwd,
                remote_env_preview: plan_request.env,
                remote_command: Some(script),
                command: plan.command,
                args: plan.args,
                public_args: plan.public_args,
            },
        )
    }

    /// How the script of a request is run to its end.
    pub fn run(context: &AppContext, request: &SshRunRequest, host: &HostFiles) -> (r: Result<
        CommandPlan,
        Failure,
    >)
        requires
            context.wf(),
        ensures
            run_planned(*context, *request, Manner::Service, *host, r),
            r matches Ok(plan) ==> runs_as_asked(*context, *request, plan),
    {
        let r = SshService::run_in(context, request, Manner::Service, host);
        proof {
            if r is Ok {
                law_remote_run_is_what_is_asked(
                    *context,
                    *request,
                    Manner::Service,
                    *host,
                    r->Ok_0,
                );
            }
        }
        r
    }

    /// How the script of a request is run to its end, in a manner.
    pub fn run_in(
        context: &AppContext,
        request: &SshRunRequest,
        manner: Manner,
        host: &HostFiles,
    ) -> (r: Result<CommandPlan, Failure>)
        requires
            context.wf(),
        ensures
            run_planned(*context, *request, manner, *host, r),
    {
        let prepared = match SshService::prepare_remote_execution(
            context,
            host,
            manner,
            &request.connection_id,
            "remote command execution",
            &request.cwd,
            &request.env,
        ) {
            Ok(p) => p,
            Err(e) => {
                return Err(e);
            },
        };
        let script = trim(request.script.as_str()).to_owned();
        if script.as_str().is_empty() {
            return Err(Failure::new("remote script cannot be empty".to_owned()));
        }
        let is_file = host.is_file(prepared.ssh_bin.as_str());
        proof {
            lemma_env_pairs(prepared.remote_env);
            lemma_given_twice(opt_text(request.cwd));
        }
        let plan_request = SshExecPlanRequest {
            ssh_bin_path: Some(prepared.ssh_bin),
            target: prepared.connection.target,
            auth_kind: prepared.runtime_context.auth_kind,
            identity_path: prepared.runtime_context.identity_path,
            verify_host_key: prepared.runtime_context.verify_host_key,
            script,
            cwd: prepared.remote_cwd,
            env: prepared.remote_env,
            shell: clone_opt(&request.shell),
            login: request.login,
        };
        context.ssh_runtime.capture_plan(
            &plan_request,
            is_file,
            request.timeout_ms,
            request.max_output_bytes,
        )
    }

    /// What a script that was run to its end has given.
    pub fn run_result(connection_id: SshConnectionId, output: &CommandOutput) -> (r: SshRunResult)
        ensures
            r.connection_id == connection_id,
            r.success == output.success,
            r.exit_code == output.exit_code,
            opt_text(r.exit_signal) == match output.signal {
                Some(n) => Some(signed_text(n as int)),
                None => None,
            },
            r.stdout@ == utf8_lossy(output.stdout@),
            r.stderr@ == utf8_lossy(output.stderr@),
    {
        SshRunResult {
            connection_id,
            success: output.success,
            exit_code: output.exit_code,
            exit_signal: match output.signal {
                Some(n) => Some(signed_decimal(n)),
                None => None,
            },
            stdout: decode_lossy(output.stdout.as_slice()),
            stderr: decode_lossy(output.stderr.as_slice()),
        }
    }

    /// The summary of a remote session that starts at a moment, under an identifier.
    pub fn new_remote_session(
        connection: &SshConnectionSummary,
        manner: Manner,
        title: Option<String>,
        description: &Option<String>,
        public_args: Vec<String>,
        remote_cwd: Option<String>,
        remote_command: Option<String>,
        remote_env_preview: OrderedMap<String>,
        session_id: SessionId,
        now: Timestamp,
    ) -> (r: SessionSummary)
        requires
            remote_env_preview.wf(),
        ensures
            r.session_id == session_id,
            r.started_at == now,
            r.wf(),
            is_remote_session(
                r,
                *connection,
                manner,
                title,
                opt_text(*description),
                texts(public_args@),
                opt_text(remote_cwd),
                opt_text(remote_command),
                map_texts(remote_env_preview@),
            ),
    {
        let usual = match &remote_command {
            Some(c) => cat2("SSH session: ", c.as_str()),
            None => cat2("SSH session: ", connection.target_summary.as_str()),
        };
        SessionSummary {
            session_id,
            title,
            description: describe_in(manner, description, usual),
            command: "ssh".to_owned(),
            args: public_args,
            cwd: None,
            transport: SessionTransport::Ssh,
            connection_id: Some(connection.connection_id.clone()),
            target_summary: Some(connection.target_summary.clone()),
            remote_cwd,
            remote_command,
            remote_env_preview,
            status: SessionStatus::Starting,
            pid: None,
            started_at: now,
            buffer_stats: BufferStats::default(),
            exit_info: None,
        }
    }

    /// Takes a remote session in and gives the program that is to be started.
    fn spawn_remote_session(context: &mut AppContext, input: RemoteSessionSpawnInput) -> (r: Result<
        (SessionId, PtySpawnRequest),
        Failure,
    >)
        requires
            old(context).wf(),
            input.remote_env_preview.wf(),
        ensures
            final(context).wf(),
            match r {
                Err(e) => {
                    &&& old(context).registry.sessions().dom().len() >= old(context).registry.limit()
                    &&& e@ == full_text(old(context).registry.limit())
                    &&& *final(context) == *old(context)
                },
                Ok((session, pty)) => {
                    &&& old(context).registry.sessions().dom().len() < old(context).registry.limit()
                    &&& session_came_in(*old(context), *final(context), session@)
                    &&& is_new_entry(
                        final(context).registry.sessions()[session@],
                        final(context).registry.sessions()[session@].summary,
                        old(context).registry.buffer_lines(),
                    )
                    &&& final(context).registry.sessions()[session@].summary.session_id@
                        == session@
                    &&& is_new_id("pty_"@, session@)
                    &&& is_remote_session(
                        final(context).registry.sessions()[session@].summary,
                        input.connection,
                        input.manner,
                        input.title,
                        opt_text(input.description),
                        texts(input.public_args@),
                        opt_text(input.remote_cwd),
                        opt_text(input.remote_command),
                        map_texts(input.remote_env_preview@),
                    )
                    &&& is_ssh_program(pty, input.command@, texts(input.args@))
                },
            },
    {
        let summary = SshService::new_remote_session(
            &input.connection,
            input.manner,
            input.title,
            &input.description,
            input.public_args,
            input.remote_cwd,
            input.remote_command,
            input.remote_env_preview,
            SessionId::new(),
            Timestamp::now(),
        );
        let session_id = match context.registry.create_starting(summary) {
            Ok(id) => id,
            Err(e) => {
                return Err(e);
            },
        };
        let pty = PtySpawnRequest::new(input.command).args(input.args);
        proof {
            assert(Seq::<String>::empty() + input.args@ =~= input.args@);
            assert(pty.args@ =~= input.args@);
        }
        Ok((session_id, pty))
    }

    /// Goes on once the program of a remote session was started, or could not be. A
    /// session that runs is linked to its connection.
    pub fn remote_spawn_finished(
        context: &mut AppContext,
        connection_id: &SshConnectionId,
        session_id: &SessionId,
        outcome: Result<Option<u32>, Failure>,
    ) -> (r: Result<SessionSummary, Failure>)
        requires
            old(context).wf(),
        ensures
            final(context).wf(),
            brings_nothing_in(*old(context), *final(context)),
            *final(context) == (AppContext {
                registry: final(context).registry,
                ssh_registry: final(context).ssh_registry,
                ..*old(context)
            }),
            final(context).registry.same_limits(&old(context).registry),
            final(context).registry.sessions() == sessions_after_start(
                old(context).registry.sessions(),
                session_id@,
                outcome,
            ),
            start_answer(old(context).registry.sessions(), session_id@, outcome, r),
            final(context).ssh_registry.mounts() == old(context).ssh_registry.mounts(),
            final(context).ssh_registry.tunnels() == old(context).ssh_registry.tunnels(),
            final(context).ssh_registry.links() == if outcome is Ok
                && old(context).registry.sessions().contains_key(session_id@) {
                old(context).ssh_registry.links().insert(session_id@, connection_id@)
            } else {
                old(context).ssh_registry.links()
            },
            only_use_changed(
                old(context).ssh_registry.connections(),
                relinked(old(context).ssh_registry.links(), final(context).ssh_registry.links()),
                final(context).ssh_registry.connections(),
            ),
    {
        let ghost before = *context;
        proof {
            lemma_nothing_relinked(before.ssh_registry.links());
        }
        match outcome {
            Ok(pid) => {
                match context.registry.attach_runtime(session_id, pid) {
                    Ok(_) => {},
                    Err(e) => {
                        return Err(e);
                    },
                }
                let _ = context.ssh_registry.track_session(connection_id, session_id.clone());
                proof {
                    lemma_links_of_one_session(before, *context, session_id@);
                }
                match context.registry.get(session_id) {
                    Some(s) => Ok(s),
                    None => Err(
                        Failure::new(cat2("session not found: session_id=", session_id.as_str())),
                    ),
                }
            },
            Err(failure) => {
                let _ = context.registry.mark_failed_to_spawn(session_id);
                Err(failure)
            },
        }
    }
}

/// Trimming twice is trimming once.
proof fn lemma_given_twice(o: Option<Seq<char>>)
    ensures
        given(given(o)) == given(o),
{
    if given(o) is Some {
        crate::text::lemma_trimmed_twice(o->0);
    }
}

/// Whether arguments of `ssh` go over a known connection that is ready or degraded: to
/// its target, in the way that it was made, with a terminal or without, and with what
/// is run on the remote side.
pub open spec fn goes_over(
    context: AppContext,
    id: Seq<char>,
    args: Seq<Seq<char>>,
    interactive: bool,
    remote: Option<Seq<char>>,
) -> bool {
    let c = context.ssh_registry.connections()[id];
    &&& context.ssh_registry.connections().contains_key(id)
    &&& c.status == SshConnectionStatus::Ready || c.status == SshConnectionStatus::Degraded
    &&& exists|kind: SshAuthKind, identity: Option<Seq<char>>, verify: bool| #[trigger]
        is_used_as_made(context, c, kind, identity, verify) && session_is_asked_for(
            args,
            c.target@,
            kind,
            identity,
            verify,
            interactive,
            remote,
        )
}

/// Whether the remote side runs the script of a request: by its shell or the user's own,
/// as a login shell exactly where that is asked for, with its variables and in its
/// directory.
pub open spec fn runs_script(
    text: Seq<char>,
    script: Seq<char>,
    cwd: Option<String>,
    env: Option<Vec<(String, JsonValue)>>,
    shell: Option<String>,
    login: bool,
) -> bool {
    let has_cwd = cwd is Some && trimmed(cwd->0@).len() > 0;
    let program = if shell is Some && trimmed(shell->0@).len() > 0 {
        shell_quoted(trimmed(shell->0@))
    } else {
        "${SHELL:-/bin/sh}"@
    };
    let main = "exec "@ + program + (if login {
        " -l"@
    } else {
        ""@
    }) + " -c "@ + shell_quoted(trimmed(script));
    &&& trimmed(script).len() > 0
    &&& remote_env_opt(env) is Ok
    &&& has_cwd ==> good_remote_cwd(trimmed(cwd->0@)) && remote_side_runs(
        text,
        sorted_pairs(remote_env_opt(env)->Ok_0),
        Some(trimmed(cwd->0@)),
        main,
    )
    &&& !has_cwd ==> remote_side_runs(
        text,
        sorted_pairs(remote_env_opt(env)->Ok_0),
        None,
        main,
    )
}

/// Whether the remote side runs the command of a request with its arguments, or else a
/// shell, with its variables and in its directory.
pub open spec fn runs_command(text: Option<Seq<char>>, request: SshSessionSpawnRequest) -> bool {
    let has_command = request.command is Some && trimmed(request.command->0@).len() > 0;
    let has_cwd = request.cwd is Some && trimmed(request.cwd->0@).len() > 0;
    let has_shell = request.shell is Some && trimmed(request.shell->0@).len() > 0;
    let words = seq![shell_quoted(trimmed(request.command->0@))] + texts(request.args@).map_values(
        |a: Seq<char>| shell_quoted(a),
    );
    let main = if has_command {
        joined(words, " "@)
    } else if has_shell && request.login {
        "exec "@ + shell_quoted(trimmed(request.shell->0@)) + " -l"@
    } else if has_shell {
        "exec "@ + shell_quoted(trimmed(request.shell->0@))
    } else if request.login {
        "exec ${SHELL:-/bin/sh} -l"@
    } else {
        "exec ${SHELL:-/bin/sh}"@
    };
    let pairs = sorted_pairs(remote_env_opt(request.env)->Ok_0);
    &&& remote_env_opt(request.env) is Ok
    &&& text is None <==> !has_command && !has_cwd && pairs.len() == 0 && !has_shell
        && !request.login
    &&& has_cwd ==> good_remote_cwd(trimmed(request.cwd->0@))
    &&& text is Some && has_cwd ==> remote_side_runs(
        text->0,
        pairs,
        Some(trimmed(request.cwd->0@)),
        main,
    )
    &&& text is Some && !has_cwd ==> remote_side_runs(text->0, pairs, None, main)
}

/// Whether a program is `ssh` on a terminal of the usual size, in no directory and with
/// no variables of its own.
pub open spec fn is_plain_program(pty: PtySpawnRequest) -> bool {
    &&& pty.cwd is None
    &&& pty.env@.dom() == Set::<Seq<char>>::empty()
    &&& pty.rows == 24
    &&& pty.cols == 80
}

/// Whether a session is known as a remote one over a connection that starts.
pub open spec fn is_known_as_remote(
    after: AppContext,
    session: Seq<char>,
    c: SshConnectionSummary,
    title: Option<String>,
    remote_command: Option<Seq<char>>,
) -> bool {
    let s = after.registry.sessions()[session].summary;
    &&& after.registry.sessions().contains_key(session)
    &&& s.session_id@ == session
    &&& s.transport == SessionTransport::Ssh
    &&& s.connection_id == Some(c.connection_id)
    &&& s.target_summary == Some(c.target_summary)
    &&& s.title == title
    &&& s.command@ == "ssh"@
    &&& opt_text(s.remote_command) == remote_command
    &&& s.status == SessionStatus::Starting
    &&& s.pid is None
    &&& s.exit_info is None
}

/// A remote session goes over the connection that is named and runs there what is asked
/// for, with a terminal exactly where it is interactive; it is known as a remote session
/// over that connection.
pub proof fn law_remote_session_is_what_is_asked(
    before: AppContext,
    request: SshSessionSpawnRequest,
    manner: Manner,
    host: HostFiles,
    session: SessionId,
    pty: PtySpawnRequest,
    after: AppContext,
)
    requires
        session_spawn_begun(before, request, manner, host, Ok((session, pty)), after),
    ensures
        spawns_as_asked(before, request, session@, pty, after),
{
    let id = request.connection_id@;
    let c = before.ssh_registry.connections()[id];
    let made = connection_context(before.connection_contexts@, c);
    let identity = opt_text(made.identity_path);
    let remote = spawn_command(request)->Ok_0;
    law_connection_is_used_as_it_was_made(before, c);
    law_session_goes_where_it_is_asked_to(
        c.target@,
        made.auth_kind,
        identity,
        made.verify_host_key,
        request.interactive,
        remote,
    );
    assert(is_used_as_made(before, c, made.auth_kind, identity, made.verify_host_key));
    assert(goes_over(before, id, texts(pty.args@), request.interactive, remote));
    lemma_given_twice(opt_text(request.cwd));
    law_session_runs_as_asked(
        opt_text(request.command),
        texts(request.args@),
        given(opt_text(request.cwd)),
        remote_pairs(request.env),
        opt_text(request.shell),
        request.login,
    );
    assert(runs_command(remote, request));
    assert(pty.env@.dom() =~= Set::<Seq<char>>::empty());
}

/// Whether a remote session is the one that is asked for.
pub open spec fn spawns_as_asked(
    before: AppContext,
    request: SshSessionSpawnRequest,
    session: Seq<char>,
    pty: PtySpawnRequest,
    after: AppContext,
) -> bool {
    let id = request.connection_id@;
    &&& is_plain_program(pty)
    &&& exists|remote: Option<Seq<char>>|
        {
            &&& #[trigger] goes_over(
                before,
                id,
                texts(pty.args@),
                request.interactive,
                remote,
            )
            &&& runs_command(remote, request)
            &&& is_known_as_remote(
                after,
                session,
                before.ssh_registry.connections()[id],
                request.title,
                remote,
            )
        }
}

/// Whether a remote script runs in the session that is asked for.
pub open spec fn executes_as_asked(
    before: AppContext,
    request: SshExecRequest,
    session: Seq<char>,
    pty: PtySpawnRequest,
    after: AppContext,
) -> bool {
    let id = request.connection_id@;
    &&& is_plain_program(pty)
    &&& is_known_as_remote(
        after,
        session,
        before.ssh_registry.connections()[id],
        request.title,
        Some(trimmed(request.script@)),
    )
    &&& exists|text: Seq<char>| #[trigger]
        goes_over(before, id, texts(pty.args@), true, Some(text)) && runs_script(
            text,
            request.script@,
            request.cwd,
            request.env,
            request.shell,
            request.login,
        )
}

/// Whether a plan runs a remote script to its end as is asked for: without a terminal,
/// for as long as is asked for or else twenty seconds, and with as much output as is
/// asked for.
pub open spec fn runs_as_asked(
    context: AppContext,
    request: SshRunRequest,
    plan: CommandPlan,
) -> bool {
    &&& request.timeout_ms is Some ==> plan.timeout_ms == request.timeout_ms->0
    &&& request.timeout_ms is None ==> plan.timeout_ms == 20_000
    &&& plan.max_output_bytes == request.max_output_bytes
    &&& exists|text: Seq<char>| #[trigger]
        goes_over(context, request.connection_id@, texts(plan.args@), false, Some(text))
            && runs_script(
            text,
            request.script@,
            request.cwd,
            request.env,
            request.shell,
            request.login,
        )
}

proof fn lemma_script_is_run(
    context: AppContext,
    host: HostFiles,
    manner: Manner,
    id: Seq<char>,
    action: Seq<char>,
    script: Seq<char>,
    cwd: Option<String>,
    env: Option<Vec<(String, JsonValue)>>,
    shell: Option<String>,
    login: bool,
    interactive: bool,
)
    requires
        script_refusal(
            context,
            host,
            manner,
            id,
            action,
            script,
            opt_text(cwd),
            env,
            opt_text(shell),
            login,
        ) is None,
    ensures
        ({
            let c = context.ssh_registry.connections()[id];
            let made = connection_context(context.connection_contexts@, c);
            let text = script_command(script, opt_text(cwd), env, opt_text(shell), login)->Ok_0;
            &&& runs_script(text, script, cwd, env, shell, login)
            &&& goes_over(
                context,
                id,
                session_args(
                    c.target@,
                    made.auth_kind,
                    opt_text(made.identity_path),
                    made.verify_host_key,
                    interactive,
                    Some(text),
                ),
                interactive,
                Some(text),
            )
        }),
{
    let c = context.ssh_registry.connections()[id];
    let made = connection_context(context.connection_contexts@, c);
    let identity = opt_text(made.identity_path);
    let text = script_command(script, opt_text(cwd), env, opt_text(shell), login)->Ok_0;
    law_connection_is_used_as_it_was_made(context, c);
    law_session_goes_where_it_is_asked_to(
        c.target@,
        made.auth_kind,
        identity,
        made.verify_host_key,
        interactive,
        Some(text),
    );
    assert(is_used_as_made(context, c, made.auth_kind, identity, made.verify_host_key));
    lemma_given_twice(opt_text(cwd));
    lemma_trimmed_twice(script);
    law_script_runs_as_asked(
        trimmed(script),
        given(opt_text(cwd)),
        remote_pairs(env),
        opt_text(shell),
        login,
    );
    let program = if shell is Some && trimmed(shell->0@).len() > 0 {
        shell_quoted(trimmed(shell->0@))
    } else {
        "${SHELL:-/bin/sh}"@
    };
    assert(remote_side_runs(
        text,
        remote_pairs(env),
        given(opt_text(cwd)),
        "exec "@ + program + (if login {
            " -l"@
        } else {
            ""@
        }) + " -c "@ + shell_quoted(trimmed(script)),
    ));
}

/// A remote script runs over the connection that is named as it is asked for, and the
/// session is known by it.
pub proof fn law_remote_script_is_what_is_asked(
    before: AppContext,
    request: SshExecRequest,
    manner: Manner,
    host: HostFiles,
    session: SessionId,
    pty: PtySpawnRequest,
    after: AppContext,
)
    requires
        exec_begun(before, request, manner, host, Ok((session, pty)), after),
    ensures
        executes_as_asked(before, request, session@, pty, after),
{
    lemma_script_is_run(
        before,
        host,
        manner,
        request.connection_id@,
        "remote script execution"@,
        request.script@,
        request.cwd,
        request.env,
        request.shell,
        request.login,
        true,
    );
    assert(pty.env@.dom() =~= Set::<Seq<char>>::empty());
}

/// A remote script that is run to its end goes over the connection that is named as it
/// is asked for.
pub proof fn law_remote_run_is_what_is_asked(
    context: AppContext,
    request: SshRunRequest,
    manner: Manner,
    host: HostFiles,
    plan: CommandPlan,
)
    requires
        run_planned(context, request, manner, host, Ok(plan)),
    ensures
        runs_as_asked(context, request, plan),
{
    lemma_script_is_run(
        context,
        host,
        manner,
        request.connection_id@,
        "remote command execution"@,
        request.script@,
        request.cwd,
        request.env,
        request.shell,
        request.login,
        false,
    );
}

/// A remote session or script is refused only for cause: the connection is not known or
/// not ready, there is no `ssh`, a variable is no good, the directory is none that can
/// be gone to, or there is nothing to run.
pub proof fn law_remote_runs_are_refused_for_cause(
    context: AppContext,
    host: HostFiles,
    manner: Manner,
    id: Seq<char>,
    action: Seq<char>,
    script: Seq<char>,
    cwd: Option<String>,
    env: Option<Vec<(String, JsonValue)>>,
    shell: Option<Seq<char>>,
    login: bool,
)
    ensures
        ({
            let known = context.ssh_registry.connections();
            let status = known[id].status;
            let has_cwd = cwd is Some && trimmed(cwd->0@).len() > 0;
            let fit = known.contains_key(id) && (status == SshConnectionStatus::Ready || status
                == SshConnectionStatus::Degraded) && ssh_path(context, host) is Some
                && remote_env_opt(env) is Ok && (has_cwd ==> good_remote_cwd(trimmed(cwd->0@)));
            &&& execution_refusal(context, host, manner, id, action, opt_text(cwd), env) is None
                <==> fit
            &&& script_refusal(
                context,
                host,
                manner,
                id,
                action,
                script,
                opt_text(cwd),
                env,
                shell,
                login,
            ) is None <==> fit && trimmed(script).len() > 0 && is_known_file(
                host,
                ssh_path(context, host)->0,
            ) && exports(sorted_pairs(remote_env_opt(env)->Ok_0)) is Ok
        }),
{
    lemma_given_twice(opt_text(cwd));
    lemma_trimmed_twice(script);
    law_script_runs_as_asked(
        trimmed(script),
        given(opt_text(cwd)),
        remote_pairs(env),
        shell,
        login,
    );
    law_missing_programs_are_refused("ssh"@, ssh_path(context, host), ssh_is_file(context, host));
}

/// What runs here for a remote session is the `ssh` of the application and nothing else,
/// in no directory and with no variables of its own; and a session comes in exactly where
/// it is not refused and there is room for it.
pub proof fn law_remote_sessions_run_ssh(
    before: AppContext,
    host: HostFiles,
    manner: Manner,
    refusal: Option<Seq<char>>,
    id: Seq<char>,
    interactive: bool,
    remote_argument: Option<Seq<char>>,
    title: Option<String>,
    description: Option<Seq<char>>,
    cwd: Option<Seq<char>>,
    said_command: Option<Seq<char>>,
    env: Map<Seq<char>, Seq<char>>,
    r: Result<(SessionId, PtySpawnRequest), Failure>,
    after: AppContext,
)
    requires
        remote_session_begun(
            before,
            host,
            manner,
            refusal,
            id,
            interactive,
            remote_argument,
            title,
            description,
            cwd,
            said_command,
            env,
            r,
            after,
        ),
    ensures
        r is Ok <==> refusal is None && before.registry.sessions().dom().len()
            < before.registry.limit(),
        r is Err ==> after == before,
        r is Ok ==> {
            let pty = r->Ok_0.1;
            &&& pty.command@ == ssh_path(before, host)->0
            &&& pty.cwd is None
            &&& pty.env@.dom() == Set::<Seq<char>>::empty()
            &&& is_new_id("pty_"@, r->Ok_0.0@)
            &&& after.registry.sessions().contains_key(r->Ok_0.0@)
            &&& after.ssh_registry == before.ssh_registry
            &&& {
                let s = after.registry.sessions()[r->Ok_0.0@].summary;
                let c = before.ssh_registry.connections()[id];
                &&& s.command@ == "ssh"@
                &&& s.cwd is None
                &&& s.title == title
                &&& s.connection_id == Some(c.connection_id)
                &&& s.target_summary == Some(c.target_summary)
                &&& opt_text(s.remote_cwd) == cwd
                &&& opt_text(s.remote_command) == said_command
                &&& map_texts(s.remote_env_preview@) == env
                &&& s.pid is None
                &&& s.exit_info is None
            }
        },
{
}

/// What runs here for a remote script is the `ssh` of the application, for as long as is
/// asked for, or else twenty seconds, and no more of its output is kept than is asked for.
pub proof fn law_remote_scripts_run_ssh(
    context: AppContext,
    request: SshRunRequest,
    manner: Manner,
    host: HostFiles,
    plan: CommandPlan,
)
    requires
        run_planned(context, request, manner, host, Ok(plan)),
    ensures
        plan.program@ == ssh_path(context, host)->0,
        request.timeout_ms is Some ==> plan.timeout_ms == request.timeout_ms->0,
        request.timeout_ms is None ==> plan.timeout_ms == 20_000,
        plan.max_output_bytes == request.max_output_bytes,
{
}

} // verus!
