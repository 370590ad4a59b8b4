//! Opening and closing SSH tunnels.
use super::context::{
    brings_in_tunnel, brings_nothing_in, connection_context, is_used_as_made,
    law_connection_is_used_as_it_was_made, ssh_path, AppContext, SshConnectionRuntimeContext,
};
use super::ssh_connections::{
    law_only_ready_connections_are_used, lemma_used_is_use_changed, only_use_changed,
    readiness_refusal, SshService,
};
use super::support::{describe, described};
use super::types::{
    SshTunnelCloseRequest, SshTunnelCloseResult, SshTunnelOpenRequest, SshTunnelOpenResult,
};
use crate::config::HostFiles;
use crate::error::Failure;
use crate::ordered::lists_in_order;
use crate::outside::is_new_id;
use crate::ssh::guard::{tunnel_refusal, SshTunnelValidationInput};
use crate::ssh::model::{
    SshConnectionStatus, SshConnectionSummary, SshTunnelId, SshTunnelKind, SshTunnelStatus,
    SshTunnelSummary,
};
use crate::ssh::registry::used_and_recounted;
use crate::ssh::runtime::{
    binary_refusal, forward_text, given, given_str, law_forward_names_both_ends,
    law_tunnel_forwards_what_is_asked, map_tunnel_failure, tunnel_args, tunnel_failure_text,
    tunnel_is_asked_for, CommandOutput, SshTunnelPlan, SshTunnelPlanRequest,
};
use crate::text::{
    cat2, cat4, cat5, cat6, clone_opt, contains, decimal, decimal_text, find_from, has_part,
    law_search_finds_the_first, lemma_trimmed_twice, lowercase, lowered, occurs_at, opt_text, same,
    texts, trimmed,
};
use crate::timestamp::Timestamp;
use vstd::prelude::*;

verus! {

/// The tunnels of a connection.
pub open spec fn tunnels_of(tunnels: Map<Seq<char>, SshTunnelSummary>, id: Seq<char>) -> Set<
    Seq<char>,
> {
    Set::new(|k: Seq<char>| tunnels.contains_key(k) && tunnels[k].connection_id@ == id)
}

/// How often, and how many milliseconds apart, a tunnel that was started is looked
/// at before it counts as open.
pub const TUNNEL_START_CHECK_ATTEMPTS: u8 = 8;

pub const TUNNEL_START_CHECK_INTERVAL_MS: u64 = 50;

/// How many milliseconds a tunnel may take to end before it is killed.
pub const TUNNEL_TERM_WAIT_MS: u64 = 2000;

/// How often a local port is chosen anew where the choice is open.
pub const TUNNEL_PORT_ATTEMPTS: u8 = 5;

/// A tunnel that is being opened.
#[derive(Debug, PartialEq, Eq)]
pub struct TunnelRun {
    pub connection: SshConnectionSummary,
    pub made: SshConnectionRuntimeContext,
    pub ssh_bin: String,
    pub bind_host: String,
    pub local_port: u16,
    pub remote_host: String,
    pub remote_port: u16,
    pub title: Option<String>,
    pub description: String,
    /// How many attempts are left, the present one among them.
    pub attempts: u8,
}

/// A tunnel that is to be started.
#[derive(Debug, PartialEq, Eq)]
pub struct TunnelLaunch {
    pub plan: SshTunnelPlan,
    pub tunnel: SshTunnelSummary,
    pub run: TunnelRun,
}

/// What opening a tunnel asks for next.
#[derive(Debug, PartialEq, Eq)]
pub enum TunnelStep {
    /// Choose a free local port, then report with `tunnel_port`.
    ChoosePort(TunnelRun),
    /// Make sure that the local port is free, then report with `tunnel_port`.
    CheckPort(TunnelRun),
    /// The tunnel is there.
    Done(SshTunnelOpenResult),
}

/// What came of starting a tunnel.
#[derive(Debug, PartialEq, Eq)]
pub enum TunnelStart {
    /// The program could not be started.
    NotStarted(Failure),
    /// The program ended at once, or could not be looked at.
    Ended(Failure),
    /// The program runs.
    Running { pid: Option<u32> },
}

/// The host of a request, or the usual one.
pub open spec fn host_or_local(o: Option<Seq<char>>) -> Seq<char> {
    match given(o) {
        Some(h) => h,
        None => "127.0.0.1"@,
    }
}

/// Whether a tunnel serves: it is open, or about to be, with the same ends.
pub open spec fn tunnel_serves(
    t: SshTunnelSummary,
    bind_host: Seq<char>,
    local_port: u16,
    remote_host: Seq<char>,
    remote_port: u16,
) -> bool {
    &&& t.status == SshTunnelStatus::Opening || t.status == SshTunnelStatus::Active
    &&& t.bind_host@ == bind_host
    &&& t.local_port == local_port
    &&& t.remote_host@ == remote_host
    &&& t.remote_port == remote_port
}

/// Whether the first tunnel of a connection, in the order of identifiers, that
/// serves is the given one.
pub open spec fn is_first_serving_tunnel(
    context: AppContext,
    connection: Seq<char>,
    bind_host: Seq<char>,
    local_port: u16,
    remote_host: Seq<char>,
    remote_port: u16,
    t: SshTunnelSummary,
) -> bool {
    let tunnels = context.ssh_registry.tunnels();
    &&& tunnels_of(tunnels, connection).contains(t.tunnel_id@)
    &&& tunnels[t.tunnel_id@] == t
    &&& tunnel_serves(t, bind_host, local_port, remote_host, remote_port)
    &&& forall|k: Seq<char>|
        #![trigger tunnels_of(tunnels, connection).contains(k)]
        tunnels_of(tunnels, connection).contains(k) && crate::ordered::text_less(k, t.tunnel_id@)
            ==> !tunnel_serves(tunnels[k], bind_host, local_port, remote_host, remote_port)
}

/// Whether no tunnel of a connection serves.
pub open spec fn no_tunnel_serves(
    context: AppContext,
    connection: Seq<char>,
    bind_host: Seq<char>,
    local_port: u16,
    remote_host: Seq<char>,
    remote_port: u16,
) -> bool {
    let tunnels = context.ssh_registry.tunnels();
    forall|k: Seq<char>|
        #![trigger tunnels_of(tunnels, connection).contains(k)]
        tunnels_of(tunnels, connection).contains(k) ==> !tunnel_serves(
            tunnels[k],
            bind_host,
            local_port,
            remote_host,
            remote_port,
        )
}

/// How a tunnel is described where nothing else is said.
pub open spec fn usual_tunnel_text(
    bind_host: Seq<char>,
    local_port: u16,
    remote_host: Seq<char>,
    remote_port: u16,
    target: Seq<char>,
) -> Seq<char> {
    "SSH tunnel: "@ + bind_host + ":"@ + decimal_text(local_port as nat) + " -> "@ + (remote_host
        + ":"@ + decimal_text(remote_port as nat) + " via "@ + target)
}

/// What the first step of opening a tunnel does.
pub open spec fn open_begun(
    before: AppContext,
    request: SshTunnelOpenRequest,
    host: HostFiles,
    r: Result<TunnelStep, Failure>,
    after: AppContext,
) -> bool {
    let id = request.connection_id@;
    let ready = readiness_refusal(before.ssh_registry.connections(), id, "opening tunnel"@);
    let c = before.ssh_registry.connections()[id];
    let bind = host_or_local(opt_text(request.bind_host));
    let remote = host_or_local(opt_text(request.remote_host));
    let refusal = tunnel_refusal(
        before.ssh_config@,
        bind,
        request.local_port,
        remote,
        request.remote_port,
    );
    let b = trimmed(bind);
    let h = trimmed(remote);
    if ready is Some {
        &&& r matches Err(e)
        &&& ready == Some(e@)
        &&& after == before
    } else if refusal is Some {
        &&& r matches Err(e)
        &&& refusal == Some(e@)
        &&& after == before
    } else {
        match r {
            Ok(TunnelStep::Done(done)) => {
                &&& done.reused
                &&& is_first_serving_tunnel(
                    before,
                    id,
                    b,
                    request.local_port,
                    h,
                    request.remote_port,
                    done.tunnel,
                )
                &&& after == (AppContext { ssh_registry: after.ssh_registry, ..before })
                &&& after.ssh_registry.mounts() == before.ssh_registry.mounts()
                &&& after.ssh_registry.tunnels() == before.ssh_registry.tunnels()
                &&& after.ssh_registry.links() == before.ssh_registry.links()
                &&& used_and_recounted(
                    before.ssh_registry.connections(),
                    id,
                    before.ssh_registry.links(),
                    before.ssh_registry.mounts(),
                    after.ssh_registry.connections(),
                )
            },
            Err(e) => {
                &&& no_tunnel_serves(before, id, b, request.local_port, h, request.remote_port)
                &&& ssh_path(before, host) is None
                &&& e@ == "ssh binary path could not be resolved"@
                &&& after == before
            },
            Ok(TunnelStep::ChoosePort(run)) => {
                &&& request.local_port == 0
                &&& run.attempts == TUNNEL_PORT_ATTEMPTS
                &&& no_tunnel_serves(before, id, b, request.local_port, h, request.remote_port)
                &&& is_tunnel_run(run, before, request, host)
                &&& after == before
            },
            Ok(TunnelStep::CheckPort(run)) => {
                &&& request.local_port != 0
                &&& run.attempts == 1
                &&& no_tunnel_serves(before, id, b, request.local_port, h, request.remote_port)
                &&& is_tunnel_run(run, before, request, host)
                &&& after == before
            },
        }
    }
}

/// Whether a run opens the tunnel that is asked for.
pub open spec fn is_tunnel_run(
    run: TunnelRun,
    context: AppContext,
    request: SshTunnelOpenRequest,
    host: HostFiles,
) -> bool {
    let c = context.ssh_registry.connections()[request.connection_id@];
    &&& run.connection == c
    &&& run.made == connection_context(context.connection_contexts@, c)
    &&& ssh_path(context, host) == Some(run.ssh_bin@)
    &&& run.bind_host@ == trimmed(host_or_local(opt_text(request.bind_host)))
    &&& run.local_port == request.local_port
    &&& run.remote_host@ == trimmed(host_or_local(opt_text(request.remote_host)))
    &&& run.remote_port == request.remote_port
    &&& run.title == request.title
    &&& run.description@ == described(
        opt_text(request.description),
        usual_tunnel_text(
            run.bind_host@,
            run.local_port,
            run.remote_host@,
            run.remote_port,
            c.target_summary@,
        ),
    )
}

/// Whether a tunnel was put in the registry and, beside the use of its connection,
/// nothing else has changed.
pub open spec fn tunnel_recorded(before: AppContext, after: AppContext, t: SshTunnelSummary) -> bool {
    &&& after == (AppContext { ssh_registry: after.ssh_registry, ..before })
    &&& after.ssh_registry.mounts() == before.ssh_registry.mounts()
    &&& after.ssh_registry.links() == before.ssh_registry.links()
    &&& after.ssh_registry.tunnels() == before.ssh_registry.tunnels().insert(t.tunnel_id@, t)
    &&& only_use_changed(
        before.ssh_registry.connections(),
        set![t.connection_id@],
        after.ssh_registry.connections(),
    )
}

/// Whether a summary is that of a tunnel that is about to be opened, under a new
/// identifier.
pub open spec fn is_new_tunnel(t: SshTunnelSummary, run: TunnelRun, port: u16) -> bool {
    &&& is_new_id("sshtun_"@, t.tunnel_id@)
    &&& begins_tunnel(t, run, port)
}

/// Whether a summary is that of a tunnel that is about to be opened.
pub open spec fn begins_tunnel(t: SshTunnelSummary, run: TunnelRun, port: u16) -> bool {
    t == (SshTunnelSummary {
        tunnel_id: t.tunnel_id,
        title: run.title,
        description: Some(run.description),
        connection_id: run.connection.connection_id,
        target_summary: run.connection.target_summary,
        kind: SshTunnelKind::LocalForward,
        status: SshTunnelStatus::Opening,
        bind_host: run.bind_host,
        local_port: port,
        remote_host: run.remote_host,
        remote_port: run.remote_port,
        started_at: t.started_at,
        last_error: None,
        pid: None,
    })
}

/// What an attempt to open a tunnel on a port does: the tunnel is recorded as about
/// to be opened, and how it is started is said where `ssh` is there.
pub open spec fn attempt_made(
    before: AppContext,
    run: TunnelRun,
    port: Result<u16, Failure>,
    host: HostFiles,
    r: Result<TunnelLaunch, Failure>,
    after: AppContext,
) -> bool {
    match port {
        Err(failure) => r == Err::<TunnelLaunch, Failure>(failure) && after == before,
        Ok(p) => match binary_refusal(
            "ssh"@,
            Some(run.ssh_bin@),
            crate::config::is_known_file(host, run.ssh_bin@),
        ) {
            Some(why) => {
                &&& r matches Err(e)
                &&& e@ == why
                &&& exists|t: SshTunnelSummary| #[trigger]
                    is_new_tunnel(t, run, p) && tunnel_recorded(before, after, t)
            },
            None => {
                &&& r matches Ok(launch)
                &&& launch.run == run
                &&& is_new_tunnel(launch.tunnel, run, p)
                &&& tunnel_recorded(before, after, launch.tunnel)
                &&& launch.plan.command@ == run.ssh_bin@
                &&& texts(launch.plan.args@) == tunnel_args(
                    run.connection.target@,
                    run.made.auth_kind,
                    opt_text(run.made.identity_path),
                    run.made.verify_host_key,
                    forward_text(run.bind_host@, p, run.remote_host@, run.remote_port),
                )
            },
        },
    }
}

/// Whether a message tells of a local address that cannot be listened on.
pub open spec fn tells_of_bind_failure(message: Seq<char>) -> bool {
    let t = lowered(message);
    has_part(t, "address already in use"@) || has_part(t, "cannot listen"@) || has_part(t, "bind"@)
        || has_part(t, "port is unavailable"@)
}

/// What follows an attempt that failed: another attempt where the choice of the
/// port is open, the port was the trouble and attempts are left, and else the end.
pub open spec fn after_failure(run: TunnelRun, e: Failure, r: Result<TunnelStep, Failure>) -> bool {
    if run.local_port == 0 && tells_of_bind_failure(e@) && run.attempts > 1 {
        r == Ok::<TunnelStep, Failure>(
            TunnelStep::ChoosePort(TunnelRun { attempts: (run.attempts - 1) as u8, ..run }),
        )
    } else {
        r == Err::<TunnelStep, Failure>(e)
    }
}

/// A tunnel that is open.
pub open spec fn opened_now(t: SshTunnelSummary, pid: Option<u32>) -> SshTunnelSummary {
    SshTunnelSummary { status: SshTunnelStatus::Active, last_error: None, pid, ..t }
}

/// Whether a summary is that of a tunnel that has failed for a reason.
pub open spec fn is_failed_tunnel(t: SshTunnelSummary, of: SshTunnelSummary, why: Seq<char>) -> bool {
    &&& t == (SshTunnelSummary {
        status: SshTunnelStatus::Failed,
        last_error: t.last_error,
        pid: None,
        ..of
    })
    &&& opt_text(t.last_error) == Some(why)
}

/// What opening a tunnel does once its program was started, or could not be.
pub open spec fn start_reported(
    before: AppContext,
    launch: TunnelLaunch,
    start: TunnelStart,
    r: Result<TunnelStep, Failure>,
    after: AppContext,
) -> bool {
    match start {
        TunnelStart::Running { pid } => {
            let t = opened_now(launch.tunnel, pid);
            &&& r == Ok::<TunnelStep, Failure>(
                TunnelStep::Done(SshTunnelOpenResult { tunnel: t, reused: false }),
            )
            &&& tunnel_recorded(before, after, t)
        },
        TunnelStart::NotStarted(e) => after_failure(launch.run, e, r) && after == before,
        TunnelStart::Ended(e) => {
            let t = after.ssh_registry.tunnels()[launch.tunnel.tunnel_id@];
            &&& after_failure(launch.run, e, r)
            &&& tunnel_recorded(before, after, t)
            &&& is_failed_tunnel(t, launch.tunnel, e@)
        },
    }
}

/// What looking at a tunnel that was started asks for next.
#[derive(Debug, PartialEq, Eq)]
pub enum TunnelLook {
    /// Wait so many milliseconds, then look again, so many times at most.
    Again { checks_left: u8, wait_ms: u64 },
    /// The tunnel counts as open after so many milliseconds.
    Running { wait_ms: u64 },
    /// The program has ended without success, or could not be looked at.
    Ended(Failure),
}

/// What a look at a tunnel that was started means, where so many looks are left, this
/// one among them: the tunnel counts as open where its program has ended well, or
/// still runs an interval after the last look.
pub fn tunnel_start_seen(
    checks_left: u8,
    tunnel: &SshTunnelSummary,
    seen: Result<Option<CommandOutput>, Failure>,
) -> (r: TunnelLook)
    ensures
        match seen {
            Err(failure) => r == TunnelLook::Ended(failure),
            Ok(Some(output)) => if output.success {
                r == (TunnelLook::Running { wait_ms: 0 })
            } else {
                r matches TunnelLook::Ended(e) && e@ == tunnel_failure_text(*tunnel, output)
            },
            Ok(None) => if checks_left > 1 {
                r == (TunnelLook::Again {
                    checks_left: (checks_left - 1) as u8,
                    wait_ms: TUNNEL_START_CHECK_INTERVAL_MS,
                })
            } else {
                r == (TunnelLook::Running { wait_ms: TUNNEL_START_CHECK_INTERVAL_MS })
            },
        },
{
    match seen {
        Err(failure) => TunnelLook::Ended(failure),
        Ok(Some(output)) => match SshService::tunnel_exit_at_start(tunnel, &output) {
            Ok(_) => TunnelLook::Running { wait_ms: 0 },
            Err(e) => TunnelLook::Ended(e),
        },
        Ok(None) => if checks_left > 1 {
            TunnelLook::Again {
                checks_left: checks_left - 1,
                wait_ms: TUNNEL_START_CHECK_INTERVAL_MS,
            }
        } else {
            TunnelLook::Running { wait_ms: TUNNEL_START_CHECK_INTERVAL_MS }
        },
    }
}

/// How the program of a tunnel is stopped.
#[derive(Debug, Clone, Copy, PartialEq, Eq, Structural)]
pub enum TunnelStop {
    /// Ask the process to end, wait for it, then report with `stop_waited`.
    Terminate { pid: u32, wait_ms: u64 },
    /// Kill the process.
    Kill,
}

/// How the program of a tunnel is stopped: it is asked to end where that is
/// possible and force is not asked for.
pub fn stop_tunnel_child(force: bool, pid: Option<u32>) -> (r: TunnelStop)
    ensures
        r == if force || pid is None {
            TunnelStop::Kill
        } else {
            TunnelStop::Terminate { pid: pid->0, wait_ms: TUNNEL_TERM_WAIT_MS }
        },
{
    match pid {
        Some(pid) => if force {
            TunnelStop::Kill
        } else {
            TunnelStop::Terminate { pid, wait_ms: TUNNEL_TERM_WAIT_MS }
        },
        None => TunnelStop::Kill,
    }
}

/// What is left to do once the program of a tunnel was asked to end.
pub fn stop_waited(ended: bool) -> (r: Option<TunnelStop>)
    ensures
        r == if ended {
            None
        } else {
            Some(TunnelStop::Kill)
        },
{
    if ended {
        None
    } else {
        Some(TunnelStop::Kill)
    }
}

/// A tunnel that is being closed.
#[derive(Debug, PartialEq, Eq)]
pub struct TunnelCloseRun {
    /// The tunnel as it was before.
    pub tunnel: SshTunnelSummary,
    pub force: bool,
}

/// Says that there is no such tunnel.
pub open spec fn tunnel_not_found_text(id: Seq<char>) -> Seq<char> {
    "ssh tunnel not found: tunnel_id="@ + id
}

/// A tunnel that is closed. One that has failed stays failed, with its reason.
pub open spec fn closed_now(t: SshTunnelSummary, previous: SshTunnelStatus) -> SshTunnelSummary {
    if previous == SshTunnelStatus::Failed || t.status == SshTunnelStatus::Failed {
        SshTunnelSummary { status: SshTunnelStatus::Failed, pid: None, ..t }
    } else {
        SshTunnelSummary { status: SshTunnelStatus::Closed, last_error: None, pid: None, ..t }
    }
}

/// What is known of a tunnel that is being closed.
pub open spec fn tunnel_now(context: AppContext, run: TunnelCloseRun) -> SshTunnelSummary {
    let tunnels = context.ssh_registry.tunnels();
    if tunnels.contains_key(run.tunnel.tunnel_id@) {
        tunnels[run.tunnel.tunnel_id@]
    } else {
        run.tunnel
    }
}

/// What closing a tunnel does once its program was stopped, or could not be.
pub open spec fn close_reported(
    before: AppContext,
    run: TunnelCloseRun,
    outcome: Result<(), Failure>,
    r: Result<SshTunnelCloseResult, Failure>,
    after: AppContext,
) -> bool {
    match outcome {
        Err(failure) => r == Err::<SshTunnelCloseResult, Failure>(failure) && after == before,
        Ok(_) => {
            let t = closed_now(tunnel_now(before, run), run.tunnel.status);
            &&& r matches Ok(done)
            &&& done.tunnel_id@ == run.tunnel.tunnel_id@
            &&& done.previous_status == run.tunnel.status
            &&& done.current_status == t.status
            &&& tunnel_recorded(before, after, t)
        },
    }
}

impl SshService {
    /// Begins to open a tunnel: checks what is asked for, and looks for a tunnel
    /// that serves.
    pub fn open_tunnel(context: &mut AppContext, request: SshTunnelOpenRequest, host: &HostFiles) -> (r:
        Result<TunnelStep, Failure>)
        requires
            old(context).wf(),
        ensures
            final(context).wf(),
            brings_nothing_in(*old(context), *final(context)),
            open_begun(*old(context), request, *host, r, *final(context)),
            r matches Ok(step) ==> opens_as_asked(*old(context), request, step),
    {
        let connection = match SshService::require_ready_connection(
            context,
            &request.connection_id,
            "opening tunnel",
        ) {
            Ok(c) => c,
            Err(e) => {
                return Err(e);
            },
        };
        let made = context.runtime_context_for_connection(&connection);
        let bind_host = match given_str(&request.bind_host) {
            Some(h) => h,
            None => "127.0.0.1",
        };
        let remote_host = match given_str(&request.remote_host) {
            Some(h) => h,
            None => "127.0.0.1",
        };
        let validated = match context.ssh_guard.validate_tunnel_request(
            &context.ssh_config,
            SshTunnelValidationInput {
                bind_host,
                local_port: request.local_port,
                remote_host,
                remote_port: request.remote_port,
            },
        ) {
            Ok(v) => v,
            Err(e) => {
                return Err(e);
            },
        };
        match SshService::find_reusable_tunnel(
            context,
            &request.connection_id,
            validated.bind_host.as_str(),
            validated.local_port,
            validated.remote_host.as_str(),
            validated.remote_port,
        ) {
            Some(existing) => {
                context.ssh_registry.touch_connection(&request.connection_id);
                let step = TunnelStep::Done(SshTunnelOpenResult { tunnel: existing, reused: true });
                proof {
                    law_tunnel_opens_as_asked(*old(context), request, *host, step, *context);
                }
                return Ok(step);
            },
            None => {},
        }
        let ssh_bin = match context.resolve_ssh_bin_path(host) {
            Ok(p) => p,
            Err(e) => {
                return Err(e);
            },
        };
        let local = decimal(validated.local_port as u64);
        let remote = decimal(validated.remote_port as u64);
        let head = cat5(
            "SSH tunnel: ",
            validated.bind_host.as_str(),
            ":",
            local.as_str(),
            " -> ",
        );
        let tail = cat5(
            validated.remote_host.as_str(),
            ":",
            remote.as_str(),
            " via ",
            connection.target_summary.as_str(),
        );
        let usual = cat2(head.as_str(), tail.as_str());
        let description = describe(&request.description, usual);
        let open_choice = validated.local_port == 0;
        let ghost asked = request;
        let run = TunnelRun {
            connection,
            made,
            ssh_bin,
            bind_host: validated.bind_host,
            local_port: validated.local_port,
            remote_host: validated.remote_host,
            remote_port: validated.remote_port,
            title: request.title,
            description,
            attempts: if open_choice {
                TUNNEL_PORT_ATTEMPTS
            } else {
                1
            },
        };
        let step = if open_choice {
            TunnelStep::ChoosePort(run)
        } else {
            TunnelStep::CheckPort(run)
        };
        proof {
            law_tunnel_opens_as_asked(*old(context), asked, *host, step, *context);
        }
        Ok(step)
    }

    fn find_reusable_tunnel(
        context: &AppContext,
        connection_id: &crate::ssh::model::SshConnectionId,
        bind_host: &str,
        local_port: u16,
        remote_host: &str,
        remote_port: u16,
    ) -> (r: Option<SshTunnelSummary>)
        requires
            context.wf(),
        ensures
            match r {
                Some(t) => is_first_serving_tunnel(
                    *context,
                    connection_id@,
                    bind_host@,
                    local_port,
                    remote_host@,
                    remote_port,
                    t,
                ),
                None => no_tunnel_serves(
                    *context,
                    connection_id@,
                    bind_host@,
                    local_port,
                    remote_host@,
                    remote_port,
                ),
            },
    {
        let list = context.ssh_registry.list_tunnels_for_connection(connection_id);
        let ghost tunnels = context.ssh_registry.tunnels();
        let ghost names = list@.map_values(|t: SshTunnelSummary| t.tunnel_id@);
        let ghost own = tunnels_of(tunnels, connection_id@);
        let mut i: usize = 0;
        proof {
            assert(lists_in_order(names, own));
        }
        while i < list.len()
            invariant
                i <= list@.len(),
                tunnels == context.ssh_registry.tunnels(),
                names == list@.map_values(|t: SshTunnelSummary| t.tunnel_id@),
                own == tunnels_of(tunnels, connection_id@),
                lists_in_order(names, own),
                forall|k: int| 0 <= k < list@.len() ==> #[trigger] list@[k] == tunnels[names[k]],
                forall|k: int|
                    0 <= k < i ==> !tunnel_serves(
                        tunnels[#[trigger] names[k]],
                        bind_host@,
                        local_port,
                        remote_host@,
                        remote_port,
                    ),
            decreases list@.len() - i,
        {
            let t = &list[i];
            let open = match t.status {
                SshTunnelStatus::Opening | SshTunnelStatus::Active => true,
                _ => false,
            };
            assert(*t == tunnels[names[i as int]]);
            if open && same(t.bind_host.as_str(), bind_host) && t.local_port == local_port && same(
                t.remote_host.as_str(),
                remote_host,
            ) && t.remote_port == remote_port {
                proof {
                    assert(names.contains(names[i as int]));
                    assert(names.to_set().contains(names[i as int]));
                    assert(own.contains(t.tunnel_id@));
                    assert forall|k: Seq<char>|
                        #![trigger own.contains(k)]
                        own.contains(k) && crate::ordered::text_less(
                            k,
                            t.tunnel_id@,
                        ) implies !tunnel_serves(
                        tunnels[k],
                        bind_host@,
                        local_port,
                        remote_host@,
                        remote_port,
                    ) by {
                        assert(names.to_set().contains(k));
                        let j = names.index_of(k);
                        if j >= i {
                            if j > i {
                                assert(crate::ordered::text_less(names[i as int], names[j]));
                                crate::ordered::lemma_less_transitive(k, names[i as int], k);
                            }
                            crate::ordered::lemma_less_irreflexive(k);
                        }
                        assert(j < i);
                        assert(names[j] == k);
                    }
                }
                return Some(t.clone());
            }
            i = i + 1;
        }
        proof {
            assert forall|k: Seq<char>|
                #![trigger own.contains(k)]
                own.contains(k) implies !tunnel_serves(
                tunnels[k],
                bind_host@,
                local_port,
                remote_host@,
                remote_port,
            ) by {
                assert(names.to_set().contains(k));
                let j = names.index_of(k);
                assert(names[j] == k);
            }
        }
        None
    }

    /// The summary of a tunnel that is opened at a moment, under an identifier.
    pub fn new_tunnel(run: &TunnelRun, port: u16, tunnel_id: SshTunnelId, now: Timestamp) -> (r:
        SshTunnelSummary)
        ensures
            r.tunnel_id == tunnel_id,
            r.started_at == now,
            begins_tunnel(r, *run, port),
    {
        SshTunnelSummary {
            tunnel_id,
            title: clone_opt(&run.title),
            description: Some(run.description.clone()),
            connection_id: run.connection.connection_id.clone(),
            target_summary: run.connection.target_summary.clone(),
            kind: SshTunnelKind::LocalForward,
            status: SshTunnelStatus::Opening,
            bind_host: run.bind_host.clone(),
            local_port: port,
            remote_host: run.remote_host.clone(),
            remote_port: run.remote_port,
            started_at: now,
            last_error: None,
            pid: None,
        }
    }

    /// Makes an attempt on a local port, or ends where there is none.
    pub fn tunnel_port(
        context: &mut AppContext,
        run: TunnelRun,
        port: Result<u16, Failure>,
        host: &HostFiles,
    ) -> (r: Result<TunnelLaunch, Failure>)
        requires
            old(context).wf(),
        ensures
            final(context).wf(),
            attempt_made(*old(context), run, port, *host, r, *final(context)),
            r matches Ok(launch) ==> port is Ok && starts_tunnel_as_asked(
                run,
                port->Ok_0,
                launch,
                *final(context),
            ),
    {
        let ghost found = port;
        let port: u16 = match port {
            Ok(p) => p,
            Err(e) => {
                return Err(e);
            },
        };
        let tunnel = SshService::new_tunnel(&run, port, SshTunnelId::new(), Timestamp::now());
        SshService::record_tunnel(context, tunnel.clone());
        let is_file = host.is_file(run.ssh_bin.as_str());
        let request = SshTunnelPlanRequest {
            ssh_bin_path: Some(run.ssh_bin.clone()),
            target: run.connection.target.clone(),
            auth_kind: run.made.auth_kind,
            identity_path: clone_opt(&run.made.identity_path),
            verify_host_key: run.made.verify_host_key,
            bind_host: run.bind_host.clone(),
            local_port: port,
            remote_host: run.remote_host.clone(),
            remote_port: run.remote_port,
        };
        match context.ssh_runtime.build_tunnel_plan(&request, is_file) {
            Ok(plan) => {
                let ghost opening = run;
                let launch = TunnelLaunch { plan, tunnel, run };
                proof {
                    law_tunnel_starts_as_asked(
                        *old(context),
                        opening,
                        found,
                        *host,
                        launch,
                        *context,
                    );
                }
                Ok(launch)
            },
            Err(e) => {
                assert(is_new_tunnel(tunnel, run, port));
                Err(e)
            },
        }
    }

    /// Puts a tunnel in the registry.
    fn record_tunnel(context: &mut AppContext, tunnel: SshTunnelSummary)
        requires
            old(context).wf(),
        ensures
            final(context).wf(),
            tunnel_recorded(*old(context), *final(context), tunnel),
    {
        let ghost before = context.ssh_registry;
        let ghost id = tunnel.connection_id@;
        context.ssh_registry.upsert_tunnel(tunnel);
        proof {
            lemma_used_is_use_changed(
                before.connections(),
                id,
                before.links(),
                before.mounts(),
                context.ssh_registry.connections(),
            );
        }
    }

    /// Goes on once the program of a tunnel was started, or could not be.
    pub fn tunnel_started(context: &mut AppContext, launch: TunnelLaunch, start: TunnelStart) -> (r:
        Result<TunnelStep, Failure>)
        requires
            old(context).wf(),
        ensures
            final(context).wf(),
            brings_in_tunnel(*old(context), *final(context), launch.tunnel.tunnel_id@),
            start_reported(*old(context), launch, start, r, *final(context)),
    {
        match start {
            TunnelStart::Running { pid } => {
                let mut opened = launch.tunnel;
                opened.status = SshTunnelStatus::Active;
                opened.last_error = None;
                opened.pid = pid;
                SshService::record_tunnel(context, opened.clone());
                Ok(TunnelStep::Done(SshTunnelOpenResult { tunnel: opened, reused: false }))
            },
            TunnelStart::NotStarted(e) => SshService::attempt_failed(launch.run, e),
            TunnelStart::Ended(e) => {
                let mut failed = launch.tunnel;
                failed.status = SshTunnelStatus::Failed;
                failed.last_error = Some(e.message.clone());
                failed.pid = None;
                SshService::record_tunnel(context, failed);
                SshService::attempt_failed(launch.run, e)
            },
        }
    }

    fn attempt_failed(run: TunnelRun, error: Failure) -> (r: Result<TunnelStep, Failure>)
        ensures
            after_failure(run, error, r),
    {
        if run.local_port == 0 && is_bind_failure(error.message.as_str()) && run.attempts > 1 {
            let mut run = run;
            run.attempts = run.attempts - 1;
            Ok(TunnelStep::ChoosePort(run))
        } else {
            Err(error)
        }
    }

    /// What it means that the program of a tunnel ended while it was looked at.
    pub fn tunnel_exit_at_start(tunnel: &SshTunnelSummary, output: &CommandOutput) -> (r: Result<
        (),
        Failure,
    >)
        ensures
            match r {
                Ok(_) => output.success,
                Err(e) => !output.success && e@ == tunnel_failure_text(*tunnel, *output),
            },
    {
        if output.success {
            Ok(())
        } else {
            Err(map_tunnel_failure(tunnel, output))
        }
    }

    /// Notes that the program of a tunnel has ended, where the tunnel is known.
    pub fn tunnel_exited(context: &mut AppContext, tunnel_id: &SshTunnelId, output: &CommandOutput)
        requires
            old(context).wf(),
        ensures
            final(context).wf(),
            brings_nothing_in(*old(context), *final(context)),
            ({
                let tunnels = old(context).ssh_registry.tunnels();
                let t = tunnels[tunnel_id@];
                if !tunnels.contains_key(tunnel_id@) {
                    *final(context) == *old(context)
                } else if output.success {
                    tunnel_recorded(
                        *old(context),
                        *final(context),
                        SshTunnelSummary {
                            status: SshTunnelStatus::Closed,
                            last_error: None,
                            pid: None,
                            ..t
                        },
                    )
                } else {
                    let f = final(context).ssh_registry.tunnels()[tunnel_id@];
                    &&& tunnel_recorded(*old(context), *final(context), f)
                    &&& is_failed_tunnel(f, t, tunnel_failure_text(t, *output))
                }
            }),
    {
        proof {
            context.ssh_registry.lemma_ids();
        }
        match context.ssh_registry.get_tunnel(tunnel_id) {
            None => {},
            Some(known) => {
                let mut tunnel = known;
                if output.success {
                    tunnel.status = SshTunnelStatus::Closed;
                    tunnel.last_error = None;
                } else {
                    let failure = map_tunnel_failure(&tunnel, output);
                    tunnel.status = SshTunnelStatus::Failed;
                    tunnel.last_error = Some(failure.message);
                }
                tunnel.pid = None;
                SshService::record_tunnel(context, tunnel);
            },
        }
    }

    /// Notes that the program of a tunnel could not be looked at, where the tunnel is
    /// known.
    pub fn tunnel_poll_failed(context: &mut AppContext, tunnel_id: &SshTunnelId, error: &str)
        requires
            old(context).wf(),
        ensures
            final(context).wf(),
            brings_nothing_in(*old(context), *final(context)),
            ({
                let tunnels = old(context).ssh_registry.tunnels();
                let f = final(context).ssh_registry.tunnels()[tunnel_id@];
                if !tunnels.contains_key(tunnel_id@) {
                    *final(context) == *old(context)
                } else {
                    &&& tunnel_recorded(*old(context), *final(context), f)
                    &&& is_failed_tunnel(
                        f,
                        tunnels[tunnel_id@],
                        "failed to poll ssh tunnel process: tunnel_id="@ + tunnel_id@ + " error="@
                            + error@,
                    )
                }
            }),
    {
        proof {
            context.ssh_registry.lemma_ids();
        }
        match context.ssh_registry.get_tunnel(tunnel_id) {
            None => {},
            Some(known) => {
                let mut tunnel = known;
                tunnel.status = SshTunnelStatus::Failed;
                tunnel.last_error = Some(
                    cat4(
                        "failed to poll ssh tunnel process: tunnel_id=",
                        tunnel_id.as_str(),
                        " error=",
                        error,
                    ),
                );
                tunnel.pid = None;
                SshService::record_tunnel(context, tunnel);
            },
        }
    }

    /// Begins to close a tunnel, which is recorded as closing.
    pub fn close_tunnel(context: &mut AppContext, request: &SshTunnelCloseRequest) -> (r: Result<
        TunnelCloseRun,
        Failure,
    >)
        requires
            old(context).wf(),
        ensures
            final(context).wf(),
            brings_nothing_in(*old(context), *final(context)),
            ({
                let tunnels = old(context).ssh_registry.tunnels();
                match r {
                    Ok(run) => {
                        &&& tunnels.contains_key(request.tunnel_id@)
                        &&& run.tunnel == tunnels[request.tunnel_id@]
                        &&& run.tunnel.tunnel_id@ == request.tunnel_id@
                        &&& run.force == request.force
                        &&& tunnel_recorded(
                            *old(context),
                            *final(context),
                            SshTunnelSummary { status: SshTunnelStatus::Closing, ..run.tunnel },
                        )
                    },
                    Err(e) => {
                        &&& !tunnels.contains_key(request.tunnel_id@)
                        &&& e@ == tunnel_not_found_text(request.tunnel_id@)
                        &&& *final(context) == *old(context)
                    },
                }
            }),
    {
        let tunnel = match context.ssh_registry.get_tunnel(&request.tunnel_id) {
            Some(t) => t,
            None => {
                return Err(
                    Failure::new(
                        cat2("ssh tunnel not found: tunnel_id=", request.tunnel_id.as_str()),
                    ),
                );
            },
        };
        proof {
            context.ssh_registry.lemma_ids();
        }
        let mut closing = tunnel.clone();
        closing.status = SshTunnelStatus::Closing;
        SshService::record_tunnel(context, closing);
        Ok(TunnelCloseRun { tunnel, force: request.force })
    }

    /// Goes on once the program of a tunnel was stopped, or could not be.
    pub fn tunnel_closed(context: &mut AppContext, run: TunnelCloseRun, outcome: Result<(), Failure>) -> (r:
        Result<SshTunnelCloseResult, Failure>)
        requires
            old(context).wf(),
        ensures
            final(context).wf(),
            brings_in_tunnel(*old(context), *final(context), run.tunnel.tunnel_id@),
            close_reported(*old(context), run, outcome, r, *final(context)),
    {
        proof {
            context.ssh_registry.lemma_ids();
        }
        match outcome {
            Ok(_) => {},
            Err(e) => {
                return Err(e);
            },
        }
        let previous_status = run.tunnel.status;
        let tunnel_id = run.tunnel.tunnel_id.clone();
        let mut closed = match context.ssh_registry.get_tunnel(&tunnel_id) {
            Some(t) => t,
            None => run.tunnel,
        };
        if previous_status == SshTunnelStatus::Failed || closed.status == SshTunnelStatus::Failed {
            closed.status = SshTunnelStatus::Failed;
        } else {
            closed.status = SshTunnelStatus::Closed;
            closed.last_error = None;
        }
        closed.pid = None;
        let current_status = closed.status;
        SshService::record_tunnel(context, closed);
        Ok(SshTunnelCloseResult { tunnel_id, previous_status, current_status })
    }
}

/// Whether a message tells of a local address that cannot be listened on.
pub fn is_bind_failure(message: &str) -> (r: bool)
    ensures
        r == tells_of_bind_failure(message@),
{
    let text = lowercase(message);
    let t = text.as_str();
    contains(t, "address already in use") || contains(t, "cannot listen") || contains(t, "bind")
        || contains(t, "port is unavailable")
}

/// The failure of a local port that is not free.
pub fn port_unavailable(bind_host: &str, port: u16, error: &str) -> (r: Failure)
    ensures
        r@ == "ssh tunnel local port is unavailable: bind_host="@ + bind_host@ + " local_port="@
            + decimal_text(port as nat) + " error="@ + error@,
{
    let p = decimal(port as u64);
    Failure::new(
        cat6(
            "ssh tunnel local port is unavailable: bind_host=",
            bind_host,
            " local_port=",
            p.as_str(),
            " error=",
            error,
        ),
    )
}

/// A tunnel that has failed keeps its status and its reason when it is closed, and
/// any other tunnel is closed without a reason.
pub proof fn law_closing_keeps_a_failure(t: SshTunnelSummary, previous: SshTunnelStatus)
    ensures
        previous == SshTunnelStatus::Failed || t.status == SshTunnelStatus::Failed ==> {
            &&& closed_now(t, previous).status == SshTunnelStatus::Failed
            &&& closed_now(t, previous).last_error == t.last_error
        },
        !(previous == SshTunnelStatus::Failed || t.status == SshTunnelStatus::Failed) ==> {
            &&& closed_now(t, previous).status == SshTunnelStatus::Closed
            &&& closed_now(t, previous).last_error is None
        },
        closed_now(t, previous).pid is None,
        closed_now(t, previous).tunnel_id == t.tunnel_id,
{
}

/// A failed tunnel that is closed from beginning to end is still recorded as failed,
/// with the reason that it had.
pub proof fn law_failed_tunnel_stays_failed(
    before: AppContext,
    closing: AppContext,
    run: TunnelCloseRun,
    r: Result<SshTunnelCloseResult, Failure>,
    after: AppContext,
)
    requires
        run.tunnel.status == SshTunnelStatus::Failed,
        tunnel_recorded(
            before,
            closing,
            SshTunnelSummary { status: SshTunnelStatus::Closing, ..run.tunnel },
        ),
        close_reported(closing, run, Ok(()), r, after),
    ensures
        after.ssh_registry.tunnels()[run.tunnel.tunnel_id@].status == SshTunnelStatus::Failed,
        after.ssh_registry.tunnels()[run.tunnel.tunnel_id@].last_error == run.tunnel.last_error,
        r->Ok_0.previous_status == SshTunnelStatus::Failed,
        r->Ok_0.current_status == SshTunnelStatus::Failed,
{
}

/// A fixed local port is tried once, and no attempt is made that was not announced:
/// each further attempt has one attempt less.
pub proof fn law_attempts_run_out(run: TunnelRun, e: Failure, r: Result<TunnelStep, Failure>)
    requires
        after_failure(run, e, r),
    ensures
        run.local_port != 0 ==> r is Err,
        run.attempts <= 1 ==> r is Err,
        r matches Ok(TunnelStep::ChoosePort(next)) ==> next.attempts == run.attempts - 1,
        r is Err ==> r == Err::<TunnelStep, Failure>(e),
{
}

/// Whether a host is the one that is asked for, without white space around it, or this
/// host where none is.
pub open spec fn is_host_asked(host: Seq<char>, asked: Option<String>) -> bool {
    &&& asked is Some && trimmed(asked->0@).len() > 0 ==> host == trimmed(asked->0@)
    &&& !(asked is Some && trimmed(asked->0@).len() > 0) ==> host == "127.0.0.1"@
}

proof fn lemma_host_asked(asked: Option<String>)
    ensures
        is_host_asked(trimmed(host_or_local(opt_text(asked))), asked),
        forall|h: Seq<char>| #[trigger]
            is_host_asked(h, asked) ==> h == trimmed(host_or_local(opt_text(asked))),
{
    reveal_strlit("127.0.0.1");
    let local = "127.0.0.1"@;
    assert(trimmed(local) =~= local);
    if asked is Some {
        lemma_trimmed_twice(asked->0@);
    }
}

/// Whether a tunnel of a connection has the ends that a request asks for and is open or
/// about to be.
pub open spec fn is_tunnel_asked(t: SshTunnelSummary, request: SshTunnelOpenRequest) -> bool {
    &&& t.connection_id@ == request.connection_id@
    &&& is_host_asked(t.bind_host@, request.bind_host)
    &&& t.local_port == request.local_port
    &&& is_host_asked(t.remote_host@, request.remote_host)
    &&& t.remote_port == request.remote_port
    &&& t.status == SshTunnelStatus::Opening || t.status == SshTunnelStatus::Active
}

/// Whether a run opens a tunnel with the ends that a request asks for, over its
/// connection in the way that this was made.
pub open spec fn runs_tunnel_asked(
    before: AppContext,
    request: SshTunnelOpenRequest,
    run: TunnelRun,
) -> bool {
    let known = before.ssh_registry.connections();
    &&& known.contains_key(request.connection_id@)
    &&& run.connection == known[request.connection_id@]
    &&& run.connection.status == SshConnectionStatus::Ready || run.connection.status
        == SshConnectionStatus::Degraded
    &&& is_used_as_made(
        before,
        run.connection,
        run.made.auth_kind,
        opt_text(run.made.identity_path),
        run.made.verify_host_key,
    )
    &&& is_host_asked(run.bind_host@, request.bind_host)
    &&& run.local_port == request.local_port
    &&& is_host_asked(run.remote_host@, request.remote_host)
    &&& run.remote_port == request.remote_port
    &&& run.title == request.title
}

/// Whether the first step of opening a tunnel leads to what is asked for: a tunnel that
/// is used again has the very ends of the request, and a new one is opened only where
/// there is none such.
pub open spec fn opens_as_asked(
    before: AppContext,
    request: SshTunnelOpenRequest,
    step: TunnelStep,
) -> bool {
    let tunnels = before.ssh_registry.tunnels();
    let none = forall|k: Seq<char>| #[trigger]
        tunnels.contains_key(k) ==> !is_tunnel_asked(tunnels[k], request);
    match step {
        TunnelStep::Done(done) => {
            &&& done.reused
            &&& is_tunnel_asked(done.tunnel, request)
            &&& tunnels.contains_key(done.tunnel.tunnel_id@)
            &&& tunnels[done.tunnel.tunnel_id@] == done.tunnel
        },
        TunnelStep::ChoosePort(run) => {
            &&& none
            &&& request.local_port == 0
            &&& run.attempts == 5
            &&& runs_tunnel_asked(before, request, run)
        },
        TunnelStep::CheckPort(run) => {
            &&& none
            &&& request.local_port != 0
            &&& run.attempts == 1
            &&& runs_tunnel_asked(before, request, run)
        },
    }
}

/// Opening a tunnel leads to what is asked for.
pub proof fn law_tunnel_opens_as_asked(
    before: AppContext,
    request: SshTunnelOpenRequest,
    host: HostFiles,
    step: TunnelStep,
    after: AppContext,
)
    requires
        open_begun(before, request, host, Ok(step), after),
    ensures
        opens_as_asked(before, request, step),
        after.ssh_registry.tunnels() == before.ssh_registry.tunnels(),
{
    let id = request.connection_id@;
    let tunnels = before.ssh_registry.tunnels();
    let b = trimmed(host_or_local(opt_text(request.bind_host)));
    let h = trimmed(host_or_local(opt_text(request.remote_host)));
    lemma_host_asked(request.bind_host);
    lemma_host_asked(request.remote_host);
    law_only_ready_connections_are_used(
        before.ssh_registry.connections(),
        id,
        "opening tunnel"@,
    );
    law_connection_is_used_as_it_was_made(before, before.ssh_registry.connections()[id]);
    if !(step is Done) {
        assert forall|k: Seq<char>| #[trigger] tunnels.contains_key(k) implies !is_tunnel_asked(
            tunnels[k],
            request,
        ) by {
            if is_tunnel_asked(tunnels[k], request) {
                assert(tunnels_of(tunnels, id).contains(k));
                assert(tunnel_serves(tunnels[k], b, request.local_port, h, request.remote_port));
            }
        }
    } else {
        let t = step->Done_0.tunnel;
        assert(tunnels_of(tunnels, id).contains(t.tunnel_id@));
    }
}

/// Whether a tunnel is started as it is asked for: `ssh` forwards from the local port to
/// the remote end, over the connection; the tunnel is recorded as about to be opened.
pub open spec fn starts_tunnel_as_asked(
    run: TunnelRun,
    port: u16,
    launch: TunnelLaunch,
    after: AppContext,
) -> bool {
    let t = launch.tunnel;
    let ends = ":"@ + decimal_text(port as nat) + ":"@ + run.remote_host@ + ":"@ + decimal_text(
        run.remote_port as nat,
    );
    &&& !run.bind_host@.contains(':') ==> tunnel_is_asked_for(
        texts(launch.plan.args@),
        run.connection.target@,
        run.made.auth_kind,
        opt_text(run.made.identity_path),
        run.made.verify_host_key,
        run.bind_host@ + ends,
    )
    &&& run.bind_host@.contains(':') ==> tunnel_is_asked_for(
        texts(launch.plan.args@),
        run.connection.target@,
        run.made.auth_kind,
        opt_text(run.made.identity_path),
        run.made.verify_host_key,
        "["@ + run.bind_host@ + "]"@ + ends,
    )
    &&& t.connection_id == run.connection.connection_id
    &&& t.kind == SshTunnelKind::LocalForward
    &&& t.status == SshTunnelStatus::Opening
    &&& t.bind_host == run.bind_host
    &&& t.local_port == port
    &&& t.remote_host == run.remote_host
    &&& t.remote_port == run.remote_port
    &&& t.title == run.title
    &&& t.pid is None
    &&& after.ssh_registry.tunnels().contains_key(t.tunnel_id@)
    &&& after.ssh_registry.tunnels()[t.tunnel_id@] == t
}

/// A tunnel is started from the port that was found to the remote end of its run.
pub proof fn law_tunnel_starts_as_asked(
    before: AppContext,
    run: TunnelRun,
    port: Result<u16, Failure>,
    host: HostFiles,
    launch: TunnelLaunch,
    after: AppContext,
)
    requires
        attempt_made(before, run, port, host, Ok(launch), after),
    ensures
        port is Ok,
        starts_tunnel_as_asked(run, port->Ok_0, launch, after),
        launch.run == run,
{
    let p = port->Ok_0;
    let forward = forward_text(run.bind_host@, p, run.remote_host@, run.remote_port);
    law_forward_names_both_ends(run.bind_host@, p, run.remote_host@, run.remote_port);
    law_tunnel_forwards_what_is_asked(
        run.connection.target@,
        run.made.auth_kind,
        opt_text(run.made.identity_path),
        run.made.verify_host_key,
        forward,
    );
    let ends = ":"@ + decimal_text(p as nat) + ":"@ + run.remote_host@ + ":"@ + decimal_text(
        run.remote_port as nat,
    );
    if run.bind_host@.contains(':') {
        assert(forward =~= "["@ + run.bind_host@ + "]"@ + ends);
    } else {
        assert(forward =~= run.bind_host@ + ends);
    }
}

/// A tunnel whose program runs is open, with its process; one whose program has ended has
/// failed, with the reason; another port is tried only where any will do, the last one
/// could not be listened on, and attempts are left.
pub proof fn law_running_tunnels_are_open(
    before: AppContext,
    launch: TunnelLaunch,
    start: TunnelStart,
    r: Result<TunnelStep, Failure>,
    after: AppContext,
)
    requires
        start_reported(before, launch, start, r, after),
    ensures
        ({
            let id = launch.tunnel.tunnel_id@;
            let t = after.ssh_registry.tunnels()[id];
            let why = match start {
                TunnelStart::NotStarted(e) => e@,
                TunnelStart::Ended(e) => e@,
                TunnelStart::Running { .. } => seq![],
            };
            &&& start matches TunnelStart::Running { pid } ==> {
                &&& r matches Ok(TunnelStep::Done(done))
                &&& !done.reused
                &&& done.tunnel == t
                &&& t.status == SshTunnelStatus::Active
                &&& t.pid == pid
                &&& t.last_error is None
                &&& t.local_port == launch.tunnel.local_port
                &&& t.remote_port == launch.tunnel.remote_port
                &&& t.connection_id == launch.tunnel.connection_id
            }
            &&& start matches TunnelStart::Ended(e) ==> {
                &&& t.status == SshTunnelStatus::Failed
                &&& t.last_error is Some && t.last_error->0@ == e@
                &&& t.pid is None
            }
            &&& start is NotStarted ==> after == before
            &&& !(start is Running) ==> {
                let again = launch.run.local_port == 0 && tells_of_bind_failure(why)
                    && launch.run.attempts > 1;
                &&& !again ==> r is Err && r->Err_0@ == why
                &&& again ==> {
                    &&& r matches Ok(TunnelStep::ChoosePort(next))
                    &&& next.attempts == launch.run.attempts - 1
                    &&& next.bind_host == launch.run.bind_host
                    &&& next.remote_host == launch.run.remote_host
                    &&& next.remote_port == launch.run.remote_port
                    &&& next.connection == launch.run.connection
                    &&& next.made == launch.run.made
                }
            }
        }),
{
}

/// Whether one of the phrases that tell of a port which cannot be listened on stands at a
/// place of a message, whatever the case of its letters.
pub open spec fn phrase_stands_at(message: Seq<char>, i: int) -> bool {
    let t = lowered(message);
    ||| occurs_at(t, "address already in use"@, i)
    ||| occurs_at(t, "cannot listen"@, i)
    ||| occurs_at(t, "bind"@, i)
    ||| occurs_at(t, "port is unavailable"@, i)
}

/// A message tells that a port cannot be listened on where it holds one of four phrases,
/// whatever the case of its letters.
pub proof fn law_bind_failures_are_told_by_phrases(message: Seq<char>)
    ensures
        tells_of_bind_failure(message) <==> exists|i: int| #[trigger] phrase_stands_at(message, i),
{
    let t = lowered(message);
    assert(t.len() == message.len());
    law_search_finds_the_first(t, "address already in use"@, 0);
    law_search_finds_the_first(t, "cannot listen"@, 0);
    law_search_finds_the_first(t, "bind"@, 0);
    law_search_finds_the_first(t, "port is unavailable"@, 0);
    if tells_of_bind_failure(message) {
        let phrase = if has_part(t, "address already in use"@) {
            "address already in use"@
        } else if has_part(t, "cannot listen"@) {
            "cannot listen"@
        } else if has_part(t, "bind"@) {
            "bind"@
        } else {
            "port is unavailable"@
        };
        assert(phrase_stands_at(message, find_from(t, phrase, 0)->0));
    }
}

/// A tunnel that was started is looked at eight times, fifty milliseconds apart; one that
/// is asked to end has two seconds for it; and a port is chosen five times at most.
pub proof fn law_tunnel_patience()
    ensures
        TUNNEL_START_CHECK_ATTEMPTS == 8,
        TUNNEL_START_CHECK_INTERVAL_MS == 50,
        TUNNEL_TERM_WAIT_MS == 2000,
        TUNNEL_PORT_ATTEMPTS == 5,
{
}

/// A tunnel whose program was stopped is recorded as closed, without a process, or stays
/// failed; where it could not be stopped nothing changes.
pub proof fn law_stopped_tunnels_are_closed(
    before: AppContext,
    run: TunnelCloseRun,
    outcome: Result<(), Failure>,
    r: Result<SshTunnelCloseResult, Failure>,
    after: AppContext,
)
    requires
        before.ssh_registry.wf(),
        close_reported(before, run, outcome, r, after),
    ensures
        ({
            let id = run.tunnel.tunnel_id@;
            let known = before.ssh_registry.tunnels();
            let t = after.ssh_registry.tunnels()[id];
            let failed = run.tunnel.status == SshTunnelStatus::Failed || (known.contains_key(id)
                && known[id].status == SshTunnelStatus::Failed);
            &&& outcome is Err ==> r is Err && r->Err_0 == outcome->Err_0 && after == before
            &&& outcome is Ok ==> {
                &&& r matches Ok(done)
                &&& done.tunnel_id@ == id
                &&& done.previous_status == run.tunnel.status
                &&& done.current_status == t.status
                &&& after.ssh_registry.tunnels().contains_key(id)
                &&& t.pid is None
                &&& failed ==> t.status == SshTunnelStatus::Failed
                &&& !failed ==> t.status == SshTunnelStatus::Closed && t.last_error is None
            }
        }),
{
    before.ssh_registry.lemma_ids();
}

/// A tunnel is launched exactly where a port was found and `ssh` is there, which is then
/// what runs; where it is not there, the tunnel is recorded all the same.
pub proof fn law_tunnels_run_ssh(
    before: AppContext,
    run: TunnelRun,
    port: Result<u16, Failure>,
    host: HostFiles,
    r: Result<TunnelLaunch, Failure>,
    after: AppContext,
)
    requires
        attempt_made(before, run, port, host, r, after),
    ensures
        r is Ok <==> port is Ok && crate::config::is_known_file(host, run.ssh_bin@),
        r is Ok ==> r->Ok_0.plan.command@ == run.ssh_bin@ && is_new_id(
            "sshtun_"@,
            r->Ok_0.tunnel.tunnel_id@,
        ),
        port is Err ==> after == before && r->Err_0 == port->Err_0,
        after.ssh_registry.mounts() == before.ssh_registry.mounts(),
        after.ssh_registry.links() == before.ssh_registry.links(),
        after.registry == before.registry,
{
}

/// A request for a tunnel that fails changes nothing, and one that a tunnel serves already
/// only uses its connection. A tunnel that is to be opened is opened by the `ssh` of the
/// application; its port is chosen, in a few attempts, exactly where none is asked for.
pub proof fn law_tunnel_requests_change_little(
    before: AppContext,
    request: SshTunnelOpenRequest,
    host: HostFiles,
    r: Result<TunnelStep, Failure>,
    after: AppContext,
    k: Seq<char>,
)
    requires
        open_begun(before, request, host, r, after),
    ensures
        r is Err ==> after == before,
        readiness_refusal(
            before.ssh_registry.connections(),
            request.connection_id@,
            "opening tunnel"@,
        ) is None && tunnel_refusal(
            before.ssh_config@,
            host_or_local(opt_text(request.bind_host)),
            request.local_port,
            host_or_local(opt_text(request.remote_host)),
            request.remote_port,
        ) is None && tunnels_of(
            before.ssh_registry.tunnels(),
            request.connection_id@,
        ).contains(k) && tunnel_serves(
            before.ssh_registry.tunnels()[k],
            trimmed(host_or_local(opt_text(request.bind_host))),
            request.local_port,
            trimmed(host_or_local(opt_text(request.remote_host))),
            request.remote_port,
        ) ==> r is Ok && r->Ok_0 is Done,
        after.registry == before.registry,
        after.connection_contexts == before.connection_contexts,
        after.mount_contexts == before.mount_contexts,
        after.ssh_registry.mounts() == before.ssh_registry.mounts(),
        after.ssh_registry.tunnels() == before.ssh_registry.tunnels(),
        after.ssh_registry.links() == before.ssh_registry.links(),
        r is Ok && r->Ok_0 is Done ==> r->Ok_0->Done_0.reused,
        r is Ok && r->Ok_0 is ChoosePort ==> {
            &&& after == before
            &&& request.local_port == 0
            &&& r->Ok_0->ChoosePort_0.attempts == TUNNEL_PORT_ATTEMPTS
            &&& ssh_path(before, host) == Some(r->Ok_0->ChoosePort_0.ssh_bin@)
        },
        r is Ok && r->Ok_0 is CheckPort ==> {
            &&& after == before
            &&& request.local_port != 0
            &&& r->Ok_0->CheckPort_0.attempts == 1
            &&& ssh_path(before, host) == Some(r->Ok_0->CheckPort_0.ssh_bin@)
        },
{
}

} // verus!
