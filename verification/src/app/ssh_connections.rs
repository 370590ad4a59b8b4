//! Making and ending SSH connections.
use super::context::{brings_nothing_in, ssh_path, AppContext, SshConnectionRuntimeContext};
use super::support::{describe, described};
use super::types::{
    SshConnectRequest, SshConnectResult, SshDisconnectRequest, SshDisconnectResult, SshListResult,
    SshUnmountRequest,
};
use crate::config::HostFiles;
use crate::error::Failure;
use crate::ordered::{lemma_sorted_distinct, lists_in_order};
use crate::outside::is_new_id;
use crate::session::model::{id_texts, status_is_live, SessionId, SessionStatus, SessionSummary};
use crate::session::registry::SessionEntry;
use crate::ssh::guard::{connect_refusal, identity_of, SshConnectValidationInput};
use crate::ssh::model::{
    capability_debug, connection_status_name, opt_str, target_summary, SshAuthKind,
    SshCapabilityView, SshConnectionId, SshConnectionStatus, SshConnectionSummary, SshMountId,
    SshMountStatus, SshMountSummary, SshTarget, TargetText,
};
use crate::ssh::registry::{
    active_mounts, connection_not_found_text, disconnect_refusal, law_use_is_noted_of_one_connection,
    linked, mount_id_texts, mount_is_active, mounted, recounted, ssh_connection_not_found, used_and_recounted,
    without_links, without_mounts,
};
use crate::ssh::runtime::{
    binary_refusal, exit_text, given, given_str, is_command, law_target_is_tried_where_it_is,
    patience_ms, target_is_tried, verify_args, CommandOutput, CommandPlan,
    SshConnectVerificationRequest, DEFAULT_CONNECT_TIMEOUT_SECS,
};
use crate::text::{
    cat2, cat4, cat5, clone_opt, decimal, decimal_text, opt_text, same, texts, trimmed,
};
use crate::timestamp::Timestamp;
use vstd::prelude::*;

verus! {

/// The SSH part of the application.
pub struct SshService;

/// Whether mounts can be made: `sshfs` and `umount` are there and, on macOS, the
/// FUSE provider is too.
pub open spec fn can_mount(c: SshCapabilityView) -> bool {
    c.sshfs.available && c.unmount.available && (c.platform@ != "macos"@ || (c.macfuse is Some
        && c.macfuse->0.available))
}

/// Whether mounts can be made.
pub fn mount_feature_available_for(capabilities: &SshCapabilityView) -> (r: bool)
    ensures
        r == can_mount(*capabilities),
{
    let provider = match &capabilities.macfuse {
        Some(m) => m.available,
        None => false,
    };
    capabilities.sshfs.available && capabilities.unmount.available && (!same(
        capabilities.platform.as_str(),
        "macos",
    ) || provider)
}

/// The target that a request means: the alias stands for the host where no host
/// is given.
pub open spec fn wanted_target(r: SshConnectRequest) -> TargetText {
    let alias = given(opt_text(r.host_alias));
    TargetText {
        host_alias: alias,
        host: match given(opt_text(r.host)) {
            Some(h) => h,
            None => match alias {
                Some(a) => a,
                None => ""@,
            },
        },
        user: given(opt_text(r.user)),
        port: r.port,
    }
}

fn owned(o: Option<&str>) -> (r: Option<String>)
    ensures
        opt_text(r) == match o {
            Some(s) => Some(s@),
            None => None,
        },
{
    match o {
        Some(s) => Some(s.to_owned()),
        None => None,
    }
}

fn target_of(request: &SshConnectRequest) -> (r: SshTarget)
    ensures
        r@ == wanted_target(*request),
{
    let alias = owned(given_str(&request.host_alias));
    let host = match given_str(&request.host) {
        Some(h) => h.to_owned(),
        None => match &alias {
            Some(a) => a.clone(),
            None => "".to_owned(),
        },
    };
    SshTarget {
        host_alias: alias,
        host,
        user: owned(given_str(&request.user)),
        port: request.port,
    }
}

/// Whether a connection serves a request: it leads to the target in the asked way
/// and has not ended.
pub open spec fn serves(c: SshConnectionSummary, target: TargetText, kind: SshAuthKind) -> bool {
    &&& c.target@ == target
    &&& c.auth_kind == Some(kind)
    &&& c.status != SshConnectionStatus::Disconnected
    &&& c.status != SshConnectionStatus::Failed
}

/// The first of the connections that serves a request.
pub open spec fn first_serving(
    list: Seq<SshConnectionSummary>,
    target: TargetText,
    kind: SshAuthKind,
) -> Option<SshConnectionSummary>
    decreases list.len(),
{
    if list.len() == 0 {
        None
    } else if serves(list[0], target, kind) {
        Some(list[0])
    } else {
        first_serving(list.drop_first(), target, kind)
    }
}

/// The connections of the application, in the order of their identifiers.
pub open spec fn connection_list(context: AppContext) -> Seq<SshConnectionSummary> {
    context.ssh_registry.connection_ids().map_values(
        |k: Seq<char>| context.ssh_registry.connections()[k],
    )
}

/// A connection that is being made.
#[derive(Debug, PartialEq, Eq)]
pub struct ConnectRun {
    pub target: SshTarget,
    pub auth_kind: SshAuthKind,
    pub identity_path: Option<String>,
    pub verify_host_key: bool,
    pub title: Option<String>,
    pub description: Option<String>,
}

/// What making a connection asks for next.
#[derive(Debug, PartialEq, Eq)]
pub enum ConnectStep {
    /// A connection that is there already serves.
    Reused(SshConnectResult),
    /// Run the command that tries the target, then report with
    /// `connect_verified`.
    Verify { plan: CommandPlan, run: ConnectRun },
}

/// Says that there is no `ssh`.
pub open spec fn no_ssh_text(c: SshCapabilityView) -> Seq<char> {
    "ssh capability is unavailable on this host: capabilities="@ + capability_debug(c)
}

/// Why a connection is refused before anything is looked up, if it is.
pub open spec fn connect_is_refused(context: AppContext, r: SshConnectRequest) -> Option<Seq<char>> {
    if !context.ssh_capabilities.ssh.available {
        Some(no_ssh_text(context.ssh_capabilities))
    } else {
        connect_refusal(
            context.ssh_guard@,
            context.ssh_config@,
            wanted_target(r),
            r.auth_kind,
            opt_text(r.identity_path),
        )
    }
}

/// The identity file that an accepted request names.
pub open spec fn wanted_identity(r: SshConnectRequest) -> Option<Seq<char>> {
    identity_of(r.auth_kind, opt_text(r.identity_path))->Ok_0
}

/// Whether a connection was made in the way that a request asks for.
pub open spec fn made_as_asked(c: SshConnectionRuntimeContext, r: SshConnectRequest) -> bool {
    &&& c.auth_kind == r.auth_kind
    &&& opt_text(c.identity_path) == wanted_identity(r)
    &&& c.verify_host_key == r.verify_host_key
}

/// The description of a connection that is asked for: the one that is given, or else
/// one that names the target.
pub open spec fn usual_description(request: SshConnectRequest) -> Option<Seq<char>> {
    Some(
        described(
            opt_text(request.description),
            "SSH connection: "@ + target_summary(wanted_target(request)),
        ),
    )
}

/// What the first step of making a connection does, which is to have a description.
pub open spec fn connect_begun(
    before: AppContext,
    request: SshConnectRequest,
    description: Option<Seq<char>>,
    host: HostFiles,
    r: Result<ConnectStep, Failure>,
    after: AppContext,
) -> bool {
    let target = wanted_target(request);
    let found = first_serving(connection_list(before), target, request.auth_kind);
    let ssh = ssh_path(before, host);
    if connect_is_refused(before, request) is Some {
        &&& r matches Err(e)
        &&& connect_is_refused(before, request) == Some(e@)
        &&& after == before
    } else if found is Some {
        let id = found->0.connection_id@;
        &&& r matches Ok(ConnectStep::Reused(done))
        &&& done.reused
        &&& after == (AppContext {
            ssh_registry: after.ssh_registry,
            connection_contexts: after.connection_contexts,
            ..before
        })
        &&& after.ssh_registry.mounts() == before.ssh_registry.mounts()
        &&& after.ssh_registry.tunnels() == before.ssh_registry.tunnels()
        &&& after.ssh_registry.links() == before.ssh_registry.links()
        &&& used_and_recounted(
            before.ssh_registry.connections(),
            id,
            before.ssh_registry.links(),
            before.ssh_registry.mounts(),
            after.ssh_registry.connections(),
        )
        &&& done.connection == after.ssh_registry.connections()[id]
        &&& after.connection_contexts@ == before.connection_contexts@.insert(
            id,
            after.connection_contexts@[id],
        )
        &&& made_as_asked(after.connection_contexts@[id], request)
    } else if ssh is None {
        &&& r matches Err(e)
        &&& e@ == "ssh binary path could not be resolved"@
        &&& after == before
    } else if binary_refusal("ssh"@, ssh, crate::config::is_known_file(host, ssh->0)) is Some {
        &&& r matches Err(e)
        &&& binary_refusal("ssh"@, ssh, crate::config::is_known_file(host, ssh->0)) == Some(e@)
        &&& after == before
    } else {
        &&& r matches Ok(ConnectStep::Verify { plan, run })
        &&& after == before
        &&& run.target@ == target
        &&& run.auth_kind == request.auth_kind
        &&& opt_text(run.identity_path) == wanted_identity(request)
        &&& run.verify_host_key == request.verify_host_key
        &&& run.title == request.title
        &&& opt_text(run.description) == description
        &&& is_command(
            plan,
            ssh->0,
            verify_args(
                target,
                request.auth_kind,
                wanted_identity(request),
                request.verify_host_key,
                DEFAULT_CONNECT_TIMEOUT_SECS,
            ),
            patience_ms(DEFAULT_CONNECT_TIMEOUT_SECS),
            "ssh verification timed out"@,
            "ssh verification task failed"@,
            "failed to execute ssh verification command"@,
            None,
        )
    }
}

/// Whether a summary is that of a connection that was just made.
pub open spec fn is_new_connection(
    c: SshConnectionSummary,
    run: ConnectRun,
    mounts: bool,
) -> bool {
    &&& is_new_id("sshconn_"@, c.connection_id@)
    &&& c.title == run.title
    &&& c.description == run.description
    &&& c.status == if mounts {
        SshConnectionStatus::Ready
    } else {
        SshConnectionStatus::Degraded
    }
    &&& c.target == run.target
    &&& c.target_summary@ == target_summary(run.target@)
    &&& c.auth_kind == Some(run.auth_kind)
    &&& c.last_used_at is Some
    &&& c.metadata@.len() == 0
}

/// What making a connection does once the target was tried.
pub open spec fn connect_finished(
    before: AppContext,
    run: ConnectRun,
    outcome: Result<CommandOutput, Failure>,
    r: Result<SshConnectResult, Failure>,
    after: AppContext,
) -> bool {
    match outcome {
        Err(failure) => r == Err::<SshConnectResult, Failure>(failure) && after == before,
        Ok(output) => if !output.success {
            &&& r matches Err(e)
            &&& e@ == "ssh connection verification failed: target="@ + target_summary(run.target@)
                + exit_text(output)
            &&& after == before
        } else {
            &&& r matches Ok(done)
            &&& !done.reused
            &&& is_new_connection(done.connection, run, can_mount(before.ssh_capabilities))
            &&& done.connection == recounted(
                done.connection,
                before.ssh_registry.links(),
                before.ssh_registry.mounts(),
            )
            &&& after == (AppContext {
                ssh_registry: after.ssh_registry,
                connection_contexts: after.connection_contexts,
                ..before
            })
            &&& after.ssh_registry.mounts() == before.ssh_registry.mounts()
            &&& after.ssh_registry.tunnels() == before.ssh_registry.tunnels()
            &&& after.ssh_registry.links() == before.ssh_registry.links()
            &&& after.ssh_registry.connections() == before.ssh_registry.connections().insert(
                done.connection.connection_id@,
                done.connection,
            )
            &&& after.connection_contexts@ == before.connection_contexts@.insert(
                done.connection.connection_id@,
                SshConnectionRuntimeContext {
                    auth_kind: run.auth_kind,
                    identity_path: run.identity_path,
                    verify_host_key: run.verify_host_key,
                },
            )
        },
    }
}

/// Says that a connection is not ready.
pub open spec fn not_ready_text(action: Seq<char>, id: Seq<char>, status: SshConnectionStatus) -> Seq<
    char,
> {
    "ssh connection is not ready for "@ + action + ": connection_id="@ + id + (" status="@
        + connection_status_name(status))
}

/// Whether a connection is ready.
pub open spec fn is_ready(status: SshConnectionStatus) -> bool {
    status == SshConnectionStatus::Ready || status == SshConnectionStatus::Degraded
}

/// Why a connection cannot be used for an action, if it cannot.
pub open spec fn readiness_refusal(
    connections: Map<Seq<char>, SshConnectionSummary>,
    id: Seq<char>,
    action: Seq<char>,
) -> Option<Seq<char>> {
    if !connections.contains_key(id) {
        Some(connection_not_found_text(id))
    } else if !is_ready(connections[id].status) {
        Some(not_ready_text(action, id, connections[id].status))
    } else {
        None
    }
}

/// Whether a session still holds on to its connection.
pub open spec fn holds_on(s: SessionSummary) -> bool {
    status_is_live(s.status) && s.exit_info is None
}

/// The link of a session, where it has one.
pub open spec fn link_of(links: Map<Seq<char>, Seq<char>>, s: Seq<char>) -> Option<Seq<char>> {
    if links.contains_key(s) {
        Some(links[s])
    } else {
        None
    }
}

/// The link that a session should have: none where it is not known or over; that
/// to its connection where it holds on to one; and the one it has where it knows
/// of no connection.
pub open spec fn due_link(
    links: Map<Seq<char>, Seq<char>>,
    sessions: Map<Seq<char>, SessionEntry>,
    s: Seq<char>,
) -> Option<Seq<char>> {
    if !sessions.contains_key(s) {
        None
    } else {
        match sessions[s].summary.connection_id {
            None => link_of(links, s),
            Some(c) => if holds_on(sessions[s].summary) {
                Some(c@)
            } else {
                None
            },
        }
    }
}

/// The links once those of some sessions were brought up to date.
pub open spec fn updated_links(
    links: Map<Seq<char>, Seq<char>>,
    sessions: Map<Seq<char>, SessionEntry>,
    some: Set<Seq<char>>,
) -> Map<Seq<char>, Seq<char>> {
    Map::new(
        |s: Seq<char>|
            if some.contains(s) {
                due_link(links, sessions, s) is Some
            } else {
                links.contains_key(s)
            },
        |s: Seq<char>|
            if some.contains(s) {
                due_link(links, sessions, s)->0
            } else {
                links[s]
            },
    )
}

/// Whether two summaries of a connection differ at most in its counts and, where it
/// was used, in the moment of that use.
pub open spec fn same_but_use(a: SshConnectionSummary, used: bool, b: SshConnectionSummary) -> bool {
    &&& b == (SshConnectionSummary {
        last_used_at: b.last_used_at,
        active_session_count: b.active_session_count,
        active_mount_count: b.active_mount_count,
        ..a
    })
    &&& if used {
        b.last_used_at is Some
    } else {
        b.last_used_at == a.last_used_at
    }
}

/// Whether connections differ at most in their counts and in that some of them were
/// used.
pub open spec fn only_use_changed(
    before: Map<Seq<char>, SshConnectionSummary>,
    used: Set<Seq<char>>,
    after: Map<Seq<char>, SshConnectionSummary>,
) -> bool {
    &&& after.dom() == before.dom()
    &&& forall|k: Seq<char>| #[trigger]
        after.contains_key(k) ==> same_but_use(before[k], used.contains(k), after[k])
}

/// Whether, beside the use of connections, only the status of one of them has
/// changed, which counts as a use of it.
pub open spec fn status_was_set(
    before: Map<Seq<char>, SshConnectionSummary>,
    used: Set<Seq<char>>,
    after: Map<Seq<char>, SshConnectionSummary>,
    id: Seq<char>,
    status: SshConnectionStatus,
) -> bool {
    &&& after.dom() == before.dom()
    &&& forall|k: Seq<char>| #[trigger]
        after.contains_key(k) ==> same_but_use(
            if k == id {
                SshConnectionSummary { status, ..before[k] }
            } else {
                before[k]
            },
            k == id || used.contains(k),
            after[k],
        )
}

/// Whether a change of links uses a connection for a session: the one that the
/// session is linked to now, or else the one that it was linked to.
pub open spec fn relinks(
    before: Map<Seq<char>, Seq<char>>,
    after: Map<Seq<char>, Seq<char>>,
    session: Seq<char>,
    connection: Seq<char>,
) -> bool {
    &&& link_of(before, session) != link_of(after, session)
    &&& connection == if after.contains_key(session) {
        after[session]
    } else {
        before[session]
    }
}

/// The connections that a change of links uses.
pub open spec fn relinked(
    before: Map<Seq<char>, Seq<char>>,
    after: Map<Seq<char>, Seq<char>>,
) -> Set<Seq<char>> {
    Set::new(|c: Seq<char>| exists|s: Seq<char>| #[trigger] relinks(before, after, s, c))
}

/// Whether only the links, and with them the use of the connections that they
/// concern, have changed.
pub open spec fn only_links_changed(
    before: AppContext,
    after: AppContext,
    links: Map<Seq<char>, Seq<char>>,
) -> bool {
    &&& after == (AppContext { ssh_registry: after.ssh_registry, ..before })
    &&& after.ssh_registry.mounts() == before.ssh_registry.mounts()
    &&& after.ssh_registry.tunnels() == before.ssh_registry.tunnels()
    &&& after.ssh_registry.links() == links
    &&& only_use_changed(
        before.ssh_registry.connections(),
        relinked(before.ssh_registry.links(), links),
        after.ssh_registry.connections(),
    )
}

/// Whether only the status of one connection, and with it its use, has changed in
/// the application.
pub open spec fn only_status_set(
    before: AppContext,
    after: AppContext,
    id: Seq<char>,
    status: SshConnectionStatus,
) -> bool {
    &&& after == (AppContext { ssh_registry: after.ssh_registry, ..before })
    &&& after.ssh_registry.mounts() == before.ssh_registry.mounts()
    &&& after.ssh_registry.tunnels() == before.ssh_registry.tunnels()
    &&& after.ssh_registry.links() == before.ssh_registry.links()
    &&& status_was_set(
        before.ssh_registry.connections(),
        Set::empty(),
        after.ssh_registry.connections(),
        id,
        status,
    )
}

/// A connection that is being ended.
#[derive(Debug, PartialEq, Eq)]
pub struct DisconnectRun {
    pub connection_id: SshConnectionId,
    pub force: bool,
    pub cleanup_mounts: bool,
    pub previous_status: SshConnectionStatus,
    pub mounts: Vec<SshMountId>,
    pub sessions: Vec<SessionId>,
    pub closed_mounts: usize,
    pub closed_sessions: usize,
}

impl DisconnectRun {
    /// What is closed and what is left to close can be counted.
    pub open spec fn wf(&self) -> bool {
        &&& self.closed_mounts + self.mounts.len() <= usize::MAX
        &&& self.closed_sessions + self.sessions.len() <= usize::MAX
    }

    /// What is left to close belonged to the connection when the run began.
    pub open spec fn closes_own(&self, began: AppContext) -> bool {
        &&& forall|m: Seq<char>| #[trigger]
            mount_id_texts(self.mounts@).contains(m) ==> mounted(
                began.ssh_registry.mounts(),
                self.connection_id@,
            ).contains(m)
        &&& forall|s: Seq<char>| #[trigger]
            id_texts(self.sessions@).contains(s) ==> linked(
                began.ssh_registry.links(),
                self.connection_id@,
            ).contains(s)
    }
}

/// What ending a connection asks for next.
#[derive(Debug, PartialEq, Eq)]
pub enum DisconnectStep {
    /// Take a mount away, then report with `disconnect_unmounted`.
    Unmount { unmount: SshUnmountRequest, run: DisconnectRun },
    /// Kill a session and take it out, then report with `disconnect_killed`.
    Kill { session_id: SessionId, run: DisconnectRun },
    /// The connection has ended.
    Done(SshDisconnectResult),
}

/// Whether a step of ending a connection closes what belonged to the connection when
/// the run began, and leaves nothing else to close.
pub open spec fn step_closes_own(step: DisconnectStep, began: AppContext) -> bool {
    match step {
        DisconnectStep::Unmount { unmount, run } => {
            &&& mounted(began.ssh_registry.mounts(), run.connection_id@).contains(unmount.mount_id@)
            &&& run.closes_own(began)
        },
        DisconnectStep::Kill { session_id, run } => {
            &&& linked(began.ssh_registry.links(), run.connection_id@).contains(session_id@)
            &&& run.closes_own(began)
        },
        DisconnectStep::Done(_) => true,
    }
}

/// Whether a run is the one that follows a step that went well.
pub open spec fn run_follows(step: DisconnectStep, next: DisconnectRun) -> bool {
    match step {
        DisconnectStep::Unmount { unmount, run } => next == (DisconnectRun {
            closed_mounts: (run.closed_mounts + 1) as usize,
            ..run
        }),
        DisconnectStep::Kill { session_id, run } => next == (DisconnectRun {
            closed_sessions: (run.closed_sessions + 1) as usize,
            ..run
        }),
        DisconnectStep::Done(_) => false,
    }
}

/// The place of the first member that is wanted, or the length where none is.
pub open spec fn first_where(list: Seq<Seq<char>>, want: spec_fn(Seq<char>) -> bool) -> nat
    decreases list.len(),
{
    if list.len() == 0 {
        0
    } else if want(list[0]) {
        0
    } else {
        1 + first_where(list.drop_first(), want)
    }
}

/// The place of the first mount that is active.
pub open spec fn next_mount(list: Seq<Seq<char>>, mounts: Map<Seq<char>, SshMountSummary>) -> nat {
    first_where(
        list,
        |m: Seq<char>| mounts.contains_key(m) && mount_is_active(mounts[m].status),
    )
}

/// The place of the first session that is known.
pub open spec fn next_session(list: Seq<Seq<char>>, sessions: Map<Seq<char>, SessionEntry>) -> nat {
    first_where(list, |s: Seq<char>| sessions.contains_key(s))
}

/// What a connection that is ended has closed.
pub open spec fn is_disconnect_result(done: SshDisconnectResult, run: DisconnectRun) -> bool {
    &&& done.connection_id == run.connection_id
    &&& done.previous_status == run.previous_status
    &&& done.current_status == SshConnectionStatus::Disconnected
    &&& done.closed_sessions == run.closed_sessions
    &&& done.closed_mounts == run.closed_mounts
    &&& done.closed_tunnels == 0
}

/// What the next step of ending a connection is: an active mount to take away
/// where mounts are cleaned up, or else a known session to kill where force is
/// used, or else the end. Tunnels are left as they are.
pub open spec fn disconnect_goes_on(
    before: AppContext,
    run: DisconnectRun,
    step: DisconnectStep,
    after: AppContext,
) -> bool {
    let mounts = mount_id_texts(run.mounts@);
    let sessions = id_texts(run.sessions@);
    let m = next_mount(mounts, before.ssh_registry.mounts()) as int;
    let s = next_session(sessions, before.registry.sessions()) as int;
    if run.cleanup_mounts && m < mounts.len() {
        &&& step matches DisconnectStep::Unmount { unmount, run: next }
        &&& unmount.mount_id@ == mounts[m]
        &&& unmount.force == run.force
        &&& unmount.cleanup_local_path
        &&& mount_id_texts(next.mounts@) == mounts.skip(m + 1)
        &&& next == (DisconnectRun { mounts: next.mounts, ..run })
        &&& next.wf()
        &&& next.closed_mounts + next.mounts.len() < usize::MAX
        &&& after == before
    } else if run.force && s < sessions.len() {
        &&& step matches DisconnectStep::Kill { session_id, run: next }
        &&& session_id@ == sessions[s]
        &&& id_texts(next.sessions@) == sessions.skip(s + 1)
        &&& next == (DisconnectRun {
            mounts: next.mounts,
            sessions: next.sessions,
            ..run
        })
        &&& if run.cleanup_mounts {
            next.mounts@.len() == 0
        } else {
            next.mounts == run.mounts
        }
        &&& next.wf()
        &&& next.closed_sessions + next.sessions.len() < usize::MAX
        &&& only_links_changed(
            before,
            after,
            before.ssh_registry.links().remove_keys(sessions.take(s).to_set()),
        )
    } else {
        let links = if run.force {
            before.ssh_registry.links().remove_keys(sessions.to_set())
        } else {
            before.ssh_registry.links()
        };
        &&& step matches DisconnectStep::Done(done)
        &&& is_disconnect_result(done, run)
        &&& after == (AppContext { ssh_registry: after.ssh_registry, ..before })
        &&& after.ssh_registry.mounts() == before.ssh_registry.mounts()
        &&& after.ssh_registry.tunnels() == before.ssh_registry.tunnels()
        &&& after.ssh_registry.links() == links
        &&& status_was_set(
            before.ssh_registry.connections(),
            relinked(before.ssh_registry.links(), links),
            after.ssh_registry.connections(),
            run.connection_id@,
            SshConnectionStatus::Disconnected,
        )
    }
}

/// Says that active mounts stand in the way of ending a connection by force.
pub open spec fn mounts_in_the_way_text(id: Seq<char>, count: nat) -> Seq<char> {
    "ssh connection still has active mounts; set cleanup_mounts=true to force disconnect: connection_id="@
        + id + " active_mount_count="@ + decimal_text(count)
}

/// Why a connection is not ended, if it is not, once the links to it are up to
/// date.
pub open spec fn end_refusal(
    request: SshDisconnectRequest,
    links: Map<Seq<char>, Seq<char>>,
    mounts: Map<Seq<char>, SshMountSummary>,
) -> Option<Seq<char>> {
    let id = request.connection_id@;
    if !request.force {
        disconnect_refusal(true, id, linked(links, id).len(), active_mounts(mounts, id).len())
    } else if active_mounts(mounts, id).len() > 0 && !request.cleanup_mounts {
        Some(mounts_in_the_way_text(id, active_mounts(mounts, id).len()))
    } else {
        None
    }
}

/// What the first step of ending a connection does.
pub open spec fn disconnect_begun(
    before: AppContext,
    request: SshDisconnectRequest,
    r: Result<DisconnectRun, Failure>,
    after: AppContext,
) -> bool {
    let id = request.connection_id@;
    let old_links = before.ssh_registry.links();
    let links = updated_links(
        old_links,
        before.registry.sessions(),
        linked(old_links, id).intersect(before.registry.sessions().dom()),
    );
    let mounts = before.ssh_registry.mounts();
    if !before.ssh_registry.connections().contains_key(id) {
        &&& r matches Err(e)
        &&& e@ == connection_not_found_text(id)
        &&& after == before
    } else if end_refusal(request, links, mounts) is Some {
        &&& r matches Err(e)
        &&& end_refusal(request, links, mounts) == Some(e@)
        &&& only_links_changed(before, after, links)
    } else {
        &&& r matches Ok(run)
        &&& run.wf()
        &&& run.connection_id == request.connection_id
        &&& run.force == request.force
        &&& run.cleanup_mounts == request.cleanup_mounts
        &&& run.previous_status == before.ssh_registry.connections()[id].status
        &&& lists_in_order(mount_id_texts(run.mounts@), mounted(mounts, id))
        &&& lists_in_order(id_texts(run.sessions@), linked(links, id))
        &&& run.closed_mounts == 0
        &&& run.closed_sessions == 0
        &&& after == (AppContext { ssh_registry: after.ssh_registry, ..before })
        &&& after.ssh_registry.mounts() == mounts
        &&& after.ssh_registry.tunnels() == before.ssh_registry.tunnels()
        &&& after.ssh_registry.links() == links
        &&& status_was_set(
            before.ssh_registry.connections(),
            relinked(old_links, links),
            after.ssh_registry.connections(),
            id,
            SshConnectionStatus::Disconnecting,
        )
    }
}

impl SshService {
    /// Whether mounts can be made.
    pub fn mount_feature_available(context: &AppContext) -> (r: bool)
        ensures
            r == can_mount(context.ssh_capabilities),
    {
        mount_feature_available_for(&context.ssh_capabilities)
    }

    /// Begins to make a connection: checks what is asked for, and looks for a
    /// connection that serves. A new one is described by its target where nothing is
    /// said.
    pub fn connect(context: &mut AppContext, request: SshConnectRequest, host: &HostFiles) -> (r:
        Result<ConnectStep, Failure>)
        requires
            old(context).wf(),
        ensures
            final(context).wf(),
            brings_nothing_in(*old(context), *final(context)),
            connect_begun(
                *old(context),
                request,
                usual_description(request),
                *host,
                r,
                *final(context),
            ),
            connects_where_asked(*old(context), request, r),
            r matches Ok(ConnectStep::Reused(done)) ==> done.connection.target@ == wanted_target(
                request,
            ),
    {
        let target = target_of(&request).summary();
        let usual = cat2("SSH connection: ", target.as_str());
        let description = Some(describe(&request.description, usual));
        SshService::connect_described(context, request, description, host)
    }

    /// Begins to make a connection that is to have a description.
    pub fn connect_described(
        context: &mut AppContext,
        request: SshConnectRequest,
        description: Option<String>,
        host: &HostFiles,
    ) -> (r: Result<ConnectStep, Failure>)
        requires
            old(context).wf(),
        ensures
            final(context).wf(),
            brings_nothing_in(*old(context), *final(context)),
            connect_begun(
                *old(context),
                request,
                opt_text(description),
                *host,
                r,
                *final(context),
            ),
            connects_where_asked(*old(context), request, r),
            r matches Ok(ConnectStep::Reused(done)) ==> done.connection.target@ == wanted_target(
                request,
            ),
    {
        if !context.ssh_capabilities.ssh.available {
            let c = context.ssh_capabilities.debug_text();
            return Err(
                Failure::new(
                    cat2(
                        "ssh capability is unavailable on this host: capabilities=",
                        c.as_str(),
                    ),
                ),
            );
        }
        let target = target_of(&request);
        let validated = match context.ssh_guard.validate_connect_request(
            &context.ssh_config,
            SshConnectValidationInput {
                target: &target,
                auth_kind: request.auth_kind,
                identity_path: opt_str(&request.identity_path),
            },
        ) {
            Ok(v) => v,
            Err(e) => {
                return Err(e);
            },
        };
        match SshService::find_reusable_connection(context, &target, request.auth_kind) {
            Some(existing) => {
                proof {
                    lemma_serving_is_known(*context, target@, request.auth_kind);
                }
                context.ssh_registry.touch_connection(&existing.connection_id);
                let connection = match context.ssh_registry.get_connection(&existing.connection_id) {
                    Some(c) => c,
                    None => existing.clone(),
                };
                context.remember_connection_runtime_context(
                    &existing.connection_id,
                    SshConnectionRuntimeContext {
                        auth_kind: validated.auth_kind,
                        identity_path: validated.identity_path,
                        verify_host_key: request.verify_host_key,
                    },
                );
                let r = Ok(ConnectStep::Reused(SshConnectResult { connection, reused: true }));
                proof {
                    law_connecting_leads_where_asked(
                        *old(context),
                        request,
                        opt_text(description),
                        *host,
                        r,
                        *context,
                    );
                    lemma_target_asked(request);
                }
                return r;
            },
            None => {},
        }
        let ssh_bin = match context.resolve_ssh_bin_path(host) {
            Ok(p) => p,
            Err(e) => {
                return Err(e);
            },
        };
        let is_file = host.is_file(ssh_bin.as_str());
        let verification = SshConnectVerificationRequest {
            ssh_bin_path: Some(ssh_bin),
            target: target.clone(),
            auth_kind: validated.auth_kind,
            identity_path: clone_opt(&validated.identity_path),
            verify_host_key: request.verify_host_key,
            connect_timeout_secs: None,
        };
        let plan = match context.ssh_runtime.verify_plan(&verification, is_file) {
            Ok(p) => p,
            Err(e) => {
                return Err(e);
            },
        };
        let ghost asked = request;
        let ghost of_it = opt_text(description);
        let r = Ok(
            ConnectStep::Verify {
                plan,
                run: ConnectRun {
                    target,
                    auth_kind: validated.auth_kind,
                    identity_path: validated.identity_path,
                    verify_host_key: request.verify_host_key,
                    title: request.title,
                    description,
                },
            },
        );
        proof {
            law_connecting_leads_where_asked(*old(context), asked, of_it, *host, r, *context);
        }
        r
    }

    /// The summary of a connection that is made at a moment, under an identifier.
    pub fn new_connection(
        run: &ConnectRun,
        mounts: bool,
        connection_id: SshConnectionId,
        now: Timestamp,
    ) -> (r: SshConnectionSummary)
        ensures
            r == (SshConnectionSummary {
                connection_id,
                title: run.title,
                description: run.description,
                status: if mounts {
                    SshConnectionStatus::Ready
                } else {
                    SshConnectionStatus::Degraded
                },
                target: run.target,
                target_summary: r.target_summary,
                auth_kind: Some(run.auth_kind),
                started_at: now,
                last_used_at: Some(now),
                active_session_count: 0,
                active_mount_count: 0,
                metadata: r.metadata,
            }),
            r.target_summary@ == target_summary(run.target@),
            r.metadata@.len() == 0,
    {
        let summary = run.target.summary();
        SshConnectionSummary {
            connection_id,
            title: clone_opt(&run.title),
            description: clone_opt(&run.description),
            status: if mounts {
                SshConnectionStatus::Ready
            } else {
                SshConnectionStatus::Degraded
            },
            target: run.target.clone(),
            target_summary: summary,
            auth_kind: Some(run.auth_kind),
            started_at: now,
            last_used_at: Some(now),
            active_session_count: 0,
            active_mount_count: 0,
            metadata: String::new(),
        }
    }

    /// Goes on once the target was tried, or could not be.
    pub fn connect_verified(
        context: &mut AppContext,
        run: ConnectRun,
        outcome: Result<CommandOutput, Failure>,
    ) -> (r: Result<SshConnectResult, Failure>)
        requires
            old(context).wf(),
        ensures
            final(context).wf(),
            connect_finished(*old(context), run, outcome, r, *final(context)),
    {
        let output = match outcome {
            Ok(o) => o,
            Err(e) => {
                return Err(e);
            },
        };
        match context.ssh_runtime.verify_outcome(&run.target, &output) {
            Ok(_) => {},
            Err(e) => {
                return Err(e);
            },
        }
        let mounts = SshService::mount_feature_available(context);
        let summary = SshService::new_connection(
            &run,
            mounts,
            SshConnectionId::new(),
            Timestamp::now(),
        );
        let connection_id = summary.connection_id.clone();
        context.ssh_registry.upsert_connection(summary.clone());
        let connection = match context.ssh_registry.get_connection(&connection_id) {
            Some(c) => c,
            None => summary,
        };
        context.remember_connection_runtime_context(
            &connection_id,
            SshConnectionRuntimeContext {
                auth_kind: run.auth_kind,
                identity_path: run.identity_path,
                verify_host_key: run.verify_host_key,
            },
        );
        Ok(SshConnectResult { connection, reused: false })
    }

    fn find_reusable_connection(context: &AppContext, target: &SshTarget, auth_kind: SshAuthKind) -> (r:
        Option<SshConnectionSummary>)
        requires
            context.wf(),
        ensures
            r == first_serving(connection_list(*context), target@, auth_kind),
    {
        let list = context.ssh_registry.list_connections();
        let mut i: usize = 0;
        assert(list@.skip(0) =~= list@);
        while i < list.len()
            invariant
                i <= list@.len(),
                list@ == connection_list(*context),
                first_serving(list@, target@, auth_kind) == first_serving(
                    list@.skip(i as int),
                    target@,
                    auth_kind,
                ),
            decreases list@.len() - i,
        {
            let c = &list[i];
            let same_kind = match c.auth_kind {
                Some(k) => k == auth_kind,
                None => false,
            };
            if c.target.same_as(target) && same_kind && c.status
                != SshConnectionStatus::Disconnected && c.status != SshConnectionStatus::Failed {
                return Some(c.clone());
            }
            assert(list@.skip(i as int).drop_first() =~= list@.skip(i + 1));
            i = i + 1;
        }
        None
    }

    /// All connections, mounts and tunnels, each in the order of their
    /// identifiers.
    pub fn list(context: &AppContext) -> (r: SshListResult)
        requires
            context.wf(),
        ensures
            r.connections@ == connection_list(*context),
            r.mounts@ == context.ssh_registry.mount_ids().map_values(
                |k: Seq<char>| context.ssh_registry.mounts()[k],
            ),
            r.tunnels@ == context.ssh_registry.tunnel_ids().map_values(
                |k: Seq<char>| context.ssh_registry.tunnels()[k],
            ),
    {
        SshListResult {
            connections: context.ssh_registry.list_connections(),
            mounts: context.ssh_registry.list_mounts(),
            tunnels: context.ssh_registry.list_tunnels(),
        }
    }

    /// The connection that a request names.
    pub fn require_connection(context: &AppContext, connection_id: &SshConnectionId) -> (r: Result<
        SshConnectionSummary,
        Failure,
    >)
        requires
            context.wf(),
        ensures
            match r {
                Ok(c) => {
                    &&& context.ssh_registry.connections().contains_key(connection_id@)
                    &&& c == context.ssh_registry.connections()[connection_id@]
                },
                Err(e) => {
                    &&& !context.ssh_registry.connections().contains_key(connection_id@)
                    &&& e@ == connection_not_found_text(connection_id@)
                },
            },
    {
        match context.ssh_registry.get_connection(connection_id) {
            Some(c) => Ok(c),
            None => Err(ssh_connection_not_found(connection_id)),
        }
    }

    /// The connection that a request names, where it is ready.
    pub fn require_ready_connection(
        context: &AppContext,
        connection_id: &SshConnectionId,
        action: &str,
    ) -> (r: Result<SshConnectionSummary, Failure>)
        requires
            context.wf(),
        ensures
            ({
                let refusal = readiness_refusal(
                    context.ssh_registry.connections(),
                    connection_id@,
                    action@,
                );
                match r {
                    Ok(c) => refusal is None && c
                        == context.ssh_registry.connections()[connection_id@],
                    Err(e) => refusal == Some(e@),
                }
            }),
    {
        let connection = match SshService::require_connection(context, connection_id) {
            Ok(c) => c,
            Err(e) => {
                return Err(e);
            },
        };
        let ready = match connection.status {
            SshConnectionStatus::Ready | SshConnectionStatus::Degraded => true,
            _ => false,
        };
        if !ready {
            let tail = cat2(" status=", connection.status.name());
            return Err(
                Failure::new(
                    cat5(
                        "ssh connection is not ready for ",
                        action,
                        ": connection_id=",
                        connection_id.as_str(),
                        tail.as_str(),
                    ),
                ),
            );
        }
        Ok(connection)
    }

    /// Brings the link of a session up to date.
    pub fn refresh_session_tracking(context: &mut AppContext, session_id: &SessionId)
        requires
            old(context).wf(),
        ensures
            final(context).wf(),
            brings_nothing_in(*old(context), *final(context)),
            only_links_changed(
                *old(context),
                *final(context),
                updated_links(
                    old(context).ssh_registry.links(),
                    old(context).registry.sessions(),
                    set![session_id@],
                ),
            ),
    {
        let ghost before = *context;
        let ghost links = updated_links(
            before.ssh_registry.links(),
            before.registry.sessions(),
            set![session_id@],
        );
        match context.registry.get(session_id) {
            None => {
                let _ = context.ssh_registry.unlink_session(session_id);
                assert(context.ssh_registry.links() =~= links);
            },
            Some(summary) => match &summary.connection_id {
                None => {
                    assert(context.ssh_registry.links() =~= links);
                },
                Some(connection_id) => {
                    if summary.status.is_live() && summary.exit_info.is_none() {
                        let _ = context.ssh_registry.link_session(connection_id, session_id);
                    } else {
                        let _ = context.ssh_registry.untrack_session(connection_id, session_id);
                    }
                    assert(context.ssh_registry.links() =~= links);
                },
            },
        }
        proof {
            lemma_links_of_one_session(before, *context, session_id@);
        }
    }

    /// Brings the links of a connection up to date, as far as its sessions are
    /// known.
    pub fn refresh_connection_session_tracking(
        context: &mut AppContext,
        connection_id: &SshConnectionId,
    )
        requires
            old(context).wf(),
        ensures
            final(context).wf(),
            brings_nothing_in(*old(context), *final(context)),
            !old(context).ssh_registry.connections().contains_key(connection_id@) ==> *final(context)
                == *old(context),
            old(context).ssh_registry.connections().contains_key(connection_id@)
                ==> only_links_changed(
                *old(context),
                *final(context),
                updated_links(
                    old(context).ssh_registry.links(),
                    old(context).registry.sessions(),
                    linked(old(context).ssh_registry.links(), connection_id@).intersect(
                        old(context).registry.sessions().dom(),
                    ),
                ),
            ),
    {
        if context.ssh_registry.get_connection(connection_id).is_none() {
            return ;
        }
        let ghost before = *context;
        let ghost links = before.ssh_registry.links();
        let ghost sessions = before.registry.sessions();
        let ids = context.ssh_registry.list_sessions_for_connection(connection_id);
        let ghost all = id_texts(ids@);
        let mut i: usize = 0;
        proof {
            assert(updated_links(links, sessions, all.take(0).to_set().intersect(sessions.dom()))
                =~= links);
            lemma_nothing_relinked(links);
            lemma_sorted_distinct(all);
        }
        while i < ids.len()
            invariant
                context.wf(),
                i <= ids@.len(),
                all == id_texts(ids@),
                all.no_duplicates(),
                links == before.ssh_registry.links(),
                sessions == before.registry.sessions(),
                only_links_changed(
                    before,
                    *context,
                    updated_links(
                        links,
                        sessions,
                        all.take(i as int).to_set().intersect(sessions.dom()),
                    ),
                ),
            decreases ids@.len() - i,
        {
            let ghost middle = *context;
            let ghost id = all[i as int];
            let ghost done = all.take(i as int).to_set().intersect(sessions.dom());
            let ghost more = all.take(i + 1).to_set().intersect(sessions.dom());
            proof {
                assert(all.take(i + 1) =~= all.take(i as int).push(id));
                all.take(i as int).lemma_push_to_set_commute(id);
                assert(!done.contains(id)) by {
                    if all.take(i as int).contains(id) {
                        let k = all.take(i as int).index_of(id);
                        assert(all[k] == all[i as int]);
                    }
                }
            }
            if context.registry.status_of(&ids[i]).is_some() {
                SshService::refresh_session_tracking(context, &ids[i]);
                proof {
                    assert(more =~= done.insert(id));
                    assert(updated_links(middle.ssh_registry.links(), sessions, set![id])
                        =~= updated_links(links, sessions, more));
                    lemma_link_changes_compose(before, middle, *context);
                }
            } else {
                assert(more =~= done);
            }
            i = i + 1;
        }
        proof {
            assert(all.take(i as int) =~= all);
        }
    }

    /// Whether a connection may be ended without force, once the links to it are up
    /// to date.
    pub fn disconnect_precheck(context: &mut AppContext, connection_id: &SshConnectionId) -> (r:
        Result<(), Failure>)
        requires
            old(context).wf(),
        ensures
            final(context).wf(),
            brings_nothing_in(*old(context), *final(context)),
            ({
                let old_links = old(context).ssh_registry.links();
                let known = old(context).ssh_registry.connections().contains_key(connection_id@);
                let links = if known {
                    updated_links(
                        old_links,
                        old(context).registry.sessions(),
                        linked(old_links, connection_id@).intersect(
                            old(context).registry.sessions().dom(),
                        ),
                    )
                } else {
                    old_links
                };
                &&& only_links_changed(*old(context), *final(context), links)
                &&& match disconnect_refusal(
                    known,
                    connection_id@,
                    linked(links, connection_id@).len(),
                    active_mounts(old(context).ssh_registry.mounts(), connection_id@).len(),
                ) {
                    None => r is Ok,
                    Some(text) => r matches Err(e) && e@ == text,
                }
            }),
    {
        let ghost before = *context;
        SshService::refresh_connection_session_tracking(context, connection_id);
        proof {
            lemma_nothing_relinked(before.ssh_registry.links());
        }
        context.ssh_registry.ensure_disconnect_allowed(connection_id)
    }

    /// Begins to end a connection: brings the links to it up to date, checks that
    /// it may end, and lists what is to be closed.
    pub fn disconnect(context: &mut AppContext, request: SshDisconnectRequest) -> (r: Result<
        DisconnectRun,
        Failure,
    >)
        requires
            old(context).wf(),
        ensures
            final(context).wf(),
            brings_nothing_in(*old(context), *final(context)),
            disconnect_begun(*old(context), request, r, *final(context)),
            r matches Ok(run) ==> run.closes_own(*final(context)),
    {
        let ghost before = *context;
        let connection = match SshService::require_connection(context, &request.connection_id) {
            Ok(c) => c,
            Err(e) => {
                return Err(e);
            },
        };
        let previous_status = connection.status;
        SshService::refresh_connection_session_tracking(context, &request.connection_id);
        let ghost refreshed = *context;
        if !request.force {
            match context.ssh_registry.ensure_disconnect_allowed(&request.connection_id) {
                Ok(_) => {},
                Err(e) => {
                    return Err(e);
                },
            }
        }
        let active: usize = match context.ssh_registry.active_resource_counts(
            &request.connection_id,
        ) {
            Some(counts) => counts.active_mount_count,
            None => 0,
        };
        if request.force && active > 0 && !request.cleanup_mounts {
            let n = decimal(active as u64);
            return Err(
                Failure::new(
                    cat4(
                        "ssh connection still has active mounts; set cleanup_mounts=true to force disconnect: connection_id=",
                        request.connection_id.as_str(),
                        " active_mount_count=",
                        n.as_str(),
                    ),
                ),
            );
        }
        let mounts = match context.ssh_registry.connection_relations(&request.connection_id) {
            Ok(relations) => relations.mount_ids,
            Err(e) => {
                return Err(e);
            },
        };
        let sessions = context.ssh_registry.list_sessions_for_connection(&request.connection_id);
        let _ = context.ssh_registry.mark_connection_status(
            &request.connection_id,
            SshConnectionStatus::Disconnecting,
        );
        proof {
            lemma_status_after_use(
                before.ssh_registry.connections(),
                relinked(before.ssh_registry.links(), refreshed.ssh_registry.links()),
                refreshed.ssh_registry.connections(),
                context.ssh_registry.connections(),
                request.connection_id@,
                SshConnectionStatus::Disconnecting,
            );
            lemma_members_of(mount_id_texts(mounts@));
            lemma_members_of(id_texts(sessions@));
        }
        Ok(
            DisconnectRun {
                connection_id: request.connection_id,
                force: request.force,
                cleanup_mounts: request.cleanup_mounts,
                previous_status,
                mounts,
                sessions,
                closed_mounts: 0,
                closed_sessions: 0,
            },
        )
    }

    /// The next step of ending a connection.
    pub fn disconnect_next(context: &mut AppContext, run: DisconnectRun) -> (r: DisconnectStep)
        requires
            old(context).wf(),
            run.wf(),
        ensures
            final(context).wf(),
            brings_nothing_in(*old(context), *final(context)),
            disconnect_goes_on(*old(context), run, r, *final(context)),
            forall|began: AppContext| #[trigger]
                run.closes_own(began) ==> step_closes_own(r, began),
    {
        let ghost before = *context;
        let ghost start = run;
        let mut run = run;
        if run.cleanup_mounts {
            match SshService::take_mount(context, &mut run.mounts) {
                Some(mount_id) => {
                    let step = DisconnectStep::Unmount {
                        unmount: SshUnmountRequest {
                            mount_id,
                            force: run.force,
                            cleanup_local_path: true,
                        },
                        run,
                    };
                    proof {
                        assert forall|began: AppContext| #[trigger]
                            start.closes_own(began) implies step_closes_own(step, began) by {
                            lemma_step_closes_own(before, start, step, *context, began);
                        }
                    }
                    return step;
                },
                None => {},
            }
        }
        if run.force {
            match SshService::take_session(context, &mut run.sessions) {
                Some(session_id) => {
                    let step = DisconnectStep::Kill { session_id, run };
                    proof {
                        assert forall|began: AppContext| #[trigger]
                            start.closes_own(began) implies step_closes_own(step, began) by {
                            lemma_step_closes_own(before, start, step, *context, began);
                        }
                    }
                    return step;
                },
                None => {},
            }
        } else {
            proof {
                lemma_nothing_relinked(before.ssh_registry.links());
            }
        }
        let ghost middle = *context;
        let _ = context.ssh_registry.mark_connection_status(
            &run.connection_id,
            SshConnectionStatus::Disconnected,
        );
        proof {
            lemma_status_after_use(
                before.ssh_registry.connections(),
                relinked(before.ssh_registry.links(), middle.ssh_registry.links()),
                middle.ssh_registry.connections(),
                context.ssh_registry.connections(),
                run.connection_id@,
                SshConnectionStatus::Disconnected,
            );
        }
        DisconnectStep::Done(
            SshDisconnectResult {
                connection_id: run.connection_id,
                previous_status: run.previous_status,
                current_status: SshConnectionStatus::Disconnected,
                closed_sessions: run.closed_sessions,
                closed_mounts: run.closed_mounts,
                closed_tunnels: 0,
            },
        )
    }

    /// Takes the mounts up to the first active one off a list, and gives that one.
    fn take_mount(context: &AppContext, list: &mut Vec<SshMountId>) -> (r: Option<SshMountId>)
        requires
            context.wf(),
        ensures
            ({
                let before = mount_id_texts(old(list)@);
                let at = next_mount(before, context.ssh_registry.mounts()) as int;
                match r {
                    Some(id) => {
                        &&& 0 <= at < before.len()
                        &&& id@ == before[at]
                        &&& mount_id_texts(final(list)@) == before.skip(at + 1)
                        &&& final(list)@.len() < old(list)@.len()
                    },
                    None => at >= before.len() && final(list)@.len() == 0,
                }
            }),
    {
        let ghost first = mount_id_texts(list@);
        let ghost mounts = context.ssh_registry.mounts();
        let ghost want = |m: Seq<char>| mounts.contains_key(m) && mount_is_active(mounts[m].status);
        let n: usize = list.len();
        let mut i: usize = 0;
        while i < n
            invariant
                context.wf(),
                i <= n == list@.len(),
                first == mount_id_texts(list@),
                first == mount_id_texts(old(list)@),
                mounts == context.ssh_registry.mounts(),
                want == (|m: Seq<char>| mounts.contains_key(m) && mount_is_active(mounts[m].status)),
                forall|k: int| 0 <= k < i ==> !want(#[trigger] first[k]),
            decreases n - i,
        {
            assert(first[i as int] == list@[i as int]@);
            let found = match context.ssh_registry.get_mount(&list[i]) {
                Some(m) => m.status.is_active(),
                None => false,
            };
            if found {
                let id = list[i].clone();
                let rest = list.split_off(i + 1);
                *list = rest;
                proof {
                    lemma_first_where(first, want, i as int);
                    assert(mount_id_texts(list@) =~= first.skip(i + 1));
                }
                return Some(id);
            }
            i = i + 1;
        }
        proof {
            lemma_first_where(first, want, n as int);
        }
        list.clear();
        None
    }

    /// Takes the sessions up to the first known one off a list, and gives that one.
    /// The links of those that are not known are taken away.
    fn take_session(context: &mut AppContext, list: &mut Vec<SessionId>) -> (r: Option<SessionId>)
        requires
            old(context).wf(),
        ensures
            final(context).wf(),
            ({
                let before = id_texts(old(list)@);
                let at = next_session(before, old(context).registry.sessions()) as int;
                let links = old(context).ssh_registry.links();
                match r {
                    Some(id) => {
                        &&& 0 <= at < before.len()
                        &&& id@ == before[at]
                        &&& id_texts(final(list)@) == before.skip(at + 1)
                        &&& final(list)@.len() < old(list)@.len()
                        &&& only_links_changed(
                            *old(context),
                            *final(context),
                            links.remove_keys(before.take(at).to_set()),
                        )
                    },
                    None => {
                        &&& at >= before.len()
                        &&& final(list)@.len() == 0
                        &&& only_links_changed(
                            *old(context),
                            *final(context),
                            links.remove_keys(before.to_set()),
                        )
                    },
                }
            }),
    {
        let ghost start = *context;
        let ghost links = start.ssh_registry.links();
        let ghost first = id_texts(list@);
        let ghost sessions = context.registry.sessions();
        let ghost want = |s: Seq<char>| sessions.contains_key(s);
        let n: usize = list.len();
        let mut i: usize = 0;
        proof {
            assert(links.remove_keys(first.take(0).to_set()) =~= links);
            lemma_nothing_relinked(links);
        }
        while i < n
            invariant
                context.wf(),
                i <= n == list@.len(),
                first == id_texts(list@),
                first == id_texts(old(list)@),
                start == *old(context),
                sessions == start.registry.sessions(),
                links == start.ssh_registry.links(),
                want == (|s: Seq<char>| sessions.contains_key(s)),
                forall|k: int| 0 <= k < i ==> !want(#[trigger] first[k]),
                only_links_changed(
                    start,
                    *context,
                    links.remove_keys(first.take(i as int).to_set()),
                ),
            decreases n - i,
        {
            let ghost middle = *context;
            assert(first[i as int] == list@[i as int]@);
            if context.registry.status_of(&list[i]).is_some() {
                let id = list[i].clone();
                let rest = list.split_off(i + 1);
                *list = rest;
                proof {
                    lemma_first_where(first, want, i as int);
                    assert(id_texts(list@) =~= first.skip(i + 1));
                }
                return Some(id);
            }
            SshService::forget_session(context, &list[i]);
            proof {
                let id = first[i as int];
                assert(first.take(i + 1) =~= first.take(i as int).push(id));
                first.take(i as int).lemma_push_to_set_commute(id);
                assert(middle.ssh_registry.links().remove(id) =~= links.remove_keys(
                    first.take(i + 1).to_set(),
                ));
                lemma_link_changes_compose(start, middle, *context);
            }
            i = i + 1;
        }
        proof {
            lemma_first_where(first, want, n as int);
            assert(first.take(i as int) =~= first);
        }
        list.clear();
        None
    }

    /// Takes the link of a session away.
    fn forget_session(context: &mut AppContext, session_id: &SessionId)
        requires
            old(context).wf(),
        ensures
            final(context).wf(),
            only_links_changed(
                *old(context),
                *final(context),
                old(context).ssh_registry.links().remove(session_id@),
            ),
    {
        let ghost before = *context;
        let _ = context.ssh_registry.unlink_session(session_id);
        proof {
            lemma_links_of_one_session(before, *context, session_id@);
        }
    }

    /// Goes on once a mount was taken away, or could not be, which ends the attempt
    /// and marks the connection as failed.
    pub fn disconnect_unmounted(
        context: &mut AppContext,
        run: DisconnectRun,
        outcome: Result<(), Failure>,
    ) -> (r: Result<DisconnectRun, Failure>)
        requires
            old(context).wf(),
            run.wf(),
            run.closed_mounts + run.mounts.len() < usize::MAX,
        ensures
            final(context).wf(),
            brings_nothing_in(*old(context), *final(context)),
            match outcome {
                Ok(_) => {
                    &&& r == Ok::<DisconnectRun, Failure>(
                        DisconnectRun { closed_mounts: (run.closed_mounts + 1) as usize, ..run },
                    )
                    &&& r->Ok_0.wf()
                    &&& forall|began: AppContext| #[trigger]
                        run.closes_own(began) ==> r->Ok_0.closes_own(began)
                    &&& *final(context) == *old(context)
                },
                Err(failure) => {
                    &&& r == Err::<DisconnectRun, Failure>(failure)
                    &&& only_status_set(
                        *old(context),
                        *final(context),
                        run.connection_id@,
                        SshConnectionStatus::Failed,
                    )
                },
            },
    {
        match outcome {
            Ok(_) => {
                let mut run = run;
                run.closed_mounts = run.closed_mounts + 1;
                Ok(run)
            },
            Err(failure) => {
                SshService::mark_failed(context, &run.connection_id);
                Err(failure)
            },
        }
    }

    /// Goes on once a session was killed, or could not be, which ends the attempt and
    /// marks the connection as failed.
    pub fn disconnect_killed(
        context: &mut AppContext,
        run: DisconnectRun,
        session_id: &SessionId,
        outcome: Result<(), Failure>,
    ) -> (r: Result<DisconnectRun, Failure>)
        requires
            old(context).wf(),
            run.wf(),
            run.closed_sessions + run.sessions.len() < usize::MAX,
        ensures
            final(context).wf(),
            brings_nothing_in(*old(context), *final(context)),
            match outcome {
                Ok(_) => {
                    &&& r == Ok::<DisconnectRun, Failure>(
                        DisconnectRun {
                            closed_sessions: (run.closed_sessions + 1) as usize,
                            ..run
                        },
                    )
                    &&& r->Ok_0.wf()
                    &&& forall|began: AppContext| #[trigger]
                        run.closes_own(began) ==> r->Ok_0.closes_own(began)
                    &&& only_links_changed(
                        *old(context),
                        *final(context),
                        updated_links(
                            old(context).ssh_registry.links(),
                            old(context).registry.sessions(),
                            set![session_id@],
                        ),
                    )
                },
                Err(failure) => {
                    &&& r == Err::<DisconnectRun, Failure>(failure)
                    &&& only_status_set(
                        *old(context),
                        *final(context),
                        run.connection_id@,
                        SshConnectionStatus::Failed,
                    )
                },
            },
    {
        match outcome {
            Ok(_) => {
                SshService::refresh_session_tracking(context, session_id);
                let mut run = run;
                run.closed_sessions = run.closed_sessions + 1;
                Ok(run)
            },
            Err(failure) => {
                SshService::mark_failed(context, &run.connection_id);
                Err(failure)
            },
        }
    }

    fn mark_failed(context: &mut AppContext, connection_id: &SshConnectionId)
        requires
            old(context).wf(),
        ensures
            final(context).wf(),
            only_status_set(
                *old(context),
                *final(context),
                connection_id@,
                SshConnectionStatus::Failed,
            ),
    {
        let ghost before = *context;
        let _ = context.ssh_registry.mark_connection_status(
            connection_id,
            SshConnectionStatus::Failed,
        );
        proof {
            lemma_status_after_use(
                before.ssh_registry.connections(),
                Set::empty(),
                before.ssh_registry.connections(),
                context.ssh_registry.connections(),
                connection_id@,
                SshConnectionStatus::Failed,
            );
        }
    }

    /// The requests by which a shutdown ends all connections, in the order of their
    /// identifiers: by force, with their mounts taken away.
    pub fn shutdown_requests(context: &AppContext) -> (r: Vec<SshDisconnectRequest>)
        requires
            context.wf(),
        ensures
            r@.len() == context.ssh_registry.connection_ids().len(),
            forall|i: int|
                0 <= i < r@.len() ==> {
                    &&& (#[trigger] r@[i]).connection_id@
                        == context.ssh_registry.connection_ids()[i]
                    &&& r@[i].force
                    &&& r@[i].cleanup_mounts
                    &&& !r@[i].cleanup_tunnels
                },
    {
        let list = context.ssh_registry.list_connections();
        let mut r: Vec<SshDisconnectRequest> = Vec::new();
        let mut i: usize = 0;
        proof {
            context.ssh_registry.lemma_ids();
        }
        while i < list.len()
            invariant
                i <= list@.len(),
                r@.len() == i,
                list@ == connection_list(*context),
                lists_in_order(
                    context.ssh_registry.connection_ids(),
                    context.ssh_registry.connections().dom(),
                ),
                forall|k: Seq<char>| #[trigger]
                    context.ssh_registry.connections().contains_key(k)
                        ==> context.ssh_registry.connections()[k].connection_id@ == k,
                forall|k: int|
                    0 <= k < i ==> {
                        &&& (#[trigger] r@[k]).connection_id@
                            == context.ssh_registry.connection_ids()[k]
                        &&& r@[k].force
                        &&& r@[k].cleanup_mounts
                        &&& !r@[k].cleanup_tunnels
                    },
            decreases list@.len() - i,
        {
            proof {
                let key = context.ssh_registry.connection_ids()[i as int];
                assert(context.ssh_registry.connection_ids().contains(key));
                assert(context.ssh_registry.connection_ids().to_set().contains(key));
                assert(context.ssh_registry.connections().contains_key(key));
            }
            r.push(
                SshDisconnectRequest {
                    connection_id: list[i].connection_id.clone(),
                    force: true,
                    cleanup_mounts: true,
                    cleanup_tunnels: false,
                },
            );
            i = i + 1;
        }
        r
    }

    /// Takes a connection away with its mounts and links, and forgets how it was
    /// made.
    pub fn remove_connection(context: &mut AppContext, connection_id: &SshConnectionId) -> (r: Option<
        SshConnectionSummary,
    >)
        requires
            old(context).wf(),
        ensures
            final(context).wf(),
            brings_nothing_in(*old(context), *final(context)),
            *final(context) == (AppContext {
                ssh_registry: final(context).ssh_registry,
                connection_contexts: final(context).connection_contexts,
                ..*old(context)
            }),
            final(context).ssh_registry.tunnels() == old(context).ssh_registry.tunnels(),
            final(context).ssh_registry.links() == without_links(
                old(context).ssh_registry.links(),
                connection_id@,
            ),
            final(context).ssh_registry.mounts() == without_mounts(
                old(context).ssh_registry.mounts(),
                connection_id@,
            ),
            final(context).ssh_registry.connections()
                == old(context).ssh_registry.connections().remove(connection_id@),
            match r {
                Some(c) => {
                    &&& old(context).ssh_registry.connections().contains_key(connection_id@)
                    &&& c == old(context).ssh_registry.connections()[connection_id@]
                    &&& final(context).connection_contexts@
                        == old(context).connection_contexts@.remove(connection_id@)
                },
                None => {
                    &&& !old(context).ssh_registry.connections().contains_key(connection_id@)
                    &&& final(context).connection_contexts@ == old(context).connection_contexts@
                },
            },
    {
        let removed = context.ssh_registry.remove_connection(connection_id);
        if removed.is_some() {
            let _ = context.forget_connection_runtime_context(connection_id);
        }
        removed
    }

    /// Takes a mount away and forgets how its directory came to be.
    pub fn remove_mount(context: &mut AppContext, mount_id: &SshMountId) -> (r: Option<
        SshMountSummary,
    >)
        requires
            old(context).wf(),
        ensures
            final(context).wf(),
            brings_nothing_in(*old(context), *final(context)),
            *final(context) == (AppContext {
                ssh_registry: final(context).ssh_registry,
                mount_contexts: final(context).mount_contexts,
                ..*old(context)
            }),
            final(context).ssh_registry.tunnels() == old(context).ssh_registry.tunnels(),
            final(context).ssh_registry.links() == old(context).ssh_registry.links(),
            final(context).ssh_registry.mounts() == old(context).ssh_registry.mounts().remove(
                mount_id@,
            ),
            match r {
                Some(m) => {
                    &&& old(context).ssh_registry.mounts().contains_key(mount_id@)
                    &&& m == old(context).ssh_registry.mounts()[mount_id@]
                    &&& final(context).mount_contexts@ == old(context).mount_contexts@.remove(
                        mount_id@,
                    )
                    &&& used_and_recounted(
                        old(context).ssh_registry.connections(),
                        m.connection_id@,
                        final(context).ssh_registry.links(),
                        final(context).ssh_registry.mounts(),
                        final(context).ssh_registry.connections(),
                    )
                },
                None => {
                    &&& !old(context).ssh_registry.mounts().contains_key(mount_id@)
                    &&& final(context).mount_contexts@ == old(context).mount_contexts@
                    &&& final(context).ssh_registry.connections()
                        == old(context).ssh_registry.connections()
                },
            },
    {
        let removed = context.ssh_registry.remove_mount(mount_id);
        if removed.is_some() {
            let _ = context.forget_mount_runtime_context(mount_id);
        }
        removed
    }
}

proof fn lemma_first_where(list: Seq<Seq<char>>, want: spec_fn(Seq<char>) -> bool, i: int)
    requires
        0 <= i <= list.len(),
        forall|k: int| 0 <= k < i ==> !want(#[trigger] list[k]),
        i < list.len() ==> want(list[i]),
    ensures
        first_where(list, want) == i,
    decreases list.len(),
{
    if i > 0 {
        let rest = list.drop_first();
        assert(!want(list[0]));
        assert forall|k: int| 0 <= k < i - 1 implies !want(#[trigger] rest[k]) by {
            assert(rest[k] == list[k + 1]);
        }
        lemma_first_where(rest, want, i - 1);
    }
}

/// A connection that serves is one of the application's.
proof fn lemma_serving_is_known(context: AppContext, target: TargetText, kind: SshAuthKind)
    requires
        context.wf(),
    ensures
        first_serving(connection_list(context), target, kind) matches Some(c) ==> {
            &&& context.ssh_registry.connections().contains_key(c.connection_id@)
            &&& context.ssh_registry.connections()[c.connection_id@] == c
            &&& serves(c, target, kind)
        },
{
    let list = connection_list(context);
    context.ssh_registry.lemma_ids();
    lemma_first_serving_is_listed(list, target, kind);
    if first_serving(list, target, kind) is Some {
        let c = first_serving(list, target, kind)->0;
        let i = list.index_of(c);
        let key = context.ssh_registry.connection_ids()[i];
        assert(context.ssh_registry.connection_ids().contains(key));
        assert(context.ssh_registry.connection_ids().to_set().contains(key));
        assert(context.ssh_registry.connections().contains_key(key));
    }
}

/// Where a connection serves, a first one does.
proof fn lemma_some_connection_serves(
    list: Seq<SshConnectionSummary>,
    target: TargetText,
    kind: SshAuthKind,
    i: int,
)
    requires
        0 <= i < list.len(),
        serves(list[i], target, kind),
    ensures
        first_serving(list, target, kind) is Some,
    decreases list.len(),
{
    if !serves(list[0], target, kind) {
        lemma_some_connection_serves(list.drop_first(), target, kind, i - 1);
    }
}

proof fn lemma_first_serving_is_listed(
    list: Seq<SshConnectionSummary>,
    target: TargetText,
    kind: SshAuthKind,
)
    ensures
        first_serving(list, target, kind) matches Some(c) ==> list.contains(c) && serves(
            c,
            target,
            kind,
        ),
    decreases list.len(),
{
    if list.len() > 0 {
        if serves(list[0], target, kind) {
            assert(list.contains(list[0]));
        } else {
            let rest = list.drop_first();
            lemma_first_serving_is_listed(rest, target, kind);
            if first_serving(rest, target, kind) is Some {
                let c = first_serving(rest, target, kind)->0;
                let i = rest.index_of(c);
                assert(list[i + 1] == c);
            }
        }
    }
}

/// A use of one connection, with the counts taken anew, is a change of use.
pub proof fn lemma_used_is_use_changed(
    before: Map<Seq<char>, SshConnectionSummary>,
    id: Seq<char>,
    links: Map<Seq<char>, Seq<char>>,
    mounts: Map<Seq<char>, SshMountSummary>,
    after: Map<Seq<char>, SshConnectionSummary>,
)
    requires
        used_and_recounted(before, id, links, mounts, after),
    ensures
        only_use_changed(before, set![id], after),
{
    assert(after.dom() =~= before.dom());
    assert forall|k: Seq<char>| #[trigger] after.contains_key(k) implies same_but_use(
        before[k],
        set![id].contains(k),
        after[k],
    ) by {
        assert(before.contains_key(k));
    }
}

/// Changes of use add up to a change of use.
pub proof fn lemma_use_changes_compose(
    a: Map<Seq<char>, SshConnectionSummary>,
    first: Set<Seq<char>>,
    b: Map<Seq<char>, SshConnectionSummary>,
    second: Set<Seq<char>>,
    c: Map<Seq<char>, SshConnectionSummary>,
)
    requires
        only_use_changed(a, first, b),
        only_use_changed(b, second, c),
    ensures
        only_use_changed(a, first.union(second), c),
{
    assert forall|k: Seq<char>| #[trigger] c.contains_key(k) implies same_but_use(
        a[k],
        first.union(second).contains(k),
        c[k],
    ) by {
        assert(b.contains_key(k));
        assert(same_but_use(b[k], second.contains(k), c[k]));
        assert(same_but_use(a[k], first.contains(k), b[k]));
    }
}

/// Links that stay as they are use no connection.
pub proof fn lemma_nothing_relinked(links: Map<Seq<char>, Seq<char>>)
    ensures
        relinked(links, links) == Set::<Seq<char>>::empty(),
{
    assert(relinked(links, links) =~= Set::<Seq<char>>::empty());
}

/// What a change of one session's link uses.
pub proof fn lemma_relinked_one(
    before: Map<Seq<char>, Seq<char>>,
    after: Map<Seq<char>, Seq<char>>,
    session: Seq<char>,
)
    requires
        forall|s: Seq<char>|
            s != session ==> #[trigger] link_of(before, s) == link_of(after, s),
    ensures
        relinked(before, after) == if link_of(before, session) == link_of(after, session) {
            Set::<Seq<char>>::empty()
        } else {
            set![
                if after.contains_key(session) {
                    after[session]
                } else {
                    before[session]
                },
            ]
        },
{
    let c = if after.contains_key(session) {
        after[session]
    } else {
        before[session]
    };
    if link_of(before, session) == link_of(after, session) {
        assert(relinked(before, after) =~= Set::<Seq<char>>::empty());
    } else {
        assert(relinks(before, after, session, c));
        assert(relinked(before, after) =~= set![c]);
    }
}

/// Where only the link of one session has changed, the connections were used as
/// that change asks.
pub proof fn lemma_links_of_one_session(before: AppContext, after: AppContext, session: Seq<char>)
    requires
        forall|s: Seq<char>|
            s != session ==> #[trigger] link_of(before.ssh_registry.links(), s) == link_of(
                after.ssh_registry.links(),
                s,
            ),
        ({
            let old_links = before.ssh_registry.links();
            let links = after.ssh_registry.links();
            if link_of(old_links, session) == link_of(links, session) {
                after.ssh_registry.connections() == before.ssh_registry.connections()
            } else {
                used_and_recounted(
                    before.ssh_registry.connections(),
                    if links.contains_key(session) {
                        links[session]
                    } else {
                        old_links[session]
                    },
                    links,
                    after.ssh_registry.mounts(),
                    after.ssh_registry.connections(),
                )
            }
        }),
    ensures
        only_use_changed(
            before.ssh_registry.connections(),
            relinked(before.ssh_registry.links(), after.ssh_registry.links()),
            after.ssh_registry.connections(),
        ),
{
    let old_links = before.ssh_registry.links();
    let links = after.ssh_registry.links();
    lemma_relinked_one(old_links, links, session);
    if link_of(old_links, session) != link_of(links, session) {
        lemma_used_is_use_changed(
            before.ssh_registry.connections(),
            if links.contains_key(session) {
                links[session]
            } else {
                old_links[session]
            },
            links,
            after.ssh_registry.mounts(),
            after.ssh_registry.connections(),
        );
    }
}

/// Changes of links add up where no session's link changes twice.
proof fn lemma_link_changes_compose(a: AppContext, b: AppContext, c: AppContext)
    requires
        only_links_changed(a, b, b.ssh_registry.links()),
        only_links_changed(b, c, c.ssh_registry.links()),
        forall|s: Seq<char>|
            #![trigger link_of(b.ssh_registry.links(), s)]
            link_of(a.ssh_registry.links(), s) == link_of(b.ssh_registry.links(), s) || link_of(
                b.ssh_registry.links(),
                s,
            ) == link_of(c.ssh_registry.links(), s),
    ensures
        only_links_changed(a, c, c.ssh_registry.links()),
{
    let x = a.ssh_registry.links();
    let y = b.ssh_registry.links();
    let z = c.ssh_registry.links();
    assert forall|k: Seq<char>| relinked(x, z).contains(k) == relinked(x, y).union(
        relinked(y, z),
    ).contains(k) by {
        if relinked(x, y).contains(k) {
            let s = choose|s: Seq<char>| #[trigger] relinks(x, y, s, k);
            assert(link_of(y, s) == link_of(z, s));
            assert(relinks(x, z, s, k));
        }
        if relinked(y, z).contains(k) {
            let s = choose|s: Seq<char>| #[trigger] relinks(y, z, s, k);
            assert(link_of(x, s) == link_of(y, s));
            assert(relinks(x, z, s, k));
        }
        if relinked(x, z).contains(k) {
            let s = choose|s: Seq<char>| #[trigger] relinks(x, z, s, k);
            if link_of(x, s) == link_of(y, s) {
                assert(relinks(y, z, s, k));
            } else {
                assert(link_of(y, s) == link_of(z, s));
                assert(relinks(x, y, s, k));
            }
        }
    }
    assert(relinked(x, z) =~= relinked(x, y).union(relinked(y, z)));
    lemma_use_changes_compose(
        a.ssh_registry.connections(),
        relinked(x, y),
        b.ssh_registry.connections(),
        relinked(y, z),
        c.ssh_registry.connections(),
    );
}

/// A change of use and then of one status.
proof fn lemma_status_after_use(
    a: Map<Seq<char>, SshConnectionSummary>,
    used: Set<Seq<char>>,
    b: Map<Seq<char>, SshConnectionSummary>,
    c: Map<Seq<char>, SshConnectionSummary>,
    id: Seq<char>,
    status: SshConnectionStatus,
)
    requires
        only_use_changed(a, used, b),
        if b.contains_key(id) {
            &&& c == b.insert(
                id,
                SshConnectionSummary { status, last_used_at: c[id].last_used_at, ..b[id] },
            )
            &&& c[id].last_used_at is Some
        } else {
            c == b
        },
    ensures
        status_was_set(a, used, c, id, status),
{
    assert(c.dom() =~= a.dom());
    assert forall|k: Seq<char>| #[trigger] c.contains_key(k) implies same_but_use(
        if k == id {
            SshConnectionSummary { status, ..a[k] }
        } else {
            a[k]
        },
        k == id || used.contains(k),
        c[k],
    ) by {
        assert(b.contains_key(k));
        assert(same_but_use(a[k], used.contains(k), b[k]));
    }
}

/// A connection that was just made serves its target, and is ready for work.
pub proof fn law_new_connection_serves(
    run: ConnectRun,
    mounts: bool,
    c: SshConnectionSummary,
)
    requires
        is_new_connection(c, run, mounts),
    ensures
        serves(c, run.target@, run.auth_kind),
        is_ready(c.status),
{
}

/// A connection that has ended, or that failed, is not used again.
pub proof fn law_ended_connection_does_not_serve(
    c: SshConnectionSummary,
    target: TargetText,
    kind: SshAuthKind,
)
    requires
        c.status == SshConnectionStatus::Disconnected || c.status == SshConnectionStatus::Failed,
    ensures
        !serves(c, target, kind),
        !is_ready(c.status),
{
}

/// Once a request has made a connection, every further request for the same target
/// in the same way of authentication gets that connection, however it writes the
/// target and whatever else it says. Only one that lacks an identity file that it
/// needs is refused.
pub proof fn law_connection_is_reused(
    before: AppContext,
    first: SshConnectRequest,
    first_description: Option<Seq<char>>,
    first_host: HostFiles,
    plan: CommandPlan,
    run: ConnectRun,
    output: CommandOutput,
    made: SshConnectResult,
    middle: AppContext,
    second: SshConnectRequest,
    second_description: Option<Seq<char>>,
    second_host: HostFiles,
    r: Result<ConnectStep, Failure>,
    after: AppContext,
)
    requires
        before.wf(),
        middle.wf(),
        connect_begun(
            before,
            first,
            first_description,
            first_host,
            Ok(ConnectStep::Verify { plan, run }),
            before,
        ),
        connect_finished(before, run, Ok(output), Ok(made), middle),
        wanted_target(second) == wanted_target(first),
        second.auth_kind == first.auth_kind,
        connect_begun(middle, second, second_description, second_host, r, after),
    ensures
        !made.reused,
        match identity_of(second.auth_kind, opt_text(second.identity_path)) {
            Ok(_) => r matches Ok(ConnectStep::Reused(done)) && done.reused
                && done.connection.connection_id@ == made.connection.connection_id@,
            Err(why) => r matches Err(e) && e@ == why,
        },
{
    let id = made.connection.connection_id@;
    let target = wanted_target(first);
    let kind = first.auth_kind;
    let list = connection_list(middle);
    let ids = middle.ssh_registry.connection_ids();
    let earlier = before.ssh_registry.connection_ids();
    middle.ssh_registry.lemma_ids();
    before.ssh_registry.lemma_ids();
    assert(middle.ssh_registry.connections().contains_key(id));
    assert(ids.to_set().contains(id));
    let i = ids.index_of(id);
    assert(list[i] == made.connection);
    lemma_some_connection_serves(list, target, kind, i);
    lemma_serving_is_known(middle, target, kind);
    let found = first_serving(list, target, kind)->0;
    if found.connection_id@ != id {
        let key = found.connection_id@;
        assert(before.ssh_registry.connections().contains_key(key));
        assert(earlier.to_set().contains(key));
        let j = earlier.index_of(key);
        assert(connection_list(before)[j] == found);
        lemma_some_connection_serves(connection_list(before), target, kind, j);
    }
    assert(middle.ssh_registry.connections().contains_key(id));
    assert(after.ssh_registry.connections()[id].connection_id@ == id);
}

/// A connection over which a session runs is not ended but by force: the request is
/// refused, and the connection keeps its status.
pub proof fn law_busy_connection_is_kept(
    before: AppContext,
    request: SshDisconnectRequest,
    session: Seq<char>,
    r: Result<DisconnectRun, Failure>,
    after: AppContext,
)
    requires
        before.wf(),
        after.wf(),
        !request.force,
        before.ssh_registry.connections().contains_key(request.connection_id@),
        link_of(before.ssh_registry.links(), session) == Some(request.connection_id@),
        due_link(before.ssh_registry.links(), before.registry.sessions(), session) == Some(
            request.connection_id@,
        ),
        disconnect_begun(before, request, r, after),
    ensures
        r is Err,
        after.ssh_registry.connections().contains_key(request.connection_id@),
        after.ssh_registry.connections()[request.connection_id@].status
            == before.ssh_registry.connections()[request.connection_id@].status,
        link_of(after.ssh_registry.links(), session) == Some(request.connection_id@),
{
    let id = request.connection_id@;
    let old_links = before.ssh_registry.links();
    let links = updated_links(
        old_links,
        before.registry.sessions(),
        linked(old_links, id).intersect(before.registry.sessions().dom()),
    );
    assert(linked(links, id).contains(session));
    assert(after.ssh_registry.links() == links);
    after.ssh_registry.lemma_counts(id);
    if linked(links, id).len() == 0 {
        assert(linked(links, id) =~= Set::empty());
    }
}

/// A connection whose ending is done has ended, and serves no request any more.
pub proof fn law_ended_connection_is_disconnected(
    before: AppContext,
    run: DisconnectRun,
    done: SshDisconnectResult,
    after: AppContext,
    target: TargetText,
    kind: SshAuthKind,
)
    requires
        before.ssh_registry.connections().contains_key(run.connection_id@),
        disconnect_goes_on(before, run, DisconnectStep::Done(done), after),
    ensures
        done.current_status == SshConnectionStatus::Disconnected,
        after.ssh_registry.connections().contains_key(run.connection_id@),
        after.ssh_registry.connections()[run.connection_id@].status
            == SshConnectionStatus::Disconnected,
        !serves(after.ssh_registry.connections()[run.connection_id@], target, kind),
{
    assert(after.ssh_registry.connections().contains_key(run.connection_id@));
}

/// The members of a listed set.
proof fn lemma_members_of(list: Seq<Seq<char>>)
    ensures
        forall|x: Seq<char>| #[trigger] list.contains(x) ==> list.to_set().contains(x),
{
}

/// A step of a run that closes what belonged to its connection does so too.
proof fn lemma_step_closes_own(
    before: AppContext,
    run: DisconnectRun,
    step: DisconnectStep,
    after: AppContext,
    began: AppContext,
)
    requires
        run.closes_own(began),
        disconnect_goes_on(before, run, step, after),
    ensures
        step_closes_own(step, began),
{
    let mounts = mount_id_texts(run.mounts@);
    let sessions = id_texts(run.sessions@);
    let m = next_mount(mounts, before.ssh_registry.mounts()) as int;
    let s = next_session(sessions, before.registry.sessions()) as int;
    match step {
        DisconnectStep::Unmount { unmount, run: next } => {
            assert(mounts.contains(mounts[m]));
            assert forall|x: Seq<char>| #[trigger]
                mount_id_texts(next.mounts@).contains(x) implies mounts.contains(x) by {
                let i = mounts.skip(m + 1).index_of(x);
                assert(mounts[m + 1 + i] == x);
            }
        },
        DisconnectStep::Kill { session_id, run: next } => {
            assert(sessions.contains(sessions[s]));
            assert forall|x: Seq<char>| #[trigger]
                id_texts(next.sessions@).contains(x) implies sessions.contains(x) by {
                let i = sessions.skip(s + 1).index_of(x);
                assert(sessions[s + 1 + i] == x);
            }
            if run.cleanup_mounts {
                assert(mount_id_texts(next.mounts@).len() == 0);
            }
        },
        DisconnectStep::Done(_) => {},
    }
}

/// Ending a connection, from its beginning through all of its steps, takes away only
/// mounts that belonged to the connection when it began, and kills only sessions
/// that were linked to it then, whatever happens in the application between the
/// steps.
pub proof fn law_disconnect_closes_only_its_own(
    asked: AppContext,
    request: SshDisconnectRequest,
    began: AppContext,
    runs: Seq<DisconnectRun>,
    steps: Seq<DisconnectStep>,
    befores: Seq<AppContext>,
    afters: Seq<AppContext>,
    i: int,
)
    requires
        runs.len() == steps.len() == befores.len() == afters.len(),
        0 <= i < runs.len(),
        disconnect_begun(asked, request, Ok(runs[0]), began),
        forall|k: int|
            0 <= k < runs.len() ==> disconnect_goes_on(
                befores[k],
                runs[k],
                #[trigger] steps[k],
                afters[k],
            ),
        forall|k: int| 0 <= k < runs.len() - 1 ==> run_follows(#[trigger] steps[k], runs[k + 1]),
    ensures
        runs[i].connection_id == request.connection_id,
        runs[i].closes_own(began),
        step_closes_own(steps[i], began),
    decreases i,
{
    if i == 0 {
        lemma_members_of(mount_id_texts(runs[0].mounts@));
        lemma_members_of(id_texts(runs[0].sessions@));
    } else {
        law_disconnect_closes_only_its_own(
            asked,
            request,
            began,
            runs,
            steps,
            befores,
            afters,
            i - 1,
        );
        assert(run_follows(steps[i - 1], runs[i]));
        assert(disconnect_goes_on(befores[i - 1], runs[i - 1], steps[i - 1], afters[i - 1]));
    }
    assert(disconnect_goes_on(befores[i], runs[i], steps[i], afters[i]));
    lemma_step_closes_own(befores[i], runs[i], steps[i], afters[i], began);
}

/// Whether an optional text is the one that is asked for, without white space around
/// it, and none where nothing but white space is asked for.
pub open spec fn is_text_asked(text: Option<Seq<char>>, asked: Option<String>) -> bool {
    &&& text is Some <==> asked is Some && trimmed(asked->0@).len() > 0
    &&& text is Some ==> text->0 == trimmed(asked->0@)
}

/// Whether a target is the one that a request names, part by part: the alias, the
/// user and the port of the request, and its host, for which the alias stands where
/// none is given.
pub open spec fn is_target_asked(target: TargetText, request: SshConnectRequest) -> bool {
    let has_host = request.host is Some && trimmed(request.host->0@).len() > 0;
    &&& is_text_asked(target.host_alias, request.host_alias)
    &&& is_text_asked(target.user, request.user)
    &&& target.port == request.port
    &&& has_host ==> target.host == trimmed(request.host->0@)
    &&& !has_host && target.host_alias is Some ==> target.host == target.host_alias->0
    &&& !has_host && target.host_alias is None ==> target.host.len() == 0
}

/// Whether a connection can still be used.
pub open spec fn is_alive(status: SshConnectionStatus) -> bool {
    status == SshConnectionStatus::Connecting || status == SshConnectionStatus::Ready || status
        == SshConnectionStatus::Degraded || status == SshConnectionStatus::Disconnecting
}

/// The identity file that a request names: one is used only where authentication is
/// by such a file.
pub open spec fn is_identity_asked(file: Option<Seq<char>>, request: SshConnectRequest) -> bool {
    &&& request.auth_kind == SshAuthKind::IdentityFile ==> request.identity_path is Some && file
        == Some(trimmed(request.identity_path->0@))
    &&& request.auth_kind != SshAuthKind::IdentityFile ==> file is None
}

/// Whether the first step of connecting leads where the request asks. A connection
/// that is used again is a known one that is alive, to the very target and with the
/// way of authentication that are asked for. A new one is tried only where there is no
/// such connection, and then at that target, in that way, with the checks of the host
/// key that are asked for.
pub open spec fn connects_where_asked(
    before: AppContext,
    request: SshConnectRequest,
    r: Result<ConnectStep, Failure>,
) -> bool {
    let known = before.ssh_registry.connections();
    match r {
        Err(_) => true,
        Ok(ConnectStep::Reused(done)) => {
            let id = done.connection.connection_id@;
            &&& done.reused
            &&& is_target_asked(done.connection.target@, request)
            &&& done.connection.auth_kind == Some(request.auth_kind)
            &&& known.contains_key(id)
            &&& done.connection.target == known[id].target
            &&& done.connection.status == known[id].status
            &&& is_alive(known[id].status)
        },
        Ok(ConnectStep::Verify { plan, run }) => {
            &&& is_target_asked(run.target@, request)
            &&& run.auth_kind == request.auth_kind
            &&& is_identity_asked(opt_text(run.identity_path), request)
            &&& run.verify_host_key == request.verify_host_key
            &&& target_is_tried(
                texts(plan.args@),
                run.target@,
                request.auth_kind,
                opt_text(run.identity_path),
                request.verify_host_key,
                8,
            )
            &&& forall|k: Seq<char>| #[trigger]
                known.contains_key(k) ==> !(is_target_asked(known[k].target@, request)
                    && known[k].auth_kind == Some(request.auth_kind) && is_alive(known[k].status))
        },
    }
}

/// The target that a request means is the one that it names, and no other is.
proof fn lemma_target_asked(request: SshConnectRequest)
    ensures
        forall|t: TargetText| #[trigger]
            is_target_asked(t, request) <==> t == wanted_target(request),
{
    reveal_strlit("");
    assert forall|t: TargetText| #[trigger] is_target_asked(t, request) implies t == wanted_target(
        request,
    ) by {
        let w = wanted_target(request);
        assert(t.host_alias == w.host_alias);
        assert(t.user == w.user);
        if t.host.len() == 0 {
            assert(t.host =~= ""@);
        }
        assert(t.host == w.host);
    }
}

/// Connecting leads where the request asks: a connection that is used again has the
/// host alias, the host, the user and the port of the request, and so has the target
/// that is tried where there is none to be used again.
pub proof fn law_connecting_leads_where_asked(
    before: AppContext,
    request: SshConnectRequest,
    description: Option<Seq<char>>,
    host: HostFiles,
    r: Result<ConnectStep, Failure>,
    after: AppContext,
)
    requires
        before.wf(),
        connect_begun(before, request, description, host, r, after),
    ensures
        connects_where_asked(before, request, r),
        r is Err ==> after == before,
{
    let target = wanted_target(request);
    let known = before.ssh_registry.connections();
    lemma_target_asked(request);
    assert(is_target_asked(target, request));
    match r {
        Ok(ConnectStep::Reused(done)) => {
            lemma_serving_is_known(before, target, request.auth_kind);
            let found = first_serving(connection_list(before), target, request.auth_kind)->0;
            let id = found.connection_id@;
            assert(after.ssh_registry.connections()[id].target == known[id].target);
            assert(done.connection.connection_id@ == id);
        },
        Ok(ConnectStep::Verify { plan, run }) => {
            law_target_is_tried_where_it_is(
                target,
                request.auth_kind,
                wanted_identity(request),
                request.verify_host_key,
                DEFAULT_CONNECT_TIMEOUT_SECS,
            );
            before.ssh_registry.lemma_ids();
            let ids = before.ssh_registry.connection_ids();
            assert forall|k: Seq<char>| #[trigger] known.contains_key(k) implies !(is_target_asked(
                known[k].target@,
                request,
            ) && known[k].auth_kind == Some(request.auth_kind) && is_alive(known[k].status)) by {
                assert(ids.to_set().contains(k));
                let i = ids.index_of(k);
                assert(connection_list(before)[i] == known[k]);
                if serves(known[k], target, request.auth_kind) {
                    lemma_some_connection_serves(
                        connection_list(before),
                        target,
                        request.auth_kind,
                        i,
                    );
                }
            }
        },
        Err(_) => {},
    }
}

/// A request that is used for a connection that is there sets how the connection is
/// used from then on: with its identity file and its checks of the host key.
pub proof fn law_reused_connection_is_used_as_asked(
    before: AppContext,
    request: SshConnectRequest,
    description: Option<Seq<char>>,
    host: HostFiles,
    done: SshConnectResult,
    after: AppContext,
)
    requires
        before.wf(),
        connect_begun(
            before,
            request,
            description,
            host,
            Ok(ConnectStep::Reused(done)),
            after,
        ),
    ensures
        ({
            let id = done.connection.connection_id@;
            let made = after.connection_contexts@[id];
            &&& after.connection_contexts@.contains_key(id)
            &&& made.auth_kind == request.auth_kind
            &&& is_identity_asked(opt_text(made.identity_path), request)
            &&& made.verify_host_key == request.verify_host_key
            &&& forall|k: Seq<char>|
                k != id && #[trigger] before.connection_contexts@.contains_key(k)
                    ==> after.connection_contexts@.contains_key(k)
                    && after.connection_contexts@[k] == before.connection_contexts@[k]
            &&& after.ssh_registry.connections().dom() == before.ssh_registry.connections().dom()
        }),
{
    lemma_serving_is_known(before, wanted_target(request), request.auth_kind);
    let found = first_serving(
        connection_list(before),
        wanted_target(request),
        request.auth_kind,
    )->0;
    assert(after.ssh_registry.connections().contains_key(found.connection_id@));
    assert(done.connection.connection_id@ == found.connection_id@);
    assert(after.ssh_registry.connections().dom() =~= before.ssh_registry.connections().dom());
}

/// A connection is made exactly where its target was reached. It then leads to the
/// target that was tried, is recorded beside all others, is ready, or degraded where
/// no mounts can be made, and is used in the way it was tried.
pub proof fn law_reached_target_becomes_a_connection(
    before: AppContext,
    run: ConnectRun,
    outcome: Result<CommandOutput, Failure>,
    r: Result<SshConnectResult, Failure>,
    after: AppContext,
)
    requires
        connect_finished(before, run, outcome, r, after),
    ensures
        r is Ok <==> (outcome matches Ok(o) && o.success),
        r is Err ==> after == before,
        r matches Ok(done) ==> {
            let id = done.connection.connection_id@;
            let c = before.ssh_capabilities;
            &&& !done.reused
            &&& is_new_id("sshconn_"@, id)
            &&& done.connection.title == run.title
            &&& done.connection.description == run.description
            &&& done.connection.target == run.target
            &&& done.connection.target_summary@ == target_summary(run.target@)
            &&& done.connection.last_used_at is Some
            &&& done.connection.metadata@.len() == 0
            &&& done.connection.auth_kind == Some(run.auth_kind)
            &&& done.connection.status == SshConnectionStatus::Ready
                || done.connection.status == SshConnectionStatus::Degraded
            &&& done.connection.status == SshConnectionStatus::Ready <==> c.sshfs.available
                && c.unmount.available && (c.platform@ == "macos"@ ==> c.macfuse is Some
                && c.macfuse->0.available)
            &&& after.ssh_registry.connections().contains_key(id)
            &&& after.ssh_registry.connections()[id] == done.connection
            &&& forall|k: Seq<char>|
                k != id && #[trigger] before.ssh_registry.connections().contains_key(k)
                    ==> after.ssh_registry.connections().contains_key(k)
                    && after.ssh_registry.connections()[k]
                    == before.ssh_registry.connections()[k]
            &&& after.connection_contexts@[id].auth_kind == run.auth_kind
            &&& after.connection_contexts@[id].identity_path == run.identity_path
            &&& after.connection_contexts@[id].verify_host_key == run.verify_host_key
            &&& after.registry == before.registry
            &&& after.ssh_registry.mounts() == before.ssh_registry.mounts()
            &&& after.ssh_registry.tunnels() == before.ssh_registry.tunnels()
            &&& after.ssh_registry.links() == before.ssh_registry.links()
        },
{
}

/// Mounts can be made where `sshfs` and `umount` are there and, on macOS alone, the
/// FUSE provider is too.
pub proof fn law_mounts_need_their_programs(c: SshCapabilityView)
    ensures
        can_mount(c) ==> c.sshfs.available && c.unmount.available,
        can_mount(c) && c.platform@ == "macos"@ ==> c.macfuse is Some && c.macfuse->0.available,
        c.sshfs.available && c.unmount.available && c.platform@ != "macos"@ ==> can_mount(c),
        c.sshfs.available && c.unmount.available && c.macfuse is Some && c.macfuse->0.available
            ==> can_mount(c),
{
}

/// A connection is used only where it is known and either ready or degraded.
pub proof fn law_only_ready_connections_are_used(
    connections: Map<Seq<char>, SshConnectionSummary>,
    id: Seq<char>,
    action: Seq<char>,
)
    ensures
        readiness_refusal(connections, id, action) is None <==> connections.contains_key(id) && (
        connections[id].status == SshConnectionStatus::Ready || connections[id].status
            == SshConnectionStatus::Degraded),
{
}

/// Whether a mount belongs to a connection and is being made, there, or being taken
/// away.
pub open spec fn holds_a_mount(
    mounts: Map<Seq<char>, SshMountSummary>,
    m: Seq<char>,
    id: Seq<char>,
) -> bool {
    &&& mounts.contains_key(m)
    &&& mounts[m].connection_id@ == id
    &&& mounts[m].status == SshMountStatus::Mounting || mounts[m].status
        == SshMountStatus::Mounted || mounts[m].status == SshMountStatus::Unmounting
}

/// A connection with active mounts is ended only by force and where its mounts are
/// cleaned up too; by force, with its mounts cleaned up, every known one is. It is
/// then marked as ending, with all its mounts, and no others, to be looked at.
pub proof fn law_active_mounts_keep_a_connection(
    before: AppContext,
    request: SshDisconnectRequest,
    m: Seq<char>,
    r: Result<DisconnectRun, Failure>,
    after: AppContext,
)
    requires
        before.wf(),
        disconnect_begun(before, request, r, after),
    ensures
        ({
            let id = request.connection_id@;
            let known = before.ssh_registry.connections().contains_key(id);
            let mounts = before.ssh_registry.mounts();
            &&& !known ==> r is Err && after == before
            &&& holds_a_mount(mounts, m, id) && !(request.force && request.cleanup_mounts)
                ==> r is Err
            &&& known && request.force && request.cleanup_mounts ==> r is Ok
            &&& r is Err && known ==> after.ssh_registry.connections().contains_key(id)
                && after.ssh_registry.connections()[id].status
                == before.ssh_registry.connections()[id].status
            &&& after.ssh_registry.mounts() == mounts
            &&& after.ssh_registry.tunnels() == before.ssh_registry.tunnels()
            &&& after.registry == before.registry
            &&& r matches Ok(run) ==> {
                &&& run.connection_id == request.connection_id
                &&& run.force == request.force
                &&& run.cleanup_mounts == request.cleanup_mounts
                &&& run.previous_status == before.ssh_registry.connections()[id].status
                &&& run.closed_mounts == 0
                &&& run.closed_sessions == 0
                &&& after.ssh_registry.connections().contains_key(id)
                &&& after.ssh_registry.connections()[id].status
                    == SshConnectionStatus::Disconnecting
                &&& mount_id_texts(run.mounts@).contains(m) <==> mounts.contains_key(m)
                    && mounts[m].connection_id@ == id
                &&& id_texts(run.sessions@).contains(m)
                    <==> after.ssh_registry.links().contains_key(m)
                    && after.ssh_registry.links()[m] == id
            }
        }),
{
    let id = request.connection_id@;
    let mounts = before.ssh_registry.mounts();
    if holds_a_mount(mounts, m, id) && before.ssh_registry.connections().contains_key(id) {
        before.ssh_registry.lemma_counts(id);
        assert(active_mounts(mounts, id).contains(m));
        if active_mounts(mounts, id).len() == 0 {
            assert(active_mounts(mounts, id) =~= Set::empty());
        }
    }
    if r is Ok {
        let run = r->Ok_0;
        assert(after.ssh_registry.connections().contains_key(id));
        assert(mount_id_texts(run.mounts@).to_set().contains(m) == mount_id_texts(
            run.mounts@,
        ).contains(m));
        assert(id_texts(run.sessions@).to_set().contains(m) == id_texts(run.sessions@).contains(m));
    } else if before.ssh_registry.connections().contains_key(id) {
        assert(after.ssh_registry.connections().contains_key(id));
    }
}

proof fn lemma_first_of(list: Seq<Seq<char>>, want: spec_fn(Seq<char>) -> bool)
    ensures
        first_where(list, want) <= list.len(),
        first_where(list, want) < list.len() ==> want(list[first_where(list, want) as int]),
        forall|i: int| 0 <= i < first_where(list, want) ==> !want(#[trigger] list[i]),
    decreases list.len(),
{
    if list.len() > 0 && !want(list[0]) {
        lemma_first_of(list.drop_first(), want);
        assert forall|i: int| 0 <= i < first_where(list, want) implies !want(#[trigger] list[i]) by {
            if i > 0 {
                assert(list.drop_first()[i - 1] == list[i]);
            }
        }
    }
}

/// Ending a connection takes away active mounts, and only where mounts are cleaned up;
/// kills known sessions, and only by force; and is done only where nothing of that is
/// left. Tunnels stay as they are.
pub proof fn law_ending_closes_what_is_left(
    before: AppContext,
    run: DisconnectRun,
    step: DisconnectStep,
    after: AppContext,
)
    requires
        disconnect_goes_on(before, run, step, after),
    ensures
        ({
            let mounts = before.ssh_registry.mounts();
            let sessions = before.registry.sessions();
            let no_mounts = forall|i: int|
                0 <= i < run.mounts@.len() ==> {
                    let m = (#[trigger] run.mounts@[i])@;
                    !(mounts.contains_key(m) && (mounts[m].status == SshMountStatus::Mounting
                        || mounts[m].status == SshMountStatus::Mounted || mounts[m].status
                        == SshMountStatus::Unmounting))
                };
            &&& after.ssh_registry.tunnels() == before.ssh_registry.tunnels()
            &&& after.ssh_registry.mounts() == mounts
            &&& after.registry == before.registry
            &&& match step {
                DisconnectStep::Unmount { unmount, run: next } => {
                    let m = unmount.mount_id@;
                    &&& run.cleanup_mounts
                    &&& mount_id_texts(run.mounts@).contains(m)
                    &&& mounts.contains_key(m)
                    &&& mounts[m].status == SshMountStatus::Mounting || mounts[m].status
                        == SshMountStatus::Mounted || mounts[m].status
                        == SshMountStatus::Unmounting
                    &&& unmount.force == run.force
                    &&& unmount.cleanup_local_path
                    &&& next.mounts@.len() < run.mounts@.len()
                },
                DisconnectStep::Kill { session_id, run: next } => {
                    &&& run.force
                    &&& run.cleanup_mounts ==> no_mounts
                    &&& id_texts(run.sessions@).contains(session_id@)
                    &&& sessions.contains_key(session_id@)
                    &&& next.sessions@.len() < run.sessions@.len()
                },
                DisconnectStep::Done(done) => {
                    &&& run.cleanup_mounts ==> no_mounts
                    &&& run.force ==> forall|i: int|
                        0 <= i < run.sessions@.len() ==> !sessions.contains_key(
                            (#[trigger] run.sessions@[i])@,
                        )
                    &&& run.force ==> forall|i: int|
                        0 <= i < run.sessions@.len() ==> !after.ssh_registry.links().contains_key(
                            (#[trigger] run.sessions@[i])@,
                        )
                    &&& done.connection_id == run.connection_id
                    &&& done.previous_status == run.previous_status
                    &&& done.current_status == SshConnectionStatus::Disconnected
                    &&& done.closed_sessions == run.closed_sessions
                    &&& done.closed_mounts == run.closed_mounts
                    &&& done.closed_tunnels == 0
                },
            }
        }),
{
    let mounts = before.ssh_registry.mounts();
    let sessions = before.registry.sessions();
    let want_mount = |m: Seq<char>| mounts.contains_key(m) && mount_is_active(mounts[m].status);
    let want_session = |s: Seq<char>| sessions.contains_key(s);
    let ms = mount_id_texts(run.mounts@);
    let ss = id_texts(run.sessions@);
    lemma_first_of(ms, want_mount);
    lemma_first_of(ss, want_session);
    let m = next_mount(ms, mounts) as int;
    let s = next_session(ss, sessions) as int;
    assert(m == first_where(ms, want_mount));
    assert(s == first_where(ss, want_session));
    match step {
        DisconnectStep::Unmount { unmount, run: next } => {
            assert(ms.contains(ms[m]));
            assert(mount_id_texts(next.mounts@).len() == ms.skip(m + 1).len());
        },
        DisconnectStep::Kill { session_id, run: next } => {
            assert(ss.contains(ss[s]));
            assert(id_texts(next.sessions@).len() == ss.skip(s + 1).len());
            if run.cleanup_mounts {
                assert(m == ms.len());
                assert forall|i: int| 0 <= i < run.mounts@.len() implies {
                    let k = (#[trigger] run.mounts@[i])@;
                    !(mounts.contains_key(k) && mount_is_active(mounts[k].status))
                } by {
                    assert(!want_mount(ms[i]));
                }
            }
        },
        DisconnectStep::Done(done) => {
            if run.cleanup_mounts {
                assert forall|i: int| 0 <= i < run.mounts@.len() implies {
                    let k = (#[trigger] run.mounts@[i])@;
                    !(mounts.contains_key(k) && mount_is_active(mounts[k].status))
                } by {
                    assert(!want_mount(ms[i]));
                }
            }
            if run.force {
                assert forall|i: int| 0 <= i < run.sessions@.len() implies !sessions.contains_key(
                    (#[trigger] run.sessions@[i])@,
                ) && !after.ssh_registry.links().contains_key(run.sessions@[i]@) by {
                    assert(!want_session(ss[i]));
                    assert(ss.contains(ss[i]));
                    assert(ss.to_set().contains(ss[i]));
                }
            }
        },
    }
}

/// The link of a session follows the session: one that is not known has none; one
/// that names a connection is linked to it while it lives, and not at all once it is
/// over; one that names none keeps what it has. The links of other sessions stay.
pub proof fn law_links_follow_sessions(
    links: Map<Seq<char>, Seq<char>>,
    sessions: Map<Seq<char>, SessionEntry>,
    some: Set<Seq<char>>,
    s: Seq<char>,
)
    ensures
        ({
            let r = updated_links(links, sessions, some);
            let e = sessions[s].summary;
            let lives = (e.status == SessionStatus::Starting || e.status == SessionStatus::Running
                || e.status == SessionStatus::Closing) && e.exit_info is None;
            &&& !some.contains(s) || (sessions.contains_key(s) && e.connection_id is None) ==> (
            r.contains_key(s) <==> links.contains_key(s)) && (links.contains_key(s) ==> r[s]
                == links[s])
            &&& some.contains(s) && !sessions.contains_key(s) ==> !r.contains_key(s)
            &&& some.contains(s) && sessions.contains_key(s) && e.connection_id is Some && lives
                ==> r.contains_key(s) && r[s] == e.connection_id->0@
            &&& some.contains(s) && sessions.contains_key(s) && e.connection_id is Some && !lives
                ==> !r.contains_key(s)
        }),
{
}

/// Where only the use of connections changes, each keeps what it is: where it leads, how
/// it was made and how it fares. One that was used has a moment of its last use.
pub proof fn law_use_changes_nothing_else(
    before: Map<Seq<char>, SshConnectionSummary>,
    used: Set<Seq<char>>,
    after: Map<Seq<char>, SshConnectionSummary>,
    k: Seq<char>,
)
    requires
        only_use_changed(before, used, after),
    ensures
        after.contains_key(k) <==> before.contains_key(k),
        after.contains_key(k) ==> {
            &&& after[k].connection_id == before[k].connection_id
            &&& after[k].title == before[k].title
            &&& after[k].description == before[k].description
            &&& after[k].target == before[k].target
            &&& after[k].status == before[k].status
            &&& after[k].auth_kind == before[k].auth_kind
            &&& after[k].started_at == before[k].started_at
        },
        after.contains_key(k) && used.contains(k) ==> after[k].last_used_at is Some,
        after.contains_key(k) && !used.contains(k) ==> after[k].last_used_at
            == before[k].last_used_at,
{
}

/// Where a status is set, it is set of one connection, which counts as a use of it; all
/// other connections, and all sessions, mounts, tunnels and links, are left alone.
pub proof fn law_status_is_set_of_one_connection(
    before: AppContext,
    after: AppContext,
    id: Seq<char>,
    status: SshConnectionStatus,
    k: Seq<char>,
)
    requires
        only_status_set(before, after, id, status),
    ensures
        after.registry == before.registry,
        after.connection_contexts == before.connection_contexts,
        after.mount_contexts == before.mount_contexts,
        after.ssh_registry.mounts() == before.ssh_registry.mounts(),
        after.ssh_registry.tunnels() == before.ssh_registry.tunnels(),
        after.ssh_registry.links() == before.ssh_registry.links(),
        ({
            let was = before.ssh_registry.connections();
            let is = after.ssh_registry.connections();
            &&& is.contains_key(k) <==> was.contains_key(k)
            &&& is.contains_key(id) ==> is[id].status == status && is[id].last_used_at is Some
            &&& is.contains_key(k) && k != id ==> is[k].status == was[k].status
                && is[k].last_used_at == was[k].last_used_at
            &&& is.contains_key(k) ==> is[k].target == was[k].target && is[k].auth_kind
                == was[k].auth_kind && is[k].connection_id == was[k].connection_id
        }),
{
}

/// Where links change, the connections they concern are used, and nothing else changes:
/// a connection is used exactly where a session is linked to it that was not, or a session
/// that was linked to it is linked to none.
pub proof fn law_links_change_alone(
    before: AppContext,
    after: AppContext,
    links: Map<Seq<char>, Seq<char>>,
    session: Seq<char>,
    k: Seq<char>,
)
    requires
        only_links_changed(before, after, links),
    ensures
        after.registry == before.registry,
        after.connection_contexts == before.connection_contexts,
        after.mount_contexts == before.mount_contexts,
        after.ssh_registry.links() == links,
        after.ssh_registry.mounts() == before.ssh_registry.mounts(),
        after.ssh_registry.tunnels() == before.ssh_registry.tunnels(),
        ({
            let was = before.ssh_registry.connections();
            let is = after.ssh_registry.connections();
            let linked = before.ssh_registry.links();
            &&& is.contains_key(k) <==> was.contains_key(k)
            &&& is.contains_key(k) ==> is[k].status == was[k].status && is[k].target
                == was[k].target
            &&& is.contains_key(k) && links.contains_key(session) && links[session] == k && !(
            linked.contains_key(session) && linked[session] == k) ==> is[k].last_used_at is Some
            &&& is.contains_key(k) && !links.contains_key(session) && linked.contains_key(session)
                && linked[session] == k ==> is[k].last_used_at is Some
            &&& is.contains_key(k) && links == linked ==> is[k].last_used_at
                == was[k].last_used_at
        }),
{
    let linked = before.ssh_registry.links();
    let is = after.ssh_registry.connections();
    if links.contains_key(session) && links[session] == k && !(linked.contains_key(session)
        && linked[session] == k) {
        assert(relinks(linked, links, session, k));
        assert(relinked(linked, links).contains(k));
    }
    if !links.contains_key(session) && linked.contains_key(session) && linked[session] == k {
        assert(relinks(linked, links, session, k));
        assert(relinked(linked, links).contains(k));
    }
    if links == linked {
        assert(!relinked(linked, links).contains(k));
    }
}

/// A connection is described as the request says, without white space around it, or else
/// by the target it leads to.
pub proof fn law_connections_are_described(request: SshConnectRequest)
    ensures
        usual_description(request) is Some,
        request.description is Some && trimmed(request.description->0@).len() > 0
            ==> usual_description(request)->0 == trimmed(request.description->0@),
        request.description is None || trimmed(request.description->0@).len() == 0
            ==> usual_description(request)->0 == "SSH connection: "@ + target_summary(
            wanted_target(request),
        ),
{
}

/// Connecting is refused, and changes nothing, where there is no `ssh` on this host or the
/// rules do not let the request pass; where it is neither refused nor served by a
/// connection that is there, the target is tried exactly where `ssh` is found.
pub proof fn law_connecting_needs_leave(
    before: AppContext,
    request: SshConnectRequest,
    description: Option<Seq<char>>,
    host: HostFiles,
    r: Result<ConnectStep, Failure>,
    after: AppContext,
)
    requires
        connect_begun(before, request, description, host, r, after),
    ensures
        ({
            let refusal = connect_refusal(
                before.ssh_guard@,
                before.ssh_config@,
                wanted_target(request),
                request.auth_kind,
                opt_text(request.identity_path),
            );
            let ssh = ssh_path(before, host);
            let found = ssh is Some && crate::config::is_known_file(host, ssh->0);
            &&& r is Err ==> after == before
            &&& !before.ssh_capabilities.ssh.available ==> r is Err
            &&& refusal is Some ==> r is Err
            &&& before.ssh_capabilities.ssh.available && refusal is Some ==> r->Err_0@ == refusal->0
            &&& before.ssh_capabilities.ssh.available && refusal is None && found ==> r is Ok
            &&& r is Ok && r->Ok_0 is Verify ==> found && after == before && opt_text(
                r->Ok_0->run.description,
            ) == description && r->Ok_0->run.title == request.title && r->Ok_0->plan.program@
                == ssh->0
        }),
{
}

/// Reusing a connection changes nothing but its use and how it is used: no session, mount,
/// tunnel or link, and no other connection.
pub proof fn law_reuse_changes_little(
    before: AppContext,
    request: SshConnectRequest,
    description: Option<Seq<char>>,
    host: HostFiles,
    done: SshConnectResult,
    after: AppContext,
    k: Seq<char>,
)
    requires
        before.wf(),
        connect_begun(before, request, description, host, Ok(ConnectStep::Reused(done)), after),
    ensures
        done.reused,
        after.registry == before.registry,
        after.mount_contexts == before.mount_contexts,
        after.ssh_registry.mounts() == before.ssh_registry.mounts(),
        after.ssh_registry.tunnels() == before.ssh_registry.tunnels(),
        after.ssh_registry.links() == before.ssh_registry.links(),
        done.connection.last_used_at is Some,
        ({
            let was = before.ssh_registry.connections();
            let is = after.ssh_registry.connections();
            &&& is.contains_key(k) <==> was.contains_key(k)
            &&& was.contains_key(k) ==> is[k].target == was[k].target && is[k].status
                == was[k].status && is[k].auth_kind == was[k].auth_kind
            &&& was.contains_key(k) && k != done.connection.connection_id@ ==> is[k].last_used_at
                == was[k].last_used_at
            &&& k != done.connection.connection_id@ && before.connection_contexts@.contains_key(k)
                ==> after.connection_contexts@.contains_key(k) && after.connection_contexts@[k]
                == before.connection_contexts@[k]
        }),
{
    let target = wanted_target(request);
    let found = first_serving(connection_list(before), target, request.auth_kind)->0;
    lemma_serving_is_known(before, target, request.auth_kind);
    let id = found.connection_id@;
    law_use_is_noted_of_one_connection(
        before.ssh_registry.connections(),
        id,
        before.ssh_registry.links(),
        before.ssh_registry.mounts(),
        after.ssh_registry.connections(),
        k,
    );
    law_use_is_noted_of_one_connection(
        before.ssh_registry.connections(),
        id,
        before.ssh_registry.links(),
        before.ssh_registry.mounts(),
        after.ssh_registry.connections(),
        id,
    );
}

} // verus!
