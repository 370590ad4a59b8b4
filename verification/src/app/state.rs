//! The application as one value: what it was set up with, what it keeps, and what
//! it is asked for.
use super::context::{
    brings_nothing_in, AppContext, SshConnectionRuntimeContext, SshMountRuntimeContext,
};
use super::local_sessions::{spawn_begun, LocalSessionService};
use super::ssh_connections::{
    can_mount, connect_begun, connect_finished, connection_list, connects_where_asked,
    disconnect_begun, only_links_changed, updated_links, wanted_target, ConnectRun, ConnectStep,
    DisconnectRun, SshService,
};
use super::ssh_files::{
    capture_planned, list_script, lists_remotely, makes_directory_remotely, mkdir_script,
    read_script, reads_remotely, write_script, writes_remotely, CaptureRun,
};
use super::ssh_mounts::{
    law_mounting_leads_where_asked, mount_begun, mounts_as_asked, unmount_begun, MountStep,
    UnmountProgress,
};
use super::ssh_sessions::{
    exec_begun, executes_as_asked, law_remote_run_is_what_is_asked,
    law_remote_script_is_what_is_asked, law_remote_session_is_what_is_asked, run_planned,
    runs_as_asked, session_spawn_begun, spawns_as_asked,
};
use super::support::{
    max_bytes_refusal, normalized_config, path_refusal, Manner, MAX_WRITE_BYTES,
};
use super::types::{
    SpawnSessionRequest, SshConnectRequest, SshConnectResult, SshDisconnectRequest, SshExecRequest,
    SshListResult, SshMountRequest, SshRunRequest, SshSessionSpawnRequest, SshUnmountRequest,
};
use crate::buffer::store::is_page;
use crate::buffer::view::{BufferReadPage, BufferReadRequest};
use crate::config::{Config, HostFiles, SshConfig};
use crate::error::Failure;
use crate::ordered::lists_in_order;
use crate::permission::guard::CwdFacts;
use crate::permission::policy::{command_names, env_keys};
use crate::outside::{is_new_id, pattern_fault};
use crate::pty::runtime::{decoded, PtySpawnRequest};
use crate::session::model::{id_texts, status_is_live, SessionId, SignalKind};
use crate::session::registry::{
    closing, is_over, is_wait_result, not_found_text, not_running_text, KillProgress, SessionEntry,
    SessionRegistry, WaitProgress,
};
use crate::ssh::capability_probe::{describes_host, ProbeOutputs, SshCapabilityProbe};
use crate::ssh::guard::SshGuard;
use crate::ssh::model::{
    target_summary, SshCapabilityView, SshConnectionId, SshConnectionStatus, SshConnectionSummary,
    SshMountId, SshMountSummary, SshTarget,
};
use crate::ssh::policy::rules_of;
use crate::ssh::registry::{
    active_mounts, connection_not_found_text, disconnect_refusal, linked, mount_id_texts, mounted,
    recounted, used_and_recounted, without_links, without_mounts, SshConnectionRelations,
    SshConnectionResourceCounts, SshRegistry,
};
use crate::ssh::runtime::{CommandOutput, CommandPlan, SshRuntime};
use crate::text::{clone_opt, opt_text, trimmed};
use vstd::prelude::*;
use vstd::utf8::encode_utf8;

verus! {

/// The application. What it is asked for is taken directly: descriptions stay as they
/// are given, and failures are not dressed in a service's words.
pub struct AppState {
    pub context: AppContext,
}

impl AppState {
    /// The connections, mounts and tunnels.
    pub open spec fn ssh(&self) -> SshRegistry {
        self.context.ssh_registry
    }

    /// The sessions.
    pub open spec fn local(&self) -> SessionRegistry {
        self.context.registry
    }

    /// An application that starts, from its configuration and from what this host
    /// can do.
    pub fn new(config: Config, host: &HostFiles, seen: &ProbeOutputs, current_dir: &str) -> (r: Self)
        ensures
            r.context.wf(),
            r.context.config@ == normalized_config(config@),
            r.context.ssh_config@ == r.context.config@.ssh,
            describes_host(r.context.ssh_capabilities, r.context.config@.ssh, *host, *seen),
            r.context.guard@.commands_allowed() == command_names(r.context.config@.allowed_commands),
            r.context.guard@.commands_denied() == command_names(r.context.config@.denied_commands),
            r.context.guard@.env_allowed() == env_keys(r.context.config@.allowed_env_vars),
            r.context.guard@.env_denied() == env_keys(r.context.config@.denied_env_vars),
            r.context.guard@.cwd_roots() == r.context.config@.allowed_cwd_roots,
            r.context.ssh_guard@ == rules_of(r.context.config@, current_dir@),
            r.local().sessions() == Map::<Seq<char>, SessionEntry>::empty(),
            r.local().limit() == if r.context.config@.session_limit >= 1 {
                r.context.config@.session_limit as nat
            } else {
                1
            },
            r.local().buffer_lines() == if r.context.config@.max_buffer_lines >= 1 {
                r.context.config@.max_buffer_lines as nat
            } else {
                1
            },
            r.ssh().is_empty(),
            r.context.connection_contexts@ == Map::<Seq<char>, SshConnectionRuntimeContext>::empty(),
            r.context.mount_contexts@ == Map::<Seq<char>, SshMountRuntimeContext>::empty(),
    {
        AppState { context: AppContext::new(config, host, seen, current_dir) }
    }

    /// The configuration.
    pub fn config(&self) -> (r: &Config)
        ensures
            *r == self.context.config,
    {
        &self.context.config
    }

    /// The sessions.
    pub fn registry(&self) -> (r: &SessionRegistry)
        ensures
            *r == self.context.registry,
    {
        &self.context.registry
    }

    /// The configuration of SSH.
    pub fn ssh_config(&self) -> (r: &SshConfig)
        ensures
            *r == self.context.ssh_config,
    {
        &self.context.ssh_config
    }

    /// The guard of SSH requests.
    pub fn ssh_guard(&self) -> (r: &SshGuard)
        ensures
            *r == self.context.ssh_guard,
    {
        &self.context.ssh_guard
    }

    /// What commands are made of.
    pub fn ssh_runtime(&self) -> (r: &SshRuntime)
        ensures
            *r == self.context.ssh_runtime,
    {
        &self.context.ssh_runtime
    }

    /// The connections, mounts and tunnels.
    pub fn ssh_registry(&self) -> (r: &SshRegistry)
        ensures
            *r == self.context.ssh_registry,
    {
        &self.context.ssh_registry
    }

    /// The probe of what this host can do.
    pub fn ssh_capability_probe(&self) -> (r: &SshCapabilityProbe)
        ensures
            *r == self.context.ssh_capability_probe,
    {
        &self.context.ssh_capability_probe
    }

    /// What this host can do.
    pub fn ssh_capabilities(&self) -> (r: &SshCapabilityView)
        ensures
            *r == self.context.ssh_capabilities,
    {
        &self.context.ssh_capabilities
    }

    /// Whether mounts can be made on this host.
    pub fn ssh_mount_feature_available(&self) -> (r: bool)
        ensures
            r == can_mount(self.context.ssh_capabilities),
    {
        SshService::mount_feature_available(&self.context)
    }

    /// Puts in a connection that was never made.
    pub fn ssh_create_placeholder_connection(&mut self, target: SshTarget) -> (r: SshConnectionSummary)
        requires
            old(self).context.wf(),
        ensures
            final(self).context.wf(),
            final(self).context == (AppContext {
                ssh_registry: final(self).context.ssh_registry,
                ..old(self).context
            }),
            final(self).ssh().mounts() == old(self).ssh().mounts(),
            final(self).ssh().tunnels() == old(self).ssh().tunnels(),
            final(self).ssh().links() == old(self).ssh().links(),
            is_new_id("sshconn_"@, r.connection_id@),
            r.target == target,
            r.target_summary@ == target_summary(target@),
            r == (SshConnectionSummary {
                connection_id: r.connection_id,
                title: None,
                description: None,
                status: SshConnectionStatus::Connecting,
                target,
                target_summary: r.target_summary,
                auth_kind: None,
                started_at: r.started_at,
                last_used_at: None,
                active_session_count: 0,
                active_mount_count: 0,
                metadata: r.metadata,
            }),
            r.metadata@.len() == 0,
            final(self).ssh().connections() == old(self).ssh().connections().insert(
                r.connection_id@,
                recounted(
                    SshConnectionSummary {
                        last_used_at: if old(self).ssh().connections().contains_key(r.connection_id@) {
                            old(self).ssh().connections()[r.connection_id@].last_used_at
                        } else {
                            None
                        },
                        ..r
                    },
                    old(self).ssh().links(),
                    old(self).ssh().mounts(),
                ),
            ),
    {
        self.context.ssh_registry.create_placeholder_connection(target)
    }

    /// Asks for a connection: one that serves is handed out again, and otherwise a new one
    /// is to be verified, which keeps the description as it is given.
    pub fn ssh_connect(&mut self, request: SshConnectRequest, host: &HostFiles) -> (r:
        Result<ConnectStep, Failure>)
        requires
            old(self).context.wf(),
        ensures
            final(self).context.wf(),
            brings_nothing_in(old(self).context, final(self).context),
            connect_begun(
                old(self).context,
                request,
                opt_text(request.description),
                *host,
                r,
                final(self).context,
            ),
            connects_where_asked(old(self).context, request, r),
            r matches Ok(ConnectStep::Reused(done)) ==> done.connection.target@ == wanted_target(
                request,
            ),
    {
        let description = clone_opt(&request.description);
        SshService::connect_described(&mut self.context, request, description, host)
    }

    /// Takes in whether a new connection was verified.
    pub fn ssh_connect_verified(
        &mut self,
        run: ConnectRun,
        outcome: Result<CommandOutput, Failure>,
    ) -> (r: Result<SshConnectResult, Failure>)
        requires
            old(self).context.wf(),
        ensures
            final(self).context.wf(),
            connect_finished(old(self).context, run, outcome, r, final(self).context),
    {
        SshService::connect_verified(&mut self.context, run, outcome)
    }

    /// All connections, mounts and tunnels.
    pub fn ssh_list(&self) -> (r: SshListResult)
        requires
            self.context.wf(),
        ensures
            r.connections@ == connection_list(self.context),
            r.mounts@ == self.ssh().mount_ids().map_values(
                |k: Seq<char>| self.ssh().mounts()[k],
            ),
            r.tunnels@ == self.ssh().tunnel_ids().map_values(
                |k: Seq<char>| self.ssh().tunnels()[k],
            ),
    {
        SshService::list(&self.context)
    }

    /// Puts in a connection.
    pub fn ssh_upsert_connection(&mut self, summary: SshConnectionSummary)
        requires
            old(self).context.wf(),
        ensures
            final(self).context.wf(),
            final(self).context == (AppContext {
                ssh_registry: final(self).context.ssh_registry,
                ..old(self).context
            }),
            final(self).ssh().mounts() == old(self).ssh().mounts(),
            final(self).ssh().tunnels() == old(self).ssh().tunnels(),
            final(self).ssh().links() == old(self).ssh().links(),
            final(self).ssh().connections() == old(self).ssh().connections().insert(
                summary.connection_id@,
                recounted(
                    SshConnectionSummary {
                        last_used_at: if summary.last_used_at is None
                            && old(self).ssh().connections().contains_key(summary.connection_id@) {
                            old(self).ssh().connections()[summary.connection_id@].last_used_at
                        } else {
                            summary.last_used_at
                        },
                        ..summary
                    },
                    old(self).ssh().links(),
                    old(self).ssh().mounts(),
                ),
            ),
    {
        self.context.ssh_registry.upsert_connection(summary)
    }

    /// Puts in a mount.
    pub fn ssh_upsert_mount(&mut self, summary: SshMountSummary)
        requires
            old(self).context.wf(),
        ensures
            final(self).context.wf(),
            final(self).context == (AppContext {
                ssh_registry: final(self).context.ssh_registry,
                ..old(self).context
            }),
            final(self).ssh().tunnels() == old(self).ssh().tunnels(),
            final(self).ssh().links() == old(self).ssh().links(),
            final(self).ssh().mounts() == old(self).ssh().mounts().insert(summary.mount_id@, summary),
            used_and_recounted(
                old(self).ssh().connections(),
                summary.connection_id@,
                final(self).ssh().links(),
                final(self).ssh().mounts(),
                final(self).ssh().connections(),
            ),
    {
        self.context.ssh_registry.upsert_mount(summary)
    }

    /// A connection.
    pub fn ssh_get_connection(&self, connection_id: &SshConnectionId) -> (r: Option<
        SshConnectionSummary,
    >)
        requires
            self.context.wf(),
        ensures
            match r {
                Some(c) => self.ssh().connections().contains_key(connection_id@) && c
                    == self.ssh().connections()[connection_id@],
                None => !self.ssh().connections().contains_key(connection_id@),
            },
    {
        self.context.ssh_registry.get_connection(connection_id)
    }

    /// A mount.
    pub fn ssh_get_mount(&self, mount_id: &SshMountId) -> (r: Option<SshMountSummary>)
        requires
            self.context.wf(),
        ensures
            match r {
                Some(m) => self.ssh().mounts().contains_key(mount_id@) && m
                    == self.ssh().mounts()[mount_id@],
                None => !self.ssh().mounts().contains_key(mount_id@),
            },
    {
        self.context.ssh_registry.get_mount(mount_id)
    }

    /// All connections, in the order of their identifiers.
    pub fn ssh_list_connections(&self) -> (r: Vec<SshConnectionSummary>)
        requires
            self.context.wf(),
        ensures
            r@ == self.ssh().connection_ids().map_values(|k: Seq<char>| self.ssh().connections()[k]),
    {
        self.context.ssh_registry.list_connections()
    }

    /// All mounts, in the order of their identifiers.
    pub fn ssh_list_mounts(&self) -> (r: Vec<SshMountSummary>)
        requires
            self.context.wf(),
        ensures
            r@ == self.ssh().mount_ids().map_values(|k: Seq<char>| self.ssh().mounts()[k]),
    {
        self.context.ssh_registry.list_mounts()
    }

    /// Takes out a connection, with its sessions and mounts and with what is remembered of it.
    pub fn ssh_remove_connection(&mut self, connection_id: &SshConnectionId) -> (r: Option<
        SshConnectionSummary,
    >)
        requires
            old(self).context.wf(),
        ensures
            final(self).context.wf(),
            brings_nothing_in(old(self).context, final(self).context),
            final(self).context == (AppContext {
                ssh_registry: final(self).context.ssh_registry,
                connection_contexts: final(self).context.connection_contexts,
                ..old(self).context
            }),
            final(self).ssh().tunnels() == old(self).ssh().tunnels(),
            final(self).ssh().links() == without_links(
                old(self).ssh().links(),
                connection_id@,
            ),
            final(self).ssh().mounts() == without_mounts(
                old(self).ssh().mounts(),
                connection_id@,
            ),
            final(self).ssh().connections() == old(self).ssh().connections().remove(connection_id@),
            match r {
                Some(c) => {
                    &&& old(self).ssh().connections().contains_key(connection_id@)
                    &&& c == old(self).ssh().connections()[connection_id@]
                    &&& final(self).context.connection_contexts@
                        == old(self).context.connection_contexts@.remove(connection_id@)
                },
                None => {
                    &&& !old(self).ssh().connections().contains_key(connection_id@)
                    &&& final(self).context.connection_contexts@
                        == old(self).context.connection_contexts@
                },
            },
    {
        SshService::remove_connection(&mut self.context, connection_id)
    }

    /// Takes out a mount, with what is remembered of it.
    pub fn ssh_remove_mount(&mut self, mount_id: &SshMountId) -> (r: Option<
        SshMountSummary,
    >)
        requires
            old(self).context.wf(),
        ensures
            final(self).context.wf(),
            brings_nothing_in(old(self).context, final(self).context),
            final(self).context == (AppContext {
                ssh_registry: final(self).context.ssh_registry,
                mount_contexts: final(self).context.mount_contexts,
                ..old(self).context
            }),
            final(self).ssh().tunnels() == old(self).ssh().tunnels(),
            final(self).ssh().links() == old(self).ssh().links(),
            final(self).ssh().mounts() == old(self).ssh().mounts().remove(
                mount_id@,
            ),
            match r {
                Some(m) => {
                    &&& old(self).ssh().mounts().contains_key(mount_id@)
                    &&& m == old(self).ssh().mounts()[mount_id@]
                    &&& final(self).context.mount_contexts@ == old(self).context.mount_contexts@.remove(
                        mount_id@,
                    )
                    &&& used_and_recounted(
                        old(self).ssh().connections(),
                        m.connection_id@,
                        final(self).ssh().links(),
                        final(self).ssh().mounts(),
                        final(self).ssh().connections(),
                    )
                },
                None => {
                    &&& !old(self).ssh().mounts().contains_key(mount_id@)
                    &&& final(self).context.mount_contexts@ == old(self).context.mount_contexts@
                    &&& final(self).ssh().connections() == old(self).ssh().connections()
                },
            },
    {
        SshService::remove_mount(&mut self.context, mount_id)
    }

    /// Takes out all mounts of a connection.
    pub fn ssh_remove_mounts_for_connection(&mut self, connection_id: &SshConnectionId) -> (r: usize)
        requires
            old(self).context.wf(),
        ensures
            final(self).context.wf(),
            brings_nothing_in(old(self).context, final(self).context),
            final(self).context == (AppContext {
                ssh_registry: final(self).context.ssh_registry,
                ..old(self).context
            }),
            final(self).ssh().tunnels() == old(self).ssh().tunnels(),
            final(self).ssh().links() == old(self).ssh().links(),
            final(self).ssh().mounts() == without_mounts(old(self).ssh().mounts(), connection_id@),
            r == mounted(old(self).ssh().mounts(), connection_id@).len(),
            used_and_recounted(
                old(self).ssh().connections(),
                connection_id@,
                final(self).ssh().links(),
                final(self).ssh().mounts(),
                final(self).ssh().connections(),
            ),
    {
        self.context.ssh_registry.remove_mounts_for_connection(connection_id)
    }

    /// Links a session to a connection.
    pub fn ssh_track_session(&mut self, connection_id: &SshConnectionId, session_id: SessionId) -> (r:
        Result<SshConnectionSummary, Failure>)
        requires
            old(self).context.wf(),
        ensures
            final(self).context.wf(),
            brings_nothing_in(old(self).context, final(self).context),
            final(self).context == (AppContext {
                ssh_registry: final(self).context.ssh_registry,
                ..old(self).context
            }),
            final(self).ssh().mounts() == old(self).ssh().mounts(),
            final(self).ssh().tunnels() == old(self).ssh().tunnels(),
            final(self).ssh().links() == old(self).ssh().links().insert(session_id@, connection_id@),
            if linked(old(self).ssh().links(), connection_id@).contains(session_id@) {
                final(self).ssh().connections() == old(self).ssh().connections()
            } else {
                used_and_recounted(
                    old(self).ssh().connections(),
                    connection_id@,
                    final(self).ssh().links(),
                    final(self).ssh().mounts(),
                    final(self).ssh().connections(),
                )
            },
            match r {
                Ok(c) => old(self).ssh().connections().contains_key(connection_id@) && c
                    == final(self).ssh().connections()[connection_id@],
                Err(e) => !old(self).ssh().connections().contains_key(connection_id@) && e@
                    == connection_not_found_text(connection_id@),
            },
    {
        self.context.ssh_registry.track_session(connection_id, session_id)
    }

    /// Takes out the link of a session.
    pub fn ssh_untrack_session(&mut self, connection_id: &SshConnectionId, session_id: &SessionId) -> (r:
        Result<SshConnectionSummary, Failure>)
        requires
            old(self).context.wf(),
        ensures
            final(self).context.wf(),
            brings_nothing_in(old(self).context, final(self).context),
            final(self).context == (AppContext {
                ssh_registry: final(self).context.ssh_registry,
                ..old(self).context
            }),
            final(self).ssh().mounts() == old(self).ssh().mounts(),
            final(self).ssh().tunnels() == old(self).ssh().tunnels(),
            final(self).ssh().links() == old(self).ssh().links().remove(session_id@),
            if old(self).ssh().links().contains_key(session_id@) {
                used_and_recounted(
                    old(self).ssh().connections(),
                    old(self).ssh().links()[session_id@],
                    final(self).ssh().links(),
                    final(self).ssh().mounts(),
                    final(self).ssh().connections(),
                )
            } else {
                final(self).ssh().connections() == old(self).ssh().connections()
            },
            match r {
                Ok(c) => old(self).ssh().connections().contains_key(connection_id@) && c
                    == final(self).ssh().connections()[connection_id@],
                Err(e) => !old(self).ssh().connections().contains_key(connection_id@) && e@
                    == connection_not_found_text(connection_id@),
            },
    {
        self.context.ssh_registry.untrack_session(connection_id, session_id)
    }

    /// The sessions and mounts of a connection.
    pub fn ssh_connection_relations(&self, connection_id: &SshConnectionId) -> (r: Result<
        SshConnectionRelations,
        Failure,
    >)
        requires
            self.context.wf(),
        ensures
            match r {
                Ok(rel) => {
                    &&& self.ssh().connections().contains_key(connection_id@)
                    &&& lists_in_order(
                        id_texts(rel.session_ids@),
                        linked(self.ssh().links(), connection_id@),
                    )
                    &&& lists_in_order(
                        mount_id_texts(rel.mount_ids@),
                        mounted(self.ssh().mounts(), connection_id@),
                    )
                },
                Err(e) => !self.ssh().connections().contains_key(connection_id@) && e@
                    == connection_not_found_text(connection_id@),
            },
    {
        self.context.ssh_registry.connection_relations(connection_id)
    }

    /// How many sessions and active mounts a connection has.
    pub fn ssh_active_resource_counts(&self, connection_id: &SshConnectionId) -> (r: Option<
        SshConnectionResourceCounts,
    >)
        requires
            self.context.wf(),
        ensures
            match r {
                Some(n) => {
                    &&& self.ssh().connections().contains_key(connection_id@)
                    &&& n.active_session_count == linked(self.ssh().links(), connection_id@).len()
                    &&& n.active_mount_count == active_mounts(self.ssh().mounts(), connection_id@).len()
                },
                None => !self.ssh().connections().contains_key(connection_id@),
            },
    {
        self.context.ssh_registry.active_resource_counts(connection_id)
    }

    /// Whether a connection may be ended.
    pub fn ssh_disconnect_precheck(&mut self, connection_id: &SshConnectionId) -> (r:
        Result<(), Failure>)
        requires
            old(self).context.wf(),
        ensures
            final(self).context.wf(),
            brings_nothing_in(old(self).context, final(self).context),
            ({
                let old_links = old(self).ssh().links();
                let known = old(self).ssh().connections().contains_key(connection_id@);
                let links = if known {
                    updated_links(
                        old_links,
                        old(self).local().sessions(),
                        linked(old_links, connection_id@).intersect(
                            old(self).local().sessions().dom(),
                        ),
                    )
                } else {
                    old_links
                };
                &&& only_links_changed(old(self).context, final(self).context, links)
                &&& match disconnect_refusal(
                    known,
                    connection_id@,
                    linked(links, connection_id@).len(),
                    active_mounts(old(self).ssh().mounts(), connection_id@).len(),
                ) {
                    None => r is Ok,
                    Some(text) => r matches Err(e) && e@ == text,
                }
            }),
    {
        SshService::disconnect_precheck(&mut self.context, connection_id)
    }

    /// Asks for a mount.
    pub fn ssh_mount(&self, request: SshMountRequest, host: &HostFiles) -> (r: Result<
        MountStep,
        Failure,
    >)
        requires
            self.context.wf(),
        ensures
            mount_begun(self.context, request, Manner::Direct, *host, r),
            r matches Ok(step) ==> mounts_as_asked(self.context, request, Manner::Direct, step),
    {
        let r = SshService::mount_in(&self.context, request, Manner::Direct, host);
        proof {
            if r is Ok {
                law_mounting_leads_where_asked(
                    self.context,
                    request,
                    Manner::Direct,
                    *host,
                    r->Ok_0,
                );
            }
        }
        r
    }

    /// Asks for a mount to be taken away.
    pub fn ssh_unmount(&mut self, request: SshUnmountRequest, host: &HostFiles) -> (r:
        Result<UnmountProgress, Failure>)
        requires
            old(self).context.wf(),
        ensures
            final(self).context.wf(),
            brings_nothing_in(old(self).context, final(self).context),
            unmount_begun(old(self).context, request, *host, r, final(self).context),
    {
        SshService::unmount(&mut self.context, request, host)
    }

    /// Asks for a connection to be ended.
    pub fn ssh_disconnect(&mut self, request: SshDisconnectRequest) -> (r: Result<
        DisconnectRun,
        Failure,
    >)
        requires
            old(self).context.wf(),
        ensures
            final(self).context.wf(),
            brings_nothing_in(old(self).context, final(self).context),
            disconnect_begun(old(self).context, request, r, final(self).context),
            r matches Ok(run) ==> run.closes_own(final(self).context),
    {
        SshService::disconnect(&mut self.context, request)
    }

    /// Asks for a session on a remote host.
    pub fn ssh_session_spawn(
        &mut self,
        request: SshSessionSpawnRequest,
        host: &HostFiles,
    ) -> (r: Result<(SessionId, PtySpawnRequest), Failure>)
        requires
            old(self).context.wf(),
        ensures
            final(self).context.wf(),
            session_spawn_begun(
                old(self).context,
                request,
                Manner::Direct,
                *host,
                r,
                final(self).context,
            ),
            r matches Ok((session, pty)) ==> spawns_as_asked(
                old(self).context,
                request,
                session@,
                pty,
                final(self).context,
            ),
    {
        let r = SshService::session_spawn_in(&mut self.context, request, Manner::Direct, host);
        proof {
            if r is Ok {
                law_remote_session_is_what_is_asked(
                    old(self).context,
                    request,
                    Manner::Direct,
                    *host,
                    r->Ok_0.0,
                    r->Ok_0.1,
                    self.context,
                );
            }
        }
        r
    }

    /// Asks for a session that runs a script on a remote host.
    pub fn ssh_exec(&mut self, request: SshExecRequest, host: &HostFiles) -> (r: Result<
        (SessionId, PtySpawnRequest),
        Failure,
    >)
        requires
            old(self).context.wf(),
        ensures
            final(self).context.wf(),
            exec_begun(
                old(self).context,
                request,
                Manner::Direct,
                *host,
                r,
                final(self).context,
            ),
            r matches Ok((session, pty)) ==> executes_as_asked(
                old(self).context,
                request,
                session@,
                pty,
                final(self).context,
            ),
    {
        let r = SshService::exec_in(&mut self.context, request, Manner::Direct, host);
        proof {
            if r is Ok {
                law_remote_script_is_what_is_asked(
                    old(self).context,
                    request,
                    Manner::Direct,
                    *host,
                    r->Ok_0.0,
                    r->Ok_0.1,
                    self.context,
                );
            }
        }
        r
    }

    /// Asks for a script to be run on a remote host.
    pub fn ssh_run(&self, request: &SshRunRequest, host: &HostFiles) -> (r: Result<
        CommandPlan,
        Failure,
    >)
        requires
            self.context.wf(),
        ensures
            run_planned(self.context, *request, Manner::Direct, *host, r),
            r matches Ok(plan) ==> runs_as_asked(self.context, *request, plan),
    {
        let r = SshService::run_in(&self.context, request, Manner::Direct, host);
        proof {
            if r is Ok {
                law_remote_run_is_what_is_asked(
                    self.context,
                    *request,
                    Manner::Direct,
                    *host,
                    r->Ok_0,
                );
            }
        }
        r
    }

    /// Asks for a remote file.
    pub fn ssh_read_file(
        &self,
        host: &HostFiles,
        connection_id: &SshConnectionId,
        path: &str,
        max_bytes: usize,
    ) -> (r: Result<CaptureRun, Failure>)
        requires
            self.context.wf(),
        ensures
            if path_refusal(path@, "ssh_read_file path"@) is Some {
                r matches Err(e) && path_refusal(path@, "ssh_read_file path"@) == Some(e@)
            } else if max_bytes_refusal(max_bytes) is Some {
                r matches Err(e) && max_bytes_refusal(max_bytes) == Some(e@)
            } else {
                capture_planned(
                    self.context,
                    *host,
                    Manner::Direct,
                    connection_id@,
                    read_script(trimmed(path@), max_bytes as nat),
                    "failed to read remote file"@,
                    Some(trimmed(path@)),
                    r,
                )
            },
            r matches Ok(run) ==> reads_remotely(
                self.context,
                connection_id@,
                trimmed(path@),
                max_bytes as nat,
                run,
            ),
    {
        SshService::read_file_in(
            &self.context,
            host,
            Manner::Direct,
            connection_id,
            path,
            max_bytes,
        )
    }

    /// Asks for a remote file to be written.
    pub fn ssh_write_file(
        &self,
        host: &HostFiles,
        connection_id: &SshConnectionId,
        path: &str,
        content: &str,
        append: bool,
        create_parent: bool,
    ) -> (r: Result<CaptureRun, Failure>)
        requires
            self.context.wf(),
        ensures
            if path_refusal(path@, "ssh_write_file path"@) is Some {
                r matches Err(e) && path_refusal(path@, "ssh_write_file path"@) == Some(e@)
            } else if encode_utf8(content@).len() > MAX_WRITE_BYTES {
                r matches Err(e) && e@ == "ssh_write_file content must be at most 262144 bytes"@
            } else {
                capture_planned(
                    self.context,
                    *host,
                    Manner::Direct,
                    connection_id@,
                    write_script(trimmed(path@), content@, append, create_parent),
                    "failed to write remote file"@,
                    Some(trimmed(path@)),
                    r,
                )
            },
            r matches Ok(run) ==> writes_remotely(
                self.context,
                connection_id@,
                trimmed(path@),
                content@,
                append,
                create_parent,
                run,
            ),
    {
        SshService::write_file_in(
            &self.context,
            host,
            Manner::Direct,
            connection_id,
            path,
            content,
            append,
            create_parent,
        )
    }

    /// Asks for the entries of a remote directory.
    pub fn ssh_list_directory(
        &self,
        host: &HostFiles,
        connection_id: &SshConnectionId,
        path: &str,
        include_hidden: bool,
    ) -> (r: Result<CaptureRun, Failure>)
        requires
            self.context.wf(),
        ensures
            if path_refusal(path@, "ssh_list_dir path"@) is Some {
                r matches Err(e) && path_refusal(path@, "ssh_list_dir path"@) == Some(e@)
            } else {
                capture_planned(
                    self.context,
                    *host,
                    Manner::Direct,
                    connection_id@,
                    list_script(trimmed(path@), include_hidden),
                    "failed to list remote directory"@,
                    Some(trimmed(path@)),
                    r,
                )
            },
            r matches Ok(run) ==> lists_remotely(
                self.context,
                connection_id@,
                trimmed(path@),
                include_hidden,
                run,
            ),
    {
        SshService::list_directory_in(
            &self.context,
            host,
            Manner::Direct,
            connection_id,
            path,
            include_hidden,
        )
    }

    /// Asks for a remote directory to be made.
    pub fn ssh_mkdir(
        &self,
        host: &HostFiles,
        connection_id: &SshConnectionId,
        path: &str,
        parents: bool,
    ) -> (r: Result<CaptureRun, Failure>)
        requires
            self.context.wf(),
        ensures
            if path_refusal(path@, "ssh_mkdir path"@) is Some {
                r matches Err(e) && path_refusal(path@, "ssh_mkdir path"@) == Some(e@)
            } else {
                capture_planned(
                    self.context,
                    *host,
                    Manner::Direct,
                    connection_id@,
                    mkdir_script(trimmed(path@), parents),
                    "failed to create remote directory"@,
                    Some(trimmed(path@)),
                    r,
                )
            },
            r matches Ok(run) ==> makes_directory_remotely(
                self.context,
                connection_id@,
                trimmed(path@),
                parents,
                run,
            ),
    {
        SshService::mkdir_in(
            &self.context,
            host,
            Manner::Direct,
            connection_id,
            path,
            parents,
        )
    }

    /// Asks for a session on this host.
    pub fn spawn_session(
        &mut self,
        request: SpawnSessionRequest,
        facts: &CwdFacts,
    ) -> (r: Result<(SessionId, PtySpawnRequest), Failure>)
        requires
            old(self).context.wf(),
        ensures
            final(self).context.wf(),
            spawn_begun(
                old(self).context,
                request,
                Manner::Direct,
                *facts,
                r,
                final(self).context,
            ),
    {
        LocalSessionService::spawn_session_in(&mut self.context, request, Manner::Direct, facts)
    }

    /// What is to be typed into a session.
    pub fn write_session(&self, session_id: &SessionId, data: &str, escaped: bool) -> (r: Result<
        String,
        Failure,
    >)
        requires
            self.context.wf(),
        ensures
            ({
                let known = self.local().sessions().contains_key(session_id@);
                let attached = known && self.local().sessions()[session_id@].attached;
                match r {
                    Ok(text) => attached && if escaped {
                        decoded(data@, data@) == Ok::<Seq<char>, Seq<char>>(text@)
                    } else {
                        text@ == data@
                    },
                    Err(e) => if !known {
                        e@ == not_found_text(session_id@)
                    } else if !attached {
                        e@ == not_running_text(session_id@)
                    } else {
                        escaped && decoded(data@, data@) == Err::<Seq<char>, Seq<char>>(e@)
                    },
                }
            }),
    {
        self.context.registry.prepare_write(session_id, data, escaped)
    }

    /// A page of the output of a session.
    pub fn read_session(&self, session_id: &SessionId, request: &BufferReadRequest) -> (r: Result<
        BufferReadPage,
        Failure,
    >)
        requires
            self.context.wf(),
        ensures
            match r {
                Ok(page) => {
                    &&& self.local().sessions().contains_key(session_id@)
                    &&& request.pattern is Some ==> pattern_fault(
                        request.pattern->0@,
                        request.ignore_case,
                    ) is None
                    &&& is_page(self.local().sessions()[session_id@].buffer@, *request, page)
                },
                Err(e) => if !self.local().sessions().contains_key(session_id@) {
                    e@ == not_found_text(session_id@)
                } else {
                    &&& request.pattern is Some
                    &&& pattern_fault(request.pattern->0@, request.ignore_case) matches Some(fault)
                    &&& e@ == "invalid regex pattern for buffer read: session_id="@ + session_id@
                        + " "@ + fault
                },
            },
    {
        self.context.registry.read_output(session_id, request)
    }

    /// Asks for a session to be ended.
    pub fn kill_session(&mut self, session_id: &SessionId, signal: SignalKind, cleanup: bool) -> (r:
        Result<KillProgress, Failure>)
        requires
            old(self).context.wf(),
        ensures
            final(self).context.wf(),
            brings_nothing_in(old(self).context, final(self).context),
            final(self).context == (AppContext {
                registry: final(self).context.registry,
                ..old(self).context
            }),
            final(self).local().same_limits(&old(self).context.registry),
            ({
                let e = old(self).local().sessions()[session_id@];
                let known = old(self).local().sessions().contains_key(session_id@);
                match r {
                    Err(err) => {
                        &&& !known
                        &&& err@ == not_found_text(session_id@)
                        &&& final(self).local().sessions() == old(self).local().sessions()
                    },
                    Ok(KillProgress::Done(done)) => {
                        &&& known
                        &&& is_over(e)
                        &&& cleanup || !e.attached
                        &&& done.session_id@ == session_id@
                        &&& done.previous_status == e.summary.status
                        &&& done.current_status == e.summary.status
                        &&& done.cleanup == cleanup
                        &&& final(self).local().sessions() == if cleanup {
                            old(self).local().sessions().remove(session_id@)
                        } else {
                            old(self).local().sessions()
                        }
                    },
                    Ok(KillProgress::Signal { signal: s, run }) => {
                        &&& known
                        &&& e.attached
                        &&& is_over(e) ==> !cleanup
                        &&& s == signal
                        &&& run.session_id@ == session_id@
                        &&& run.previous_status == e.summary.status
                        &&& run.cleanup == cleanup
                        &&& !run.escalated
                        &&& final(self).local().sessions() == old(self).local().sessions().insert(
                            session_id@,
                            closing(e),
                        )
                    },
                    Ok(KillProgress::Wait { .. }) => false,
                }
            }),
    {
        self.context.registry.kill_begin(session_id, signal, cleanup)
    }

    /// Asks for a session to be waited for.
    pub fn wait_session(&self, session_id: &SessionId) -> (r: Result<WaitProgress, Failure>)
        requires
            self.context.wf(),
        ensures
            ({
                let e = self.local().sessions()[session_id@];
                match r {
                    Err(err) => !self.local().sessions().contains_key(session_id@) && err@
                        == not_found_text(session_id@),
                    Ok(WaitProgress::Pending) => self.local().sessions().contains_key(session_id@)
                        && !is_over(e),
                    Ok(WaitProgress::Done(done)) => {
                        &&& self.local().sessions().contains_key(session_id@)
                        &&& is_over(e)
                        &&& is_wait_result(e, true, done)
                    },
                }
            }),
    {
        self.context.registry.wait_begin(session_id)
    }

    /// The connections that are ended before the application ends.
    pub fn shutdown_ssh(&self) -> (r: Vec<SshDisconnectRequest>)
        requires
            self.context.wf(),
        ensures
            r@.len() == self.ssh().connection_ids().len(),
            forall|i: int|
                0 <= i < r@.len() ==> {
                    &&& (#[trigger] r@[i]).connection_id@
                        == self.ssh().connection_ids()[i]
                    &&& r@[i].force
                    &&& r@[i].cleanup_mounts
                    &&& !r@[i].cleanup_tunnels
                },
    {
        SshService::shutdown_requests(&self.context)
    }

    /// The sessions that are ended before the application ends.
    pub fn shutdown(&self) -> (r: Vec<SessionId>)
        requires
            self.context.wf(),
        ensures
            lists_in_order(
                id_texts(r@),
                Set::new(
                    |k: Seq<char>|
                        self.local().sessions().contains_key(k) && status_is_live(
                            self.local().sessions()[k].summary.status,
                        ),
                ),
            ),
    {
        self.context.registry.shutdown_targets()
    }
}

} // verus!
