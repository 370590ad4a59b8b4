//! The state of the application.
use super::support::{normalize_ssh_config, normalized_config};
use crate::config::{located, Config, HostFiles, Program, SshConfig};
use crate::error::Failure;
use crate::ordered::OrderedMap;
use crate::permission::guard::PermissionGuard;
use crate::permission::policy::{command_names, env_keys, PermissionPolicy};
use crate::session::registry::{SessionEntry, SessionRegistry};
use crate::ssh::capability_probe::{describes_host, ProbeOutputs, SshCapabilityProbe};
use crate::ssh::guard::SshGuard;
use crate::ssh::model::{
    SshAuthKind, SshCapabilityView, SshConnectionId, SshConnectionSummary, SshMountId,
    SshMountSummary,
};
use crate::ssh::policy::{rules_of, SshPolicy};
use crate::ssh::registry::SshRegistry;
use crate::ssh::runtime::SshRuntime;
use crate::text::{cat2, cat4, clone_opt, is_blank, opt_text, trim, trimmed};
use vstd::prelude::*;

verus! {

/// How a connection was made.
#[derive(Debug, PartialEq, Eq)]
pub struct SshConnectionRuntimeContext {
    pub auth_kind: SshAuthKind,
    pub identity_path: Option<String>,
    pub verify_host_key: bool,
}

impl Clone for SshConnectionRuntimeContext {
    fn clone(&self) -> (r: Self)
        ensures
            r == *self,
    {
        SshConnectionRuntimeContext {
            auth_kind: self.auth_kind,
            identity_path: clone_opt(&self.identity_path),
            verify_host_key: self.verify_host_key,
        }
    }
}

/// How the directory of a mount came to be.
#[derive(Debug, Clone, Copy, PartialEq, Eq, Structural)]
pub struct SshMountRuntimeContext {
    pub managed_path: bool,
    pub created_local_path: bool,
}

impl Default for SshMountRuntimeContext {
    fn default() -> (r: Self)
        ensures
            r == (SshMountRuntimeContext { managed_path: false, created_local_path: false }),
    {
        SshMountRuntimeContext { managed_path: false, created_local_path: false }
    }
}

/// The state of the application.
pub struct AppContext {
    pub config: Config,
    pub ssh_config: SshConfig,
    pub ssh_capabilities: SshCapabilityView,
    pub guard: PermissionGuard,
    pub registry: SessionRegistry,
    pub ssh_guard: SshGuard,
    pub ssh_runtime: SshRuntime,
    pub ssh_registry: SshRegistry,
    pub connection_contexts: OrderedMap<SshConnectionRuntimeContext>,
    pub mount_contexts: OrderedMap<SshMountRuntimeContext>,
    pub ssh_capability_probe: SshCapabilityProbe,
}

/// How a connection was made, as far as it is known: by what is remembered of it,
/// or else by its own account.
pub open spec fn connection_context(
    contexts: Map<Seq<char>, SshConnectionRuntimeContext>,
    c: SshConnectionSummary,
) -> SshConnectionRuntimeContext {
    if contexts.contains_key(c.connection_id@) {
        contexts[c.connection_id@]
    } else {
        SshConnectionRuntimeContext {
            auth_kind: match c.auth_kind {
                Some(kind) => kind,
                None => SshAuthKind::SshAgent,
            },
            identity_path: None,
            verify_host_key: true,
        }
    }
}

/// How the directory of a mount came to be, as far as it is remembered.
pub open spec fn mount_context(
    contexts: Map<Seq<char>, SshMountRuntimeContext>,
    mount: Seq<char>,
) -> SshMountRuntimeContext {
    if contexts.contains_key(mount) {
        contexts[mount]
    } else {
        SshMountRuntimeContext { managed_path: false, created_local_path: false }
    }
}

/// Where `ssh` is: where the configuration finds it, or else where it was found
/// when the application started.
pub open spec fn ssh_path(context: AppContext, host: HostFiles) -> Option<Seq<char>> {
    match located(context.ssh_config@.ssh_bin_path, Program::Ssh, host) {
        Some(path) => Some(path),
        None => opt_text(context.ssh_capabilities.ssh.path),
    }
}

/// Why a directory cannot be mounted on, if it cannot.
pub open spec fn directory_refusal(path: Seq<char>, exists: bool, is_dir: bool, create: bool) -> Option<
    Seq<char>,
> {
    if exists {
        if is_dir {
            None
        } else {
            Some("ssh mount local_path must be a directory: local_path="@ + path)
        }
    } else if create {
        None
    } else {
        Some("ssh mount local_path does not exist: local_path="@ + path)
    }
}

/// Whether a change brings in no identifier of a session, connection, mount or tunnel.
pub open spec fn brings_nothing_in(before: AppContext, after: AppContext) -> bool {
    &&& after.registry.sessions().dom().subset_of(before.registry.sessions().dom())
    &&& after.ssh_registry.connections().dom().subset_of(before.ssh_registry.connections().dom())
    &&& after.ssh_registry.mounts().dom().subset_of(before.ssh_registry.mounts().dom())
    &&& after.ssh_registry.tunnels().dom().subset_of(before.ssh_registry.tunnels().dom())
}

/// Whether a change brings in no identifier but that of one mount.
pub open spec fn brings_in_mount(before: AppContext, after: AppContext, id: Seq<char>) -> bool {
    &&& after.registry.sessions().dom().subset_of(before.registry.sessions().dom())
    &&& after.ssh_registry.connections().dom().subset_of(before.ssh_registry.connections().dom())
    &&& after.ssh_registry.mounts().dom().subset_of(before.ssh_registry.mounts().dom().insert(id))
    &&& after.ssh_registry.tunnels().dom().subset_of(before.ssh_registry.tunnels().dom())
}

/// Whether a change brings in no identifier but that of one tunnel.
pub open spec fn brings_in_tunnel(before: AppContext, after: AppContext, id: Seq<char>) -> bool {
    &&& after.registry.sessions().dom().subset_of(before.registry.sessions().dom())
    &&& after.ssh_registry.connections().dom().subset_of(before.ssh_registry.connections().dom())
    &&& after.ssh_registry.mounts().dom().subset_of(before.ssh_registry.mounts().dom())
    &&& after.ssh_registry.tunnels().dom().subset_of(before.ssh_registry.tunnels().dom().insert(id))
}

impl AppContext {
    /// The state is valid: all its registries and maps are.
    pub open spec fn wf(&self) -> bool {
        &&& self.registry.wf()
        &&& self.ssh_registry.wf()
        &&& self.connection_contexts.wf()
        &&& self.mount_contexts.wf()
    }

    /// The state of an application that starts, from its configuration and from
    /// what this host can do.
    pub fn new(config: Config, host: &HostFiles, seen: &ProbeOutputs, current_dir: &str) -> (r: Self)
        ensures
            r.wf(),
            r.config@ == normalized_config(config@),
            r.ssh_config@ == r.config@.ssh,
            describes_host(r.ssh_capabilities, r.config@.ssh, *host, *seen),
            r.guard@.commands_allowed() == command_names(r.config@.allowed_commands),
            r.guard@.commands_denied() == command_names(r.config@.denied_commands),
            r.guard@.env_allowed() == env_keys(r.config@.allowed_env_vars),
            r.guard@.env_denied() == env_keys(r.config@.denied_env_vars),
            r.guard@.cwd_roots() == r.config@.allowed_cwd_roots,
            r.ssh_guard@ == rules_of(r.config@, current_dir@),
            r.registry.sessions() == Map::<Seq<char>, SessionEntry>::empty(),
            r.registry.limit() == if r.config@.session_limit >= 1 {
                r.config@.session_limit as nat
            } else {
                1
            },
            r.registry.buffer_lines() == if r.config@.max_buffer_lines >= 1 {
                r.config@.max_buffer_lines as nat
            } else {
                1
            },
            r.ssh_registry.is_empty(),
            r.connection_contexts@ == Map::<Seq<char>, SshConnectionRuntimeContext>::empty(),
            r.mount_contexts@ == Map::<Seq<char>, SshMountRuntimeContext>::empty(),
    {
        let config = normalize_ssh_config(config);
        let guard = PermissionGuard::new(PermissionPolicy::from_config(&config));
        let ssh_config = config.ssh.copied();
        let ssh_guard = SshGuard::new(SshPolicy::from_config(&config, current_dir));
        let ssh_capability_probe = SshCapabilityProbe::new();
        let ssh_capabilities = ssh_capability_probe.probe(&ssh_config, host, seen);
        AppContext {
            registry: SessionRegistry::new(config.session_limit, config.max_buffer_lines),
            ssh_config,
            ssh_capabilities,
            guard,
            ssh_guard,
            ssh_runtime: SshRuntime,
            ssh_registry: SshRegistry::new(),
            connection_contexts: OrderedMap::new(),
            mount_contexts: OrderedMap::new(),
            ssh_capability_probe,
            config,
        }
    }

    /// Remembers how a connection was made.
    pub fn remember_connection_runtime_context(
        &mut self,
        connection_id: &SshConnectionId,
        context: SshConnectionRuntimeContext,
    )
        requires
            old(self).wf(),
        ensures
            final(self).wf(),
            *final(self) == (AppContext {
                connection_contexts: final(self).connection_contexts,
                ..*old(self)
            }),
            final(self).connection_contexts@ == old(self).connection_contexts@.insert(
                connection_id@,
                context,
            ),
    {
        let _ = self.connection_contexts.insert(connection_id.as_str().to_owned(), context);
    }

    /// Forgets how a connection was made.
    pub fn forget_connection_runtime_context(&mut self, connection_id: &SshConnectionId) -> (r:
        Option<SshConnectionRuntimeContext>)
        requires
            old(self).wf(),
        ensures
            final(self).wf(),
            *final(self) == (AppContext {
                connection_contexts: final(self).connection_contexts,
                ..*old(self)
            }),
            final(self).connection_contexts@ == old(self).connection_contexts@.remove(
                connection_id@,
            ),
            match r {
                Some(c) => old(self).connection_contexts@.contains_key(connection_id@) && c
                    == old(self).connection_contexts@[connection_id@],
                None => !old(self).connection_contexts@.contains_key(connection_id@),
            },
    {
        self.connection_contexts.remove(connection_id.as_str())
    }

    /// How a connection was made, as far as it is known.
    pub fn runtime_context_for_connection(&self, connection: &SshConnectionSummary) -> (r:
        SshConnectionRuntimeContext)
        requires
            self.wf(),
        ensures
            r == connection_context(self.connection_contexts@, *connection),
    {
        match self.connection_contexts.get(connection.connection_id.as_str()) {
            Some(context) => context.clone(),
            None => SshConnectionRuntimeContext {
                auth_kind: match connection.auth_kind {
                    Some(kind) => kind,
                    None => SshAuthKind::SshAgent,
                },
                identity_path: None,
                verify_host_key: true,
            },
        }
    }

    /// Remembers how the directory of a mount came to be.
    pub fn remember_mount_runtime_context(
        &mut self,
        mount_id: &SshMountId,
        context: SshMountRuntimeContext,
    )
        requires
            old(self).wf(),
        ensures
            final(self).wf(),
            *final(self) == (AppContext {
                mount_contexts: final(self).mount_contexts,
                ..*old(self)
            }),
            final(self).mount_contexts@ == old(self).mount_contexts@.insert(mount_id@, context),
    {
        let _ = self.mount_contexts.insert(mount_id.as_str().to_owned(), context);
    }

    /// Forgets how the directory of a mount came to be.
    pub fn forget_mount_runtime_context(&mut self, mount_id: &SshMountId) -> (r: Option<
        SshMountRuntimeContext,
    >)
        requires
            old(self).wf(),
        ensures
            final(self).wf(),
            *final(self) == (AppContext {
                mount_contexts: final(self).mount_contexts,
                ..*old(self)
            }),
            final(self).mount_contexts@ == old(self).mount_contexts@.remove(mount_id@),
            match r {
                Some(c) => old(self).mount_contexts@.contains_key(mount_id@) && c
                    == old(self).mount_contexts@[mount_id@],
                None => !old(self).mount_contexts@.contains_key(mount_id@),
            },
    {
        self.mount_contexts.remove(mount_id.as_str())
    }

    /// How the directory of a mount came to be, as far as it is remembered.
    pub fn mount_runtime_context_for_mount(&self, mount_id: &SshMountId) -> (r:
        SshMountRuntimeContext)
        requires
            self.wf(),
        ensures
            r == mount_context(self.mount_contexts@, mount_id@),
    {
        match self.mount_contexts.get(mount_id.as_str()) {
            Some(context) => *context,
            None => SshMountRuntimeContext::default(),
        }
    }

    /// Where `ssh` is.
    pub fn resolve_ssh_bin_path(&self, host: &HostFiles) -> (r: Result<String, Failure>)
        ensures
            match r {
                Ok(p) => ssh_path(*self, *host) == Some(p@),
                Err(e) => {
                    &&& ssh_path(*self, *host) is None
                    &&& e@ == "ssh binary path could not be resolved"@
                },
            },
    {
        match self.ssh_config.resolved_ssh_bin_path(host) {
            Some(p) => Ok(p),
            None => match &self.ssh_capabilities.ssh.path {
                Some(p) => Ok(p.clone()),
                None => Err(Failure::new("ssh binary path could not be resolved".to_owned())),
            },
        }
    }

    /// The directory that a mount is asked for.
    pub fn resolve_mount_local_path(&self, local_path: &str) -> (r: Result<String, Failure>)
        ensures
            match r {
                Ok(p) => !is_blank(local_path@) && p@ == trimmed(local_path@),
                Err(e) => is_blank(local_path@) && e@ == "ssh mount local_path cannot be empty"@,
            },
    {
        let t = trim(local_path);
        if t.is_empty() {
            Err(Failure::new("ssh mount local_path cannot be empty".to_owned()))
        } else {
            Ok(t.to_owned())
        }
    }

    /// Whether a directory has to be made before it can be mounted on, given what
    /// the file system says of it.
    pub fn ensure_mount_local_path(
        &self,
        local_path: &str,
        create_local_path: bool,
        exists: bool,
        is_dir: bool,
    ) -> (r: Result<bool, Failure>)
        ensures
            match r {
                Ok(create) => {
                    &&& directory_refusal(local_path@, exists, is_dir, create_local_path) is None
                    &&& create == !exists
                },
                Err(e) => directory_refusal(local_path@, exists, is_dir, create_local_path)
                    == Some(e@),
            },
    {
        if exists {
            if !is_dir {
                return Err(
                    Failure::new(
                        cat2(
                            "ssh mount local_path must be a directory: local_path=",
                            local_path,
                        ),
                    ),
                );
            }
            return Ok(false);
        }
        if !create_local_path {
            return Err(
                Failure::new(cat2("ssh mount local_path does not exist: local_path=", local_path)),
            );
        }
        Ok(true)
    }

    /// The failure of making a directory to be mounted on, with its cause.
    pub fn mount_directory_not_created(&self, local_path: &str, cause: &str) -> (r: Failure)
        ensures
            r@ == "failed to create ssh mount local_path: local_path="@ + local_path@ + ": "@ + cause@,
    {
        Failure::new(
            cat4("failed to create ssh mount local_path: local_path=", local_path, ": ", cause),
        )
    }

    /// Whether the directory of a mount may be removed: only a managed one that was
    /// made for the mount.
    pub fn cleanup_mount_local_path_if_allowed(&self, context: &SshMountRuntimeContext) -> (r: bool)
        ensures
            r == (context.managed_path && context.created_local_path),
    {
        context.managed_path && context.created_local_path
    }

    /// The failure of removing the directory of a mount, without its cause.
    pub fn mount_directory_not_removed(&self, mount: &SshMountSummary) -> (r: Failure)
        ensures
            r@ == directory_not_removed_text(*mount),
    {
        Failure::new(
            cat4(
                "failed to remove managed ssh mount local_path: mount_id=",
                mount.mount_id.as_str(),
                " local_path=",
                mount.local_path.as_str(),
            ),
        )
    }
}

/// Says that the directory of a mount could not be removed.
pub open spec fn directory_not_removed_text(mount: SshMountSummary) -> Seq<char> {
    "failed to remove managed ssh mount local_path: mount_id="@ + mount.mount_id@ + " local_path="@
        + mount.local_path@
}

/// Whether a connection is used in the way that it was made: as is remembered of it, or
/// else with its own way of authentication, the agent's where it names none, without an
/// identity file and with the key of the host checked.
pub open spec fn is_used_as_made(
    context: AppContext,
    c: SshConnectionSummary,
    kind: SshAuthKind,
    identity: Option<Seq<char>>,
    verify: bool,
) -> bool {
    let known = context.connection_contexts@;
    let id = c.connection_id@;
    &&& known.contains_key(id) ==> {
        &&& kind == known[id].auth_kind
        &&& identity == opt_text(known[id].identity_path)
        &&& verify == known[id].verify_host_key
    }
    &&& !known.contains_key(id) ==> {
        &&& c.auth_kind is Some ==> kind == c.auth_kind->0
        &&& c.auth_kind is None ==> kind == SshAuthKind::SshAgent
        &&& identity is None
        &&& verify
    }
}

/// A connection is used in the way that it was made.
pub proof fn law_connection_is_used_as_it_was_made(context: AppContext, c: SshConnectionSummary)
    ensures
        ({
            let made = connection_context(context.connection_contexts@, c);
            is_used_as_made(
                context,
                c,
                made.auth_kind,
                opt_text(made.identity_path),
                made.verify_host_key,
            )
        }),
{
}

/// Of a directory of which nothing is remembered it is neither said that it is a managed
/// one nor that it was made for its mount.
pub proof fn law_unknown_directories_are_left_alone(
    contexts: Map<Seq<char>, SshMountRuntimeContext>,
    mount: Seq<char>,
)
    ensures
        contexts.contains_key(mount) ==> mount_context(contexts, mount) == contexts[mount],
        !contexts.contains_key(mount) ==> !mount_context(contexts, mount).managed_path
            && !mount_context(contexts, mount).created_local_path,
{
}

/// A directory can be mounted on exactly where it is there, or where nothing is there and
/// it may be made.
pub proof fn law_mount_points_are_directories(
    path: Seq<char>,
    exists: bool,
    is_dir: bool,
    create: bool,
)
    ensures
        directory_refusal(path, exists, is_dir, create) is None <==> (exists && is_dir) || (!exists
            && create),
{
}

/// What the configuration finds goes before what was found when the application started.
pub proof fn law_configured_ssh_goes_first(context: AppContext, host: HostFiles)
    ensures
        ({
            let found = located(context.ssh_config@.ssh_bin_path, Program::Ssh, host);
            &&& found is Some ==> ssh_path(context, host) == found
            &&& found is None ==> ssh_path(context, host) == opt_text(
                context.ssh_capabilities.ssh.path,
            )
        }),
{
}

} // verus!
