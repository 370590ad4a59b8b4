//! What the application reaches, step by step, from its start.
use super::context::{brings_in_mount, brings_in_tunnel, brings_nothing_in, AppContext};
use super::local_sessions::spawn_begun;
use super::ssh_connections::{connect_finished, ConnectRun};
use super::ssh_mounts::{
    mount_started, unmount_begun, MountReady, MountingRun, UnmountProgress,
};
use super::ssh_sessions::{exec_begun, session_spawn_begun};
use super::ssh_tunnels::{attempt_made, TunnelLaunch, TunnelRun};
use super::support::Manner;
use super::types::{
    SpawnSessionRequest, SshConnectResult, SshExecRequest, SshSessionSpawnRequest,
    SshUnmountRequest,
};
use crate::config::HostFiles;
use crate::error::Failure;
use crate::outside::is_new_id;
use crate::permission::guard::CwdFacts;
use crate::pty::runtime::PtySpawnRequest;
use crate::session::model::SessionId;
use crate::ssh::model::SshConnectionSummary;
use crate::ssh::runtime::CommandOutput;
use vstd::prelude::*;

verus! {

/// Whether all identifiers that the application holds are new ones.
pub open spec fn ids_are_new(context: AppContext) -> bool {
    &&& forall|k: Seq<char>| #[trigger]
        context.registry.sessions().contains_key(k) ==> is_new_id("pty_"@, k)
    &&& forall|k: Seq<char>| #[trigger]
        context.ssh_registry.connections().contains_key(k) ==> is_new_id("sshconn_"@, k)
    &&& forall|k: Seq<char>| #[trigger]
        context.ssh_registry.mounts().contains_key(k) ==> is_new_id("sshmnt_"@, k)
    &&& forall|k: Seq<char>| #[trigger]
        context.ssh_registry.tunnels().contains_key(k) ==> is_new_id("sshtun_"@, k)
}

/// Whether the application holds nothing yet.
pub open spec fn holds_nothing(context: AppContext) -> bool {
    &&& context.registry.sessions().dom() == Set::<Seq<char>>::empty()
    &&& context.ssh_registry.connections().dom() == Set::<Seq<char>>::empty()
    &&& context.ssh_registry.mounts().dom() == Set::<Seq<char>>::empty()
    &&& context.ssh_registry.tunnels().dom() == Set::<Seq<char>>::empty()
}

/// The steps of the application: those that may bring in an identifier, and all
/// others. A summary that a caller puts in under an identifier of its own is none
/// of them.
pub enum AppStep {
    Spawn {
        request: SpawnSessionRequest,
        manner: Manner,
        facts: CwdFacts,
        spawned: Result<(SessionId, PtySpawnRequest), Failure>,
    },
    SessionSpawn {
        asked: SshSessionSpawnRequest,
        manner: Manner,
        host: HostFiles,
        spawned: Result<(SessionId, PtySpawnRequest), Failure>,
    },
    Exec {
        script: SshExecRequest,
        manner: Manner,
        host: HostFiles,
        spawned: Result<(SessionId, PtySpawnRequest), Failure>,
    },
    Connected {
        connecting: ConnectRun,
        outcome: Result<CommandOutput, Failure>,
        connected: Result<SshConnectResult, Failure>,
    },
    MountStart {
        ready: MountReady,
        created: bool,
        host: HostFiles,
        mounting: Result<MountingRun, Failure>,
    },
    TunnelPort {
        opening: TunnelRun,
        port: Result<u16, Failure>,
        host: HostFiles,
        launch: Result<TunnelLaunch, Failure>,
    },
    /// A connection that was never made is put in.
    Placeholder { made: SshConnectionSummary },
    /// The mount of a run is recorded.
    MountGoesOn { mount_id: Seq<char> },
    /// The tunnel of a run is recorded.
    TunnelGoesOn { tunnel_id: Seq<char> },
    /// Any other step, which brings in nothing.
    Other,
}

/// Whether a step leads from one state to another.
pub open spec fn step_taken(before: AppContext, step: AppStep, after: AppContext) -> bool {
    match step {
        AppStep::Spawn { request, manner, facts, spawned } => spawn_begun(
            before,
            request,
            manner,
            facts,
            spawned,
            after,
        ),
        AppStep::SessionSpawn { asked, manner, host, spawned } => session_spawn_begun(
            before,
            asked,
            manner,
            host,
            spawned,
            after,
        ),
        AppStep::Exec { script, manner, host, spawned } => exec_begun(
            before,
            script,
            manner,
            host,
            spawned,
            after,
        ),
        AppStep::Connected { connecting, outcome, connected } => connect_finished(
            before,
            connecting,
            outcome,
            connected,
            after,
        ),
        AppStep::MountStart { ready, created, host, mounting } => mount_started(
            before,
            ready,
            created,
            host,
            mounting,
            after,
        ),
        AppStep::TunnelPort { opening, port, host, launch } => attempt_made(
            before,
            opening,
            port,
            host,
            launch,
            after,
        ),
        AppStep::Placeholder { made } => {
            &&& after == (AppContext { ssh_registry: after.ssh_registry, ..before })
            &&& after.ssh_registry.mounts() == before.ssh_registry.mounts()
            &&& after.ssh_registry.tunnels() == before.ssh_registry.tunnels()
            &&& after.ssh_registry.connections().dom()
                == before.ssh_registry.connections().dom().insert(made.connection_id@)
            &&& is_new_id("sshconn_"@, made.connection_id@)
        },
        AppStep::MountGoesOn { mount_id } => {
            &&& brings_in_mount(before, after, mount_id)
            &&& is_new_id("sshmnt_"@, mount_id)
        },
        AppStep::TunnelGoesOn { tunnel_id } => {
            &&& brings_in_tunnel(before, after, tunnel_id)
            &&& is_new_id("sshtun_"@, tunnel_id)
        },
        AppStep::Other => brings_nothing_in(before, after),
    }
}

/// Whether states follow each other by steps, from one that holds nothing.
pub open spec fn is_history(states: Seq<AppContext>, steps: Seq<AppStep>) -> bool {
    &&& states.len() == steps.len() + 1
    &&& holds_nothing(states[0])
    &&& forall|i: int| 0 <= i < states.len() ==> (#[trigger] states[i]).wf()
    &&& forall|i: int|
        0 <= i < steps.len() ==> step_taken(states[i], #[trigger] steps[i], states[i + 1])
}

/// Every step of the application keeps all identifiers new: what it brings in is new.
pub proof fn law_steps_keep_identifiers_new(before: AppContext, step: AppStep, after: AppContext)
    requires
        ids_are_new(before),
        step_taken(before, step, after),
    ensures
        ids_are_new(after),
{
    assert forall|k: Seq<char>| #[trigger]
        after.registry.sessions().contains_key(k) implies is_new_id("pty_"@, k) by {
        assert(before.registry.sessions().contains_key(k) || is_new_id("pty_"@, k));
    }
    assert forall|k: Seq<char>| #[trigger]
        after.ssh_registry.connections().contains_key(k) implies is_new_id("sshconn_"@, k) by {
        assert(before.ssh_registry.connections().contains_key(k) || is_new_id("sshconn_"@, k));
    }
    assert forall|k: Seq<char>| #[trigger]
        after.ssh_registry.mounts().contains_key(k) implies is_new_id("sshmnt_"@, k) by {
        assert(before.ssh_registry.mounts().contains_key(k) || is_new_id("sshmnt_"@, k));
    }
    assert forall|k: Seq<char>| #[trigger]
        after.ssh_registry.tunnels().contains_key(k) implies is_new_id("sshtun_"@, k) by {
        assert(before.ssh_registry.tunnels().contains_key(k) || is_new_id("sshtun_"@, k));
    }
}

/// In every state that the application reaches from its start, all identifiers are
/// new ones.
pub proof fn law_reached_states_have_new_identifiers(
    states: Seq<AppContext>,
    steps: Seq<AppStep>,
    i: int,
)
    requires
        is_history(states, steps),
        0 <= i < states.len(),
    ensures
        states[i].wf(),
        ids_are_new(states[i]),
    decreases i,
{
    if i > 0 {
        law_reached_states_have_new_identifiers(states, steps, i - 1);
        assert(step_taken(states[i - 1], steps[i - 1], states[i]));
        law_steps_keep_identifiers_new(states[i - 1], steps[i - 1], states[i]);
    }
}

/// The steps that begin to make, to take away, to open and to close hand out only new
/// identifiers to those that follow them.
pub proof fn law_runs_name_new_identifiers(
    before: AppContext,
    ready: MountReady,
    created: bool,
    host: HostFiles,
    mounting: Result<MountingRun, Failure>,
    unmount: SshUnmountRequest,
    unmounting: Result<UnmountProgress, Failure>,
    opening: TunnelRun,
    port: Result<u16, Failure>,
    opened: Result<TunnelLaunch, Failure>,
    after: AppContext,
)
    requires
        before.wf(),
        ids_are_new(before),
    ensures
        mount_started(before, ready, created, host, mounting, after) ==> (mounting matches Ok(run)
            ==> is_new_id("sshmnt_"@, run.request.mount.mount_id@)),
        unmount_begun(before, unmount, host, unmounting, after) ==> match unmounting {
            Ok(UnmountProgress::Umount { plan, run }) => is_new_id("sshmnt_"@, run.mount.mount_id@),
            Ok(UnmountProgress::Diskutil { plan, run }) => is_new_id("sshmnt_"@, run.mount.mount_id@),
            Ok(UnmountProgress::RemoveDirectory { run }) => is_new_id("sshmnt_"@, run.mount.mount_id@),
            _ => true,
        },
        attempt_made(before, opening, port, host, opened, after) ==> (opened matches Ok(launch)
            ==> is_new_id("sshtun_"@, launch.tunnel.tunnel_id@)),
        forall|k: Seq<char>| #[trigger]
            before.ssh_registry.tunnels().contains_key(k) ==> is_new_id(
                "sshtun_"@,
                before.ssh_registry.tunnels()[k].tunnel_id@,
            ),
{
    before.ssh_registry.lemma_ids();
}

} // verus!
