use pty_mcp::app::context::{SshConnectionRuntimeContext, SshMountRuntimeContext};
use pty_mcp::app::local_sessions::LocalSessionService;
use pty_mcp::app::ssh_connections::{
    mount_feature_available_for, ConnectStep, DisconnectStep, SshService,
};
use pty_mcp::app::ssh_files::{build_list_directory_script, parse_directory_entries};
use pty_mcp::app::ssh_mounts::{
    join_home_relative_remote_path, parse_mount_remote_path, MountStep, ParsedRemoteMountPath,
    UnmountProgress,
};
use pty_mcp::app::ssh_tunnels::{
    is_bind_failure, port_unavailable, stop_tunnel_child, stop_waited, tunnel_start_seen,
    TunnelLook, TunnelStart, TunnelStep, TunnelStop, TUNNEL_START_CHECK_ATTEMPTS,
};
use pty_mcp::app::state::AppState;
use pty_mcp::app::support::{
    is_valid_remote_cwd, normalize_remote_env_preview, parse_file_too_large_marker,
    validate_remote_max_bytes, validate_remote_path, validate_remote_write_size,
};
use pty_mcp::app::types::{
    SpawnSessionRequest, SshConnectRequest, SshDirectoryEntryType, SshDisconnectRequest,
    SshExecRequest, SshMountRequest, SshRunRequest, SshSessionSpawnRequest, SshTunnelCloseRequest,
    SshTunnelOpenRequest, SshUnmountRequest,
};
use pty_mcp::config::{Config, HostFiles};
use pty_mcp::error::Failure;
use pty_mcp::json::JsonValue;
use pty_mcp::ordered::OrderedMap;
use pty_mcp::permission::guard::CwdFacts;
use pty_mcp::session::model::{
    BufferStats, ExitInfo, SessionId, SessionStatus, SessionSummary, SessionTransport, SignalKind,
};
use pty_mcp::session::registry::KillProgress;
use pty_mcp::ssh::capability_probe::{ProbeOutputs, VersionOutput};
use pty_mcp::ssh::model::{
    MacFuseCapability, SshAuthKind, SshBinaryCapability, SshCapabilityView, SshConnectionId,
    SshConnectionStatus, SshConnectionSummary, SshMountBackend, SshMountId, SshMountStatus,
    SshMountSummary, SshTarget, SshTunnelId, SshTunnelKind, SshTunnelStatus, SshTunnelSummary,
};
use pty_mcp::ssh::runtime::CommandOutput;
use pty_mcp::timestamp::Timestamp;

fn host() -> HostFiles {
    HostFiles {
        platform: "linux".to_string(),
        files: vec![
            "/usr/bin/true".to_string(),
            "/usr/bin/ssh".to_string(),
            "/usr/bin/sshfs".to_string(),
            "/usr/bin/umount".to_string(),
            "/sandbox/umount".to_string(),
        ],
        path_dirs: Some(vec!["/usr/bin".to_string()]),
    }
}

fn version(text: &str) -> Vec<VersionOutput> {
    vec![VersionOutput { success: true, stdout: Vec::new(), stderr: text.as_bytes().to_vec() }]
}

fn seen() -> ProbeOutputs {
    ProbeOutputs {
        ssh: version("OpenSSH_9.6p1\n"),
        sshfs: version("SSHFS version 3.7.3\n"),
        unmount: version("umount from util-linux 2.39\n"),
        diskutil: Vec::new(),
        provider_installed: false,
    }
}

fn config() -> Config {
    Config::default_for(&host(), "/work")
}

fn app() -> AppState {
    AppState::new(config(), &host(), &seen(), "/work")
}

fn app_with_true_ssh() -> AppState {
    let mut config = config();
    config.ssh.ssh_bin_path = Some("/usr/bin/true".to_string());
    AppState::new(config, &host(), &seen(), "/work")
}

fn output(success: bool, stdout: &str, stderr: &str) -> CommandOutput {
    CommandOutput {
        success,
        exit_code: Some(if success { 0 } else { 255 }),
        signal: None,
        stdout: stdout.as_bytes().to_vec(),
        stderr: stderr.as_bytes().to_vec(),
    }
}

fn facts() -> CwdFacts {
    CwdFacts {
        current_dir: Ok("/work".to_string()),
        exists: true,
        canonical: Ok("/work".to_string()),
        canonical_roots: vec!["/work".to_string()],
    }
}

fn target(host: &str) -> SshTarget {
    SshTarget { host_alias: None, host: host.to_string(), user: None, port: None }
}

fn connect_request(
    host_alias: Option<&str>,
    host: Option<&str>,
    title: Option<&str>,
    description: &str,
) -> SshConnectRequest {
    SshConnectRequest {
        host_alias: host_alias.map(|s| s.to_string()),
        host: host.map(|s| s.to_string()),
        user: Some("alice".to_string()),
        port: Some(22),
        auth_kind: SshAuthKind::SshAgent,
        identity_path: None,
        title: title.map(|s| s.to_string()),
        description: Some(description.to_string()),
        verify_host_key: true,
    }
}

/// Makes a connection whose target answers.
fn connect(app: &mut AppState, request: SshConnectRequest) -> (SshConnectionSummary, bool) {
    match SshService::connect(&mut app.context, request, &host()).unwrap() {
        ConnectStep::Reused(done) => (done.connection, done.reused),
        ConnectStep::Verify { run, .. } => {
            let done =
                SshService::connect_verified(&mut app.context, run, Ok(output(true, "", "")))
                    .unwrap();
            (done.connection, done.reused)
        }
    }
}

fn ready_connection(app: &mut AppState) -> SshConnectionSummary {
    connect(app, connect_request(None, Some("example.com"), None, "test")).0
}

fn exited_session(connection: &SshConnectionSummary, description: &str) -> SessionSummary {
    SessionSummary {
        session_id: SessionId::new(),
        title: None,
        description: description.to_string(),
        command: "ssh".to_string(),
        args: Vec::new(),
        cwd: None,
        transport: SessionTransport::Ssh,
        connection_id: Some(connection.connection_id.clone()),
        target_summary: Some(connection.target_summary.clone()),
        remote_cwd: None,
        remote_command: None,
        remote_env_preview: OrderedMap::new(),
        status: SessionStatus::Exited,
        pid: None,
        started_at: Timestamp::now(),
        buffer_stats: BufferStats::default(),
        exit_info: Some(ExitInfo::default()),
    }
}

fn mounted_at(connection_id: SshConnectionId, local_path: &str) -> SshMountSummary {
    SshMountSummary {
        mount_id: SshMountId::new(),
        title: None,
        description: None,
        connection_id,
        target_summary: "example.com".to_string(),
        status: SshMountStatus::Mounted,
        backend: SshMountBackend::Sshfs,
        local_path: local_path.to_string(),
        remote_path: "/remote".to_string(),
        read_only: false,
        mounted_at: Timestamp::now(),
        last_error: None,
    }
}

fn spawn_request(command: &str, description: &str) -> SpawnSessionRequest {
    SpawnSessionRequest {
        command: command.to_string(),
        args: Vec::new(),
        cwd: None,
        env: None,
        title: None,
        description: Some(description.to_string()),
    }
}

#[test]
fn spawn_failure_marks_session_failed_to_spawn() {
    let mut app = app();
    let before = app.registry().list().len();

    let (id, program) = LocalSessionService::spawn_session(
        &mut app.context,
        spawn_request("/definitely/not/a/real/command", "spawn failure"),
        &facts(),
    )
    .unwrap();
    assert_eq!(program.command, "/definitely/not/a/real/command");
    let error = LocalSessionService::spawn_finished(
        &mut app.context,
        &id,
        Err(Failure::new("no such file".to_string())),
    )
    .unwrap_err();

    assert!(!error.message.is_empty());
    let sessions = app.registry().list();
    assert_eq!(sessions.len(), before + 1);
    assert!(sessions.iter().any(|session| session.status == SessionStatus::FailedToSpawn));
}

#[test]
fn kill_session_refreshes_ssh_tracking() {
    let mut app = app();
    let mut connection = app.ssh_create_placeholder_connection(target("example.com"));
    connection.status = SshConnectionStatus::Ready;
    app.ssh_upsert_connection(connection.clone());

    let session = exited_session(&connection, "exited");
    let session_id = session.session_id.clone();
    app.context.registry.insert(session);
    app.ssh_track_session(&connection.connection_id, session_id.clone()).unwrap();

    let outcome = match app.kill_session(&session_id, SignalKind::Sigterm, false).unwrap() {
        KillProgress::Done(outcome) => outcome,
        _ => unreachable!(),
    };
    let outcome = LocalSessionService::kill_session(&mut app.context, outcome);

    assert_eq!(outcome.current_status, SessionStatus::Exited);
    let relations = app.ssh_connection_relations(&connection.connection_id).unwrap();
    assert!(relations.session_ids.is_empty());
    assert_eq!(
        app.ssh_get_connection(&connection.connection_id).unwrap().status,
        SshConnectionStatus::Ready
    );
}

#[test]
fn mount_feature_requires_macfuse_on_macos() {
    let present = || SshBinaryCapability { available: true, path: None, version: None };
    let without_macfuse = SshCapabilityView {
        platform: "macos".to_string(),
        ssh: SshBinaryCapability::default(),
        sshfs: present(),
        unmount: present(),
        diskutil: None,
        macfuse: Some(MacFuseCapability { available: false, provider: None, version: None }),
    };
    assert!(!mount_feature_available_for(&without_macfuse));

    let with_macfuse = SshCapabilityView {
        macfuse: Some(MacFuseCapability {
            available: true,
            provider: Some("macFUSE".to_string()),
            version: Some("4.6.0".to_string()),
        }),
        ..without_macfuse
    };
    assert!(mount_feature_available_for(&with_macfuse));
}

#[test]
fn connect_reuses_matching_connection() {
    let mut app = app_with_true_ssh();

    let (first, first_reused) = connect(
        &mut app,
        connect_request(None, Some("example.com"), Some("test"), "first"),
    );
    let (second, second_reused) = connect(
        &mut app,
        connect_request(None, Some("example.com"), Some("test"), "second"),
    );

    assert!(!first_reused);
    assert!(second_reused);
    assert_eq!(first.connection_id, second.connection_id);
}

#[test]
fn connect_normalizes_host_alias_when_used_as_host_fallback() {
    let mut app = app_with_true_ssh();

    let (first, _) = connect(&mut app, connect_request(Some(" devbox "), None, None, "first"));
    let (second, second_reused) =
        connect(&mut app, connect_request(Some("devbox"), None, None, "second"));

    assert_eq!(first.target.host, "devbox");
    assert!(second_reused);
    assert_eq!(first.connection_id, second.connection_id);
}

#[test]
fn disconnect_precheck_refreshes_stale_session_links() {
    let mut app = app();
    let connection = app.ssh_create_placeholder_connection(target("example.com"));
    let session = exited_session(&connection, "stale");
    let session_id = session.session_id.clone();
    app.context.registry.insert(session);
    app.ssh_track_session(&connection.connection_id, session_id).unwrap();

    app.ssh_disconnect_precheck(&connection.connection_id).unwrap();

    let relations = app.ssh_connection_relations(&connection.connection_id).unwrap();
    assert!(relations.session_ids.is_empty());
}

#[test]
fn remove_connection_and_mount_cleanup_runtime_context() {
    let mut app = app();
    let connection = app.ssh_create_placeholder_connection(target("example.com"));
    app.context.remember_connection_runtime_context(
        &connection.connection_id,
        SshConnectionRuntimeContext {
            auth_kind: SshAuthKind::SshAgent,
            identity_path: None,
            verify_host_key: true,
        },
    );

    let mount = mounted_at(connection.connection_id.clone(), "/tmp/demo");
    let mount_id = mount.mount_id.clone();
    app.ssh_upsert_mount(mount);
    app.context.remember_mount_runtime_context(
        &mount_id,
        SshMountRuntimeContext { managed_path: true, created_local_path: true },
    );

    assert!(app.ssh_remove_mount(&mount_id).is_some());
    assert!(app.context.mount_contexts.len() == 0);
    assert!(app.ssh_remove_connection(&connection.connection_id).is_some());
    assert!(app.context.connection_contexts.len() == 0);
}

#[test]
fn parses_directory_entries() {
    let bytes = b"file\0a.txt\0/tmp/a.txt\0directory\0bin\0/tmp/bin\0";
    let entries = parse_directory_entries(bytes).unwrap();
    assert_eq!(entries.len(), 2);
    assert_eq!(entries[0].name, "a.txt");
    assert_eq!(entries[1].path, "/tmp/bin");
    assert_eq!(entries[0].entry_type, SshDirectoryEntryType::File);
    assert_eq!(entries[1].entry_type, SshDirectoryEntryType::Directory);
}

#[test]
fn rejects_directory_listing_without_trailing_separator() {
    assert!(parse_directory_entries(b"file\0a\0/tmp/a").is_err());
}

#[test]
fn directory_script_switches_hidden_glob() {
    let hidden = build_list_directory_script("/tmp", true);
    let plain = build_list_directory_script("/tmp", false);
    assert!(hidden.contains("/.[!.]*"));
    assert!(!plain.contains("/.[!.]*"));
}

#[test]
fn parse_mount_remote_path_accepts_absolute_and_home_relative_forms() {
    assert_eq!(
        parse_mount_remote_path("/srv/project").unwrap(),
        ParsedRemoteMountPath::Absolute("/srv/project")
    );
    assert_eq!(parse_mount_remote_path("~").unwrap(), ParsedRemoteMountPath::Home);
    assert_eq!(
        parse_mount_remote_path("~/workspace/sdc-skill").unwrap(),
        ParsedRemoteMountPath::HomeRelative("workspace/sdc-skill")
    );
    assert_eq!(parse_mount_remote_path("~/").unwrap(), ParsedRemoteMountPath::HomeRelative(""));
}

#[test]
fn parse_mount_remote_path_rejects_invalid_forms() {
    let relative = parse_mount_remote_path("relative/path").expect_err("relative path");
    assert!(relative.message.contains("absolute path or home-relative path"));

    let user_relative = parse_mount_remote_path("~alice/project").expect_err("user-relative");
    assert!(user_relative.message.contains("only supports ~ or ~/..."));

    let empty = parse_mount_remote_path(" ").expect_err("empty path");
    assert!(empty.message.contains("cannot be empty"));
}

#[test]
fn join_home_relative_remote_path_preserves_literal_suffix() {
    assert_eq!(join_home_relative_remote_path("/home/alice", ""), "/home/alice");
    assert_eq!(
        join_home_relative_remote_path("/home/alice", "../project"),
        "/home/alice/../project"
    );
    assert_eq!(join_home_relative_remote_path("/", "workspace"), "/workspace");
}

#[test]
fn ensure_mount_local_path_handles_creation_rules() {
    let app = app();
    let base = "/tmp/pty-mcp-mount-1";

    let missing = app.context.ensure_mount_local_path(base, false, false, false);
    assert!(missing.is_err());

    let created = app.context.ensure_mount_local_path(base, true, false, false).unwrap();
    assert!(created);
    let there = app.context.ensure_mount_local_path(base, true, true, true).unwrap();
    assert!(!there);
    let file = app.context.ensure_mount_local_path(base, true, true, false).unwrap_err();
    assert_eq!(
        file.message,
        "ssh mount local_path must be a directory: local_path=/tmp/pty-mcp-mount-1"
    );
}

#[test]
fn cleanup_mount_local_path_only_for_managed_created_paths() {
    let app = app();
    let skipped = app.context.cleanup_mount_local_path_if_allowed(&SshMountRuntimeContext {
        managed_path: false,
        created_local_path: true,
    });
    assert!(!skipped);

    let removed = app.context.cleanup_mount_local_path_if_allowed(&SshMountRuntimeContext {
        managed_path: true,
        created_local_path: true,
    });
    assert!(removed);
    let found = app.context.cleanup_mount_local_path_if_allowed(&SshMountRuntimeContext {
        managed_path: true,
        created_local_path: false,
    });
    assert!(!found);
}

#[test]
fn unmount_marks_mount_failed_when_cleanup_fails() {
    let mut config = config();
    config.ssh.umount_bin_path = Some("/sandbox/umount".to_string());
    let mut app = AppState::new(config, &host(), &seen(), "/work");

    let mount = mounted_at(SshConnectionId::new(), "/sandbox/mount");
    let mount_id = mount.mount_id.clone();
    app.ssh_upsert_mount(mount);
    app.context.remember_mount_runtime_context(
        &mount_id,
        SshMountRuntimeContext { managed_path: true, created_local_path: true },
    );

    let request =
        SshUnmountRequest { mount_id: mount_id.clone(), force: false, cleanup_local_path: true };
    let run = match SshService::unmount(&mut app.context, request, &host()).unwrap() {
        UnmountProgress::Umount { plan, run } => {
            assert_eq!(plan.program, "/sandbox/umount");
            run
        }
        _ => unreachable!(),
    };
    let run = match SshService::umount_ran(&mut app.context, run, &host(), Ok(output(true, "", "")))
        .unwrap()
    {
        UnmountProgress::RemoveDirectory { run } => run,
        _ => unreachable!(),
    };
    let result =
        SshService::directory_removed(&mut app.context, run, Err("Permission denied".to_string()));

    assert!(result.is_err());
    assert_eq!(
        result.unwrap_err().message,
        format!(
            "failed to remove managed ssh mount local_path: mount_id={} local_path=/sandbox/mount: Permission denied",
            mount_id.as_str()
        )
    );
    let updated = app.ssh_get_mount(&mount_id).unwrap();
    assert_eq!(updated.status, SshMountStatus::Failed);
    assert!(updated.last_error.as_deref().unwrap_or_default().contains("failed to remove"));
    assert!(!updated.last_error.unwrap().contains("Permission denied"));
    assert_eq!(
        app.context.mount_directory_not_created("/work/mnt", "read-only").message,
        "failed to create ssh mount local_path: local_path=/work/mnt: read-only"
    );
}

#[test]
fn close_tunnel_preserves_failed_status_and_last_error() {
    let mut app = app();
    let mut connection = app.ssh_create_placeholder_connection(SshTarget {
        host_alias: Some("devbox".to_string()),
        host: "devbox.example.com".to_string(),
        user: Some("alice".to_string()),
        port: Some(22),
    });
    connection.status = SshConnectionStatus::Ready;
    app.ssh_upsert_connection(connection.clone());

    let tunnel = SshTunnelSummary {
        tunnel_id: SshTunnelId::new(),
        title: Some("db".to_string()),
        description: Some("failed tunnel".to_string()),
        connection_id: connection.connection_id,
        target_summary: connection.target_summary,
        kind: SshTunnelKind::LocalForward,
        status: SshTunnelStatus::Failed,
        bind_host: "127.0.0.1".to_string(),
        local_port: 15432,
        remote_host: "127.0.0.1".to_string(),
        remote_port: 5432,
        started_at: Timestamp::now(),
        last_error: Some("bind failed".to_string()),
        pid: None,
    };
    let tunnel_id = tunnel.tunnel_id.clone();
    app.context.ssh_registry.upsert_tunnel(tunnel);

    let run = SshService::close_tunnel(
        &mut app.context,
        &SshTunnelCloseRequest { tunnel_id: tunnel_id.clone(), force: false },
    )
    .unwrap();
    let result = SshService::tunnel_closed(&mut app.context, run, Ok(()))
        .expect("close_tunnel should succeed for failed tunnel");

    assert_eq!(result.previous_status, SshTunnelStatus::Failed);
    assert_eq!(result.current_status, SshTunnelStatus::Failed);
    let updated =
        app.ssh_registry().get_tunnel(&tunnel_id).expect("tunnel should still exist");
    assert_eq!(updated.status, SshTunnelStatus::Failed);
    assert_eq!(updated.last_error.as_deref(), Some("bind failed"));
}

#[test]
fn normalizes_remote_env_scalars() {
    let env = Some(vec![
        ("FOO".to_string(), JsonValue::Text("bar".to_string())),
        ("NUM".to_string(), JsonValue::Number("12".to_string())),
        ("BOOL".to_string(), JsonValue::Bool(true)),
    ]);

    let normalized = normalize_remote_env_preview(&env).unwrap();
    assert_eq!(normalized.get("FOO").unwrap(), "bar");
    assert_eq!(normalized.get("NUM").unwrap(), "12");
    assert_eq!(normalized.get("BOOL").unwrap(), "true");
}

#[test]
fn rejects_invalid_remote_env_values() {
    let env = Some(vec![("FOO".to_string(), JsonValue::Null)]);
    assert!(normalize_remote_env_preview(&env).is_err());
    let list = Some(vec![("FOO".to_string(), JsonValue::Array(Vec::new()))]);
    assert!(normalize_remote_env_preview(&list).is_err());
    let key = Some(vec![(" ".to_string(), JsonValue::Bool(false))]);
    assert!(normalize_remote_env_preview(&key).is_err());
    assert_eq!(normalize_remote_env_preview(&None).unwrap().len(), 0);
}

#[test]
fn validates_remote_cwd_forms() {
    assert!(is_valid_remote_cwd("/tmp"));
    assert!(is_valid_remote_cwd("~"));
    assert!(is_valid_remote_cwd("~/tmp"));
    assert!(!is_valid_remote_cwd("tmp"));
}

#[test]
fn parses_file_too_large_marker() {
    let marker = "oops\n__PTY_MCP_FILE_TOO_LARGE__:4096\n";
    assert_eq!(parse_file_too_large_marker(marker), Some(4096));
    assert_eq!(parse_file_too_large_marker("oops\n"), None);
}

#[test]
fn validates_remote_path_and_sizes() {
    assert_eq!(validate_remote_path("/tmp/file", "field").unwrap(), "/tmp/file");
    assert!(validate_remote_path("", "field").is_err());
    assert!(validate_remote_max_bytes(0).is_err());
    assert!(validate_remote_write_size(&"a".repeat(256 * 1024 + 1)).is_err());
    assert!(validate_remote_write_size(&"a".repeat(256 * 1024)).is_ok());
}

#[test]
fn session_limit_refuses_one_too_many() {
    let mut config = config();
    config.session_limit = 1;
    let mut app = AppState::new(config, &host(), &seen(), "/work");
    let (id, _) = app.spawn_session(spawn_request("sh", "first"), &facts()).unwrap();
    let full = app.spawn_session(spawn_request("sh", "second"), &facts()).unwrap_err();
    assert!(full.message.contains("1"));
    assert_eq!(app.registry().list().len(), 1);
    let started =
        LocalSessionService::spawn_finished(&mut app.context, &id, Ok(Some(42))).unwrap();
    assert_eq!(started.status, SessionStatus::Running);
    assert_eq!(started.pid, Some(42));
}

#[test]
fn denied_command_leaves_no_session() {
    let mut config = config();
    config.denied_commands = vec!["rm".to_string()];
    let mut app = AppState::new(config, &host(), &seen(), "/work");
    let refused = app.spawn_session(spawn_request("/bin/rm", "no"), &facts()).unwrap_err();
    assert!(refused.message.contains("rm"));
    assert_eq!(app.registry().list().len(), 0);
}

#[test]
fn failed_verification_makes_no_connection() {
    let mut app = app();
    let run = match app
        .ssh_connect(connect_request(None, Some("example.com"), None, "x"), &host())
        .unwrap()
    {
        ConnectStep::Verify { plan, run } => {
            assert_eq!(plan.program, "/usr/bin/ssh");
            assert_eq!(plan.args[plan.args.len() - 2..], ["exit", "0"]);
            run
        }
        _ => unreachable!(),
    };
    let error = app.ssh_connect_verified(run, Ok(output(false, "", "denied"))).unwrap_err();
    assert!(error.message.starts_with("ssh connection verification failed: target=alice@example.com:22"));
    assert!(app.ssh_list_connections().is_empty());
}

#[test]
fn connection_without_mounts_is_degraded() {
    let seen = ProbeOutputs {
        ssh: version("OpenSSH_9.6p1"),
        sshfs: Vec::new(),
        unmount: Vec::new(),
        diskutil: Vec::new(),
        provider_installed: false,
    };
    let host = HostFiles {
        platform: "linux".to_string(),
        files: vec!["/usr/bin/ssh".to_string()],
        path_dirs: Some(vec!["/usr/bin".to_string()]),
    };
    let mut app = AppState::new(Config::default_for(&host, "/work"), &host, &seen, "/work");
    assert!(!app.ssh_mount_feature_available());
    let made = ready_connection(&mut app);
    assert_eq!(made.status, SshConnectionStatus::Degraded);
}

#[test]
fn host_without_ssh_makes_no_connection() {
    let seen = ProbeOutputs {
        ssh: Vec::new(),
        sshfs: Vec::new(),
        unmount: Vec::new(),
        diskutil: Vec::new(),
        provider_installed: false,
    };
    let host = HostFiles { platform: "linux".to_string(), files: Vec::new(), path_dirs: None };
    let mut app = AppState::new(Config::default_for(&host, "/work"), &host, &seen, "/work");
    let error = app
        .ssh_connect(connect_request(None, Some("example.com"), None, "x"), &host)
        .unwrap_err();
    assert_eq!(
        error.message,
        "ssh capability is unavailable on this host: capabilities=SshCapabilityView { \
         platform: \"linux\", ssh: SshBinaryCapability { available: false, path: None, \
         version: None }, sshfs: SshBinaryCapability { available: false, path: None, \
         version: None }, unmount: SshBinaryCapability { available: false, path: None, \
         version: None }, diskutil: None, macfuse: None }"
    );
}

#[test]
fn remote_session_runs_over_its_connection() {
    let mut app = app();
    let connection = ready_connection(&mut app);
    let request = SshSessionSpawnRequest {
        connection_id: connection.connection_id.clone(),
        command: Some("ls".to_string()),
        args: vec!["-l a".to_string()],
        cwd: Some("~/src".to_string()),
        env: None,
        shell: None,
        interactive: true,
        login: false,
        title: None,
        description: None,
    };
    let (session_id, program) = app.ssh_session_spawn(request, &host()).unwrap();
    assert_eq!(program.command, "/usr/bin/ssh");
    let command = program.args.last().unwrap();
    assert!(command.contains("'-l a'"));
    let started = SshService::remote_spawn_finished(
        &mut app.context,
        &connection.connection_id,
        &session_id,
        Ok(Some(7)),
    )
    .unwrap();
    assert_eq!(started.transport, SessionTransport::Ssh);
    assert_eq!(started.remote_cwd.as_deref(), Some("~/src"));
    let counted = app.ssh_get_connection(&connection.connection_id).unwrap();
    assert_eq!(counted.active_session_count, 1);

    let refused = app
        .ssh_disconnect(SshDisconnectRequest {
            connection_id: connection.connection_id.clone(),
            force: false,
            cleanup_mounts: false,
            cleanup_tunnels: false,
        })
        .unwrap_err();
    assert_eq!(
        refused.message,
        format!(
            "ssh connection still has active sessions: connection_id={} active_session_count=1",
            connection.connection_id.as_str()
        )
    );
}

#[test]
fn forced_disconnect_closes_mounts_and_sessions() {
    let mut app = app();
    let connection = ready_connection(&mut app);
    let id = connection.connection_id.clone();
    let mount = mounted_at(id.clone(), "/work/mnt");
    let mount_id = mount.mount_id.clone();
    app.ssh_upsert_mount(mount);
    let (session_id, _) = app
        .ssh_exec(
            SshExecRequest {
                connection_id: id.clone(),
                script: "sleep 1".to_string(),
                cwd: None,
                env: None,
                shell: None,
                login: false,
                title: None,
                description: None,
            },
            &host(),
        )
        .unwrap();
    SshService::remote_spawn_finished(&mut app.context, &id, &session_id, Ok(None)).unwrap();

    let request = |cleanup_mounts| SshDisconnectRequest {
        connection_id: id.clone(),
        force: true,
        cleanup_mounts,
        cleanup_tunnels: false,
    };
    let refused = app.ssh_disconnect(request(false)).unwrap_err();
    assert!(refused.message.contains("set cleanup_mounts=true to force disconnect"));

    let run = app.ssh_disconnect(request(true)).unwrap();
    let run = match SshService::disconnect_next(&mut app.context, run) {
        DisconnectStep::Unmount { unmount, run } => {
            assert_eq!(unmount.mount_id, mount_id);
            run
        }
        _ => unreachable!(),
    };
    let run = SshService::disconnect_unmounted(&mut app.context, run, Ok(())).unwrap();
    let run = match SshService::disconnect_next(&mut app.context, run) {
        DisconnectStep::Kill { session_id: found, run } => {
            assert_eq!(found, session_id);
            run
        }
        _ => unreachable!(),
    };
    app.context.registry.remove(&session_id);
    let run =
        SshService::disconnect_killed(&mut app.context, run, &session_id, Ok(())).unwrap();
    match SshService::disconnect_next(&mut app.context, run) {
        DisconnectStep::Done(done) => {
            assert_eq!(done.previous_status, SshConnectionStatus::Ready);
            assert_eq!(done.current_status, SshConnectionStatus::Disconnected);
            assert_eq!(done.closed_mounts, 1);
            assert_eq!(done.closed_sessions, 1);
            assert_eq!(done.closed_tunnels, 0);
        }
        _ => unreachable!(),
    }
    let ended = app.ssh_get_connection(&id).unwrap();
    assert_eq!(ended.status, SshConnectionStatus::Disconnected);
    let (again, reused) =
        connect(&mut app, connect_request(None, Some("example.com"), None, "again"));
    assert!(!reused);
    assert_ne!(again.connection_id, id);
}

#[test]
fn failed_unmount_fails_the_connection() {
    let mut app = app();
    let connection = ready_connection(&mut app);
    let id = connection.connection_id.clone();
    app.ssh_upsert_mount(mounted_at(id.clone(), "/work/mnt"));
    let run = app
        .ssh_disconnect(SshDisconnectRequest {
            connection_id: id.clone(),
            force: true,
            cleanup_mounts: true,
            cleanup_tunnels: true,
        })
        .unwrap();
    let run = match SshService::disconnect_next(&mut app.context, run) {
        DisconnectStep::Unmount { run, .. } => run,
        _ => unreachable!(),
    };
    let error = SshService::disconnect_unmounted(
        &mut app.context,
        run,
        Err(Failure::new("busy".to_string())),
    )
    .unwrap_err();
    assert_eq!(error.message, "busy");
    assert_eq!(app.ssh_get_connection(&id).unwrap().status, SshConnectionStatus::Failed);
}

#[test]
fn remote_run_is_bounded_and_reported() {
    let mut app = app();
    let connection = ready_connection(&mut app);
    let request = SshRunRequest {
        connection_id: connection.connection_id.clone(),
        script: "echo hi".to_string(),
        cwd: None,
        env: None,
        shell: None,
        login: false,
        timeout_ms: Some(1500),
        max_output_bytes: Some(10),
    };
    let plan = app.ssh_run(&request, &host()).unwrap();
    assert_eq!(plan.program, "/usr/bin/ssh");
    assert_eq!(plan.timeout_ms, 1500);
    assert_eq!(plan.max_output_bytes, Some(10));
    let mut ended = output(true, "", "bad: ");
    ended.stdout = vec![0x68, 0xff, 0x69];
    ended.signal = Some(9);
    ended.exit_code = None;
    let result = SshService::run_result(connection.connection_id, &ended);
    assert_eq!(result.stdout, "h\u{fffd}i");
    assert_eq!(result.stderr, "bad: ");
    assert_eq!(result.exit_signal.as_deref(), Some("9"));
    assert_eq!(result.exit_code, None);
}

#[test]
fn remote_files_are_read_and_written() {
    let mut app = app();
    let connection = ready_connection(&mut app);
    let id = connection.connection_id.clone();
    let capture = app.ssh_read_file(&host(), &id, " /etc/hosts ", 64).unwrap();
    assert_eq!(capture.path.as_deref(), Some("/etc/hosts"));
    let shown = SshService::read_file_result(&id, "/etc/hosts", 64, output(true, "127.0.0.1", ""))
        .unwrap();
    assert_eq!(shown.content, "127.0.0.1");
    assert_eq!(shown.bytes_read, 9);
    let marker = "__PTY_MCP_FILE_TOO_LARGE__:4096\n";
    let large = SshService::read_file_result(&id, "/etc/hosts", 64, output(false, "", marker))
        .unwrap_err();
    assert!(large.message.contains("4096"));
    let mut binary = output(true, "", "");
    binary.stdout = vec![0xff, 0xfe];
    assert!(SshService::read_file_result(&id, "/etc/hosts", 64, binary).is_err());

    let written = app.ssh_write_file(&host(), &id, "/tmp/x", "it's", false, true).unwrap();
    assert!(written.plan.args.last().unwrap().contains("mkdir"));
    let done =
        SshService::write_file_result(&id, "/tmp/x", "it's", false, &output(true, "", "")).unwrap();
    assert_eq!(done.bytes_written, 4);
    let failed = SshService::write_file_result(&id, "/tmp/x", "a", true, &output(false, "", "no"))
        .unwrap_err();
    assert!(failed.message.starts_with("failed to write remote file"));
    let large = "a".repeat(256 * 1024 + 1);
    let refused = app.ssh_write_file(&host(), &id, "/tmp/x", &large, false, false).unwrap_err();
    assert_eq!(refused.message, "ssh_write_file content must be at most 262144 bytes");
    assert!(app.ssh_mkdir(&host(), &id, " ", true).is_err());
    assert!(app.ssh_list_directory(&host(), &id, "/tmp", true).is_ok());
    let made = SshService::mkdir_result(&id, "/tmp/d", true, &output(true, "", "")).unwrap();
    assert!(made.parents);
}

#[test]
fn unknown_connections_are_not_found() {
    let mut app = app();
    let id = SshConnectionId::of("sshconn_none");
    let text = "ssh connection not found: connection_id=sshconn_none";
    assert_eq!(app.ssh_read_file(&host(), &id, "/x", 1).unwrap_err().message, text);
    assert_eq!(app.ssh_connection_relations(&id).unwrap_err().message, text);
    assert_eq!(app.ssh_disconnect_precheck(&id).unwrap_err().message, text);
    assert!(app.ssh_active_resource_counts(&id).is_none());
    let unmount = SshUnmountRequest {
        mount_id: SshMountId::of("sshmnt_none"),
        force: false,
        cleanup_local_path: false,
    };
    assert_eq!(
        app.ssh_unmount(unmount, &host()).unwrap_err().message,
        "ssh mount not found: mount_id=sshmnt_none"
    );
    let close = SshTunnelCloseRequest { tunnel_id: SshTunnelId::of("sshtun_none"), force: true };
    assert_eq!(
        SshService::close_tunnel(&mut app.context, &close).unwrap_err().message,
        "ssh tunnel not found: tunnel_id=sshtun_none"
    );
}

#[test]
fn connection_that_is_not_ready_runs_nothing() {
    let mut app = app();
    let connection = app.ssh_create_placeholder_connection(target("example.com"));
    let id = connection.connection_id.clone();
    let error = app.ssh_read_file(&host(), &id, "/x", 1).unwrap_err();
    assert!(error.message.contains("status=Connecting"));
}

fn mount_request(connection_id: SshConnectionId, remote: &str, local: &str) -> SshMountRequest {
    SshMountRequest {
        connection_id,
        remote_path: remote.to_string(),
        local_path: local.to_string(),
        read_only: false,
        backend: None,
        create_local_path: true,
        title: None,
        description: None,
    }
}

#[test]
fn mount_of_a_home_directory_asks_for_it() {
    let mut app = app();
    app.context.ssh_config.allowed_mount_roots = vec!["/work".to_string()];
    let connection = ready_connection(&mut app);
    let id = connection.connection_id.clone();
    let request = mount_request(id.clone(), "~/src", "/work/mnt");
    let (capture, run) = match SshService::mount(&app.context, request, &host()).unwrap() {
        MountStep::AskHome { capture, run } => (capture, run),
        _ => unreachable!(),
    };
    let ready = SshService::mount_home_known(
        &app.context,
        run,
        &capture,
        Ok(output(true, "/home/alice\n", "")),
    )
    .unwrap();
    assert_eq!(ready.remote_path, "/home/alice/src");
    let run = SshService::mount_start(&mut app.context, ready, true, &host()).unwrap();
    assert_eq!(run.plan.program, "/usr/bin/sshfs");
    assert_eq!(app.ssh_list_mounts()[0].status, SshMountStatus::Mounting);
    let mount =
        SshService::mount_finished(&mut app.context, run, Ok(output(true, "", ""))).unwrap();
    assert_eq!(mount.status, SshMountStatus::Mounted);
    assert_eq!(app.ssh_get_connection(&id).unwrap().active_mount_count, 1);
}

#[test]
fn direct_mounts_take_absolute_paths_only() {
    let mut app = app();
    app.context.ssh_config.allowed_mount_roots = vec!["/work".to_string()];
    let id = ready_connection(&mut app).connection_id;
    let error =
        app.ssh_mount(mount_request(id.clone(), "~/src", "/work/mnt"), &host()).unwrap_err();
    assert_eq!(error.message, "remote_path must be an absolute path: remote_path=~/src");
    match app.ssh_mount(mount_request(id, "/srv/src", "/work/mnt"), &host()).unwrap() {
        MountStep::Directory(ready) => assert_eq!(ready.remote_path, "/srv/src"),
        _ => unreachable!(),
    }
}

#[test]
fn mounts_keep_how_their_connection_was_made() {
    let mut app = app();
    app.context.ssh_config.allowed_mount_roots = vec!["/work".to_string()];
    let id = ready_connection(&mut app).connection_id;
    let made = SshConnectionRuntimeContext {
        auth_kind: SshAuthKind::IdentityFile,
        identity_path: Some("/keys/id".to_string()),
        verify_host_key: false,
    };
    app.context.remember_connection_runtime_context(&id, made);
    let ready = match app.ssh_mount(mount_request(id, "/srv", "/work/mnt"), &host()).unwrap() {
        MountStep::Directory(ready) => ready,
        _ => unreachable!(),
    };
    let run = SshService::mount_start(&mut app.context, ready, false, &host()).unwrap();
    assert_eq!(run.request.auth_kind, SshAuthKind::IdentityFile);
    assert_eq!(run.request.identity_path.as_deref(), Some("/keys/id"));
    assert!(!run.request.verify_host_key);
    assert_eq!(run.request.sshfs_bin_path.as_deref(), Some("/usr/bin/sshfs"));
}

#[test]
fn failed_mount_is_recorded() {
    let mut app = app();
    app.context.ssh_config.allowed_mount_roots = vec!["/work".to_string()];
    let connection = ready_connection(&mut app);
    let id = connection.connection_id.clone();
    let ready = match app
        .ssh_mount(mount_request(id.clone(), "/srv", "/work/mnt"), &host())
        .unwrap()
    {
        MountStep::Directory(ready) => ready,
        _ => unreachable!(),
    };
    let run = SshService::mount_start(&mut app.context, ready, false, &host()).unwrap();
    let error =
        SshService::mount_finished(&mut app.context, run, Ok(output(false, "", "no route")))
            .unwrap_err();
    assert!(error.message.contains("no route"));
    assert_eq!(app.ssh_list_mounts()[0].status, SshMountStatus::Failed);
    assert_eq!(app.ssh_get_connection(&id).unwrap().active_mount_count, 0);
    assert!(app.ssh_mount(mount_request(id, "/srv", "/elsewhere"), &host()).is_err());
}

fn tunnel_request(connection_id: SshConnectionId, local_port: u16) -> SshTunnelOpenRequest {
    SshTunnelOpenRequest {
        connection_id,
        bind_host: None,
        local_port,
        remote_host: None,
        remote_port: 5432,
        title: None,
        description: None,
    }
}

#[test]
fn tunnels_are_opened_reused_and_closed() {
    let mut app = app();
    let connection = ready_connection(&mut app);
    let id = connection.connection_id.clone();
    let run = match SshService::open_tunnel(
        &mut app.context,
        tunnel_request(id.clone(), 15432),
        &host(),
    )
    .unwrap()
    {
        TunnelStep::CheckPort(run) => run,
        _ => unreachable!(),
    };
    assert_eq!(run.attempts, 1);
    let launch = SshService::tunnel_port(&mut app.context, run, Ok(15432), &host()).unwrap();
    assert_eq!(launch.plan.command, "/usr/bin/ssh");
    assert!(launch.plan.args.iter().any(|a| a == "127.0.0.1:15432:127.0.0.1:5432"));
    let opened = match SshService::tunnel_started(
        &mut app.context,
        launch,
        TunnelStart::Running { pid: Some(9) },
    )
    .unwrap()
    {
        TunnelStep::Done(done) => done,
        _ => unreachable!(),
    };
    assert!(!opened.reused);
    assert_eq!(opened.tunnel.status, SshTunnelStatus::Active);
    let again =
        SshService::open_tunnel(&mut app.context, tunnel_request(id, 15432), &host()).unwrap();
    match again {
        TunnelStep::Done(done) => {
            assert!(done.reused);
            assert_eq!(done.tunnel.tunnel_id, opened.tunnel.tunnel_id);
        }
        _ => unreachable!(),
    }
    let close =
        SshTunnelCloseRequest { tunnel_id: opened.tunnel.tunnel_id.clone(), force: false };
    let run = SshService::close_tunnel(&mut app.context, &close).unwrap();
    let closed = SshService::tunnel_closed(&mut app.context, run, Ok(())).unwrap();
    assert_eq!(closed.previous_status, SshTunnelStatus::Active);
    assert_eq!(closed.current_status, SshTunnelStatus::Closed);
}

#[test]
fn open_port_is_chosen_anew_until_attempts_run_out() {
    let mut app = app();
    let connection = ready_connection(&mut app);
    let mut step =
        SshService::open_tunnel(&mut app.context, tunnel_request(connection.connection_id, 0), &host());
    let mut attempts = 0;
    let error = loop {
        let run = match step {
            Ok(TunnelStep::ChoosePort(run)) => run,
            Ok(_) => unreachable!(),
            Err(e) => break e,
        };
        attempts += 1;
        let launch = SshService::tunnel_port(&mut app.context, run, Ok(40000), &host()).unwrap();
        let ended = Failure::new("bind [127.0.0.1]:40000: Address already in use".to_string());
        step = SshService::tunnel_started(&mut app.context, launch, TunnelStart::Ended(ended));
    };
    assert_eq!(attempts, 5);
    assert!(is_bind_failure(&error.message));
    assert!(!is_bind_failure("permission denied"));
    assert!(port_unavailable("127.0.0.1", 80, "in use").message.contains("80"));
}

#[test]
fn tunnels_listen_on_loopback_only() {
    let mut app = app();
    let connection = ready_connection(&mut app);
    let mut request = tunnel_request(connection.connection_id, 15432);
    request.bind_host = Some("0.0.0.0".to_string());
    assert!(SshService::open_tunnel(&mut app.context, request, &host()).is_err());
}

#[test]
fn ended_tunnel_is_recorded() {
    let mut app = app();
    let connection = ready_connection(&mut app);
    let mut tunnel = SshTunnelSummary {
        tunnel_id: SshTunnelId::new(),
        title: None,
        description: None,
        connection_id: connection.connection_id,
        target_summary: connection.target_summary,
        kind: SshTunnelKind::LocalForward,
        status: SshTunnelStatus::Active,
        bind_host: "127.0.0.1".to_string(),
        local_port: 15432,
        remote_host: "127.0.0.1".to_string(),
        remote_port: 5432,
        started_at: Timestamp::now(),
        last_error: None,
        pid: Some(3),
    };
    app.context.ssh_registry.upsert_tunnel(tunnel.clone());
    SshService::tunnel_exited(&mut app.context, &tunnel.tunnel_id, &output(true, "", ""));
    let closed = app.ssh_registry().get_tunnel(&tunnel.tunnel_id).unwrap();
    assert_eq!(closed.status, SshTunnelStatus::Closed);
    assert_eq!(closed.pid, None);
    tunnel.status = SshTunnelStatus::Active;
    app.context.ssh_registry.upsert_tunnel(tunnel.clone());
    SshService::tunnel_poll_failed(&mut app.context, &tunnel.tunnel_id, "gone");
    let failed = app.ssh_registry().get_tunnel(&tunnel.tunnel_id).unwrap();
    assert_eq!(failed.status, SshTunnelStatus::Failed);
    assert!(failed.last_error.unwrap().ends_with("error=gone"));
}

#[test]
fn listing_that_was_written_reads_back() {
    let bytes = b"symlink\0l\0/tmp/l\0other\0p\0/tmp/p\0";
    let entries = parse_directory_entries(bytes).unwrap();
    assert_eq!(entries[0].entry_type, SshDirectoryEntryType::Symlink);
    assert_eq!(entries[1].entry_type, SshDirectoryEntryType::Other);
    assert!(parse_directory_entries(b"").unwrap().is_empty());
    assert!(parse_directory_entries(b"file\0a\0").is_err());
    assert!(parse_directory_entries(b"file\0\xff\0/tmp/a\0").is_err());
}

#[test]
fn shutdown_ends_everything() {
    let mut app = app();
    let connection = ready_connection(&mut app);
    let (id, _) = app.spawn_session(spawn_request("sh", "first"), &facts()).unwrap();
    LocalSessionService::spawn_finished(&mut app.context, &id, Ok(None)).unwrap();
    let ended = app.shutdown_ssh();
    assert_eq!(ended.len(), 1);
    assert_eq!(ended[0].connection_id, connection.connection_id);
    assert!(ended[0].force && ended[0].cleanup_mounts);
    assert_eq!(app.shutdown(), vec![id]);
}

#[test]
fn tunnels_are_asked_to_end_before_they_are_killed() {
    assert_eq!(stop_tunnel_child(true, Some(3)), TunnelStop::Kill);
    assert_eq!(stop_tunnel_child(false, None), TunnelStop::Kill);
    assert_eq!(
        stop_tunnel_child(false, Some(3)),
        TunnelStop::Terminate { pid: 3, wait_ms: 2000 }
    );
    assert_eq!(stop_waited(true), None);
    assert_eq!(stop_waited(false), Some(TunnelStop::Kill));
}

fn active_tunnel(connection: &SshConnectionSummary) -> SshTunnelSummary {
    SshTunnelSummary {
        tunnel_id: SshTunnelId::new(),
        title: None,
        description: None,
        connection_id: connection.connection_id.clone(),
        target_summary: connection.target_summary.clone(),
        kind: SshTunnelKind::LocalForward,
        status: SshTunnelStatus::Active,
        bind_host: "127.0.0.1".to_string(),
        local_port: 15432,
        remote_host: "127.0.0.1".to_string(),
        remote_port: 5432,
        started_at: Timestamp::now(),
        last_error: None,
        pid: Some(3),
    }
}

#[test]
fn disconnect_leaves_tunnels_open() {
    let mut app = app();
    let connection = ready_connection(&mut app);
    let tunnel = active_tunnel(&connection);
    app.context.ssh_registry.upsert_tunnel(tunnel.clone());
    let run = app
        .ssh_disconnect(SshDisconnectRequest {
            connection_id: connection.connection_id.clone(),
            force: true,
            cleanup_mounts: true,
            cleanup_tunnels: true,
        })
        .unwrap();
    match SshService::disconnect_next(&mut app.context, run) {
        DisconnectStep::Done(done) => assert_eq!(done.closed_tunnels, 0),
        _ => unreachable!(),
    }
    let left = app.ssh_registry().get_tunnel(&tunnel.tunnel_id).unwrap();
    assert_eq!(left.status, SshTunnelStatus::Active);
    assert!(!app.shutdown_ssh()[0].cleanup_tunnels);
}

fn still_mounted(connection: &SshConnectionSummary, local_path: &str) -> SshMountSummary {
    SshMountSummary {
        mount_id: SshMountId::new(),
        title: None,
        description: None,
        connection_id: connection.connection_id.clone(),
        target_summary: connection.target_summary.clone(),
        status: SshMountStatus::Mounted,
        backend: SshMountBackend::Sshfs,
        local_path: local_path.to_string(),
        remote_path: "/srv".to_string(),
        read_only: false,
        mounted_at: Timestamp::now(),
        last_error: None,
    }
}

#[test]
fn disconnect_leaves_other_mounts_alone() {
    let mut app = app();
    let connection = ready_connection(&mut app);
    let other = app.ssh_create_placeholder_connection(target("other.example.com"));
    let own = still_mounted(&connection, "/work/own");
    let foreign = still_mounted(&other, "/work/foreign");
    app.ssh_upsert_mount(own.clone());
    app.ssh_upsert_mount(foreign.clone());
    let run = app
        .ssh_disconnect(SshDisconnectRequest {
            connection_id: connection.connection_id.clone(),
            force: true,
            cleanup_mounts: true,
            cleanup_tunnels: false,
        })
        .unwrap();
    let run = match SshService::disconnect_next(&mut app.context, run) {
        DisconnectStep::Unmount { unmount, run } => {
            assert_eq!(unmount.mount_id, own.mount_id);
            run
        }
        _ => unreachable!(),
    };
    app.ssh_remove_mount(&own.mount_id);
    let run = SshService::disconnect_unmounted(&mut app.context, run, Ok(())).unwrap();
    match SshService::disconnect_next(&mut app.context, run) {
        DisconnectStep::Done(done) => assert_eq!(done.closed_mounts, 1),
        _ => unreachable!(),
    }
    let left = app.ssh_registry().get_mount(&foreign.mount_id).unwrap();
    assert_eq!(left.status, SshMountStatus::Mounted);
}

#[test]
fn started_tunnel_is_looked_at() {
    let mut app = app();
    let connection = ready_connection(&mut app);
    let tunnel = active_tunnel(&connection);
    assert_eq!(
        tunnel_start_seen(TUNNEL_START_CHECK_ATTEMPTS, &tunnel, Ok(None)),
        TunnelLook::Again { checks_left: 7, wait_ms: 50 }
    );
    assert_eq!(tunnel_start_seen(1, &tunnel, Ok(None)), TunnelLook::Running { wait_ms: 50 });
    assert_eq!(
        tunnel_start_seen(8, &tunnel, Ok(Some(output(true, "", "")))),
        TunnelLook::Running { wait_ms: 0 }
    );
    match tunnel_start_seen(8, &tunnel, Ok(Some(output(false, "", "no route")))) {
        TunnelLook::Ended(failure) => assert!(failure.message.contains("no route")),
        _ => unreachable!(),
    }
    let failure = Failure::new("failed to poll ssh tunnel process: gone".to_string());
    assert_eq!(
        tunnel_start_seen(8, &tunnel, Err(failure.clone())),
        TunnelLook::Ended(failure)
    );
}

#[test]
fn identifiers_are_new_ones() {
    let mut app = app();
    let made = app.ssh_create_placeholder_connection(target("example.com"));
    let (session, _) = app.spawn_session(spawn_request("sh", "shell"), &facts()).unwrap();
    for (prefix, id) in
        [("sshconn_", made.connection_id.as_str()), ("pty_", session.as_str())]
    {
        let digits = id.strip_prefix(prefix).unwrap();
        assert_eq!(digits.len(), 32);
        assert!(digits.chars().all(|c| c.is_ascii_hexdigit() && !c.is_ascii_uppercase()));
    }
}

#[test]
fn new_connection_is_described() {
    let mut app = app();
    let mut request = connect_request(None, Some("example.com"), None, "");
    request.description = Some("  ".to_string());
    match SshService::connect(&mut app.context, request, &host()).unwrap() {
        ConnectStep::Verify { run, .. } => assert_eq!(
            run.description.as_deref(),
            Some("SSH connection: alice@example.com:22")
        ),
        _ => unreachable!(),
    }
    for description in [None, Some(" x ".to_string())] {
        let mut request = connect_request(None, Some("example.com"), None, "");
        request.description = description.clone();
        match app.ssh_connect(request, &host()).unwrap() {
            ConnectStep::Verify { run, .. } => {
                assert_eq!(run.description, description);
                let made = SshService::new_connection(
                    &run,
                    true,
                    SshConnectionId::of("any"),
                    Timestamp::now(),
                );
                assert_eq!(made.description, description);
            }
            _ => unreachable!(),
        }
    }
}

fn remote_request(connection: &SshConnectionSummary, cwd: Option<&str>) -> SshSessionSpawnRequest {
    SshSessionSpawnRequest {
        connection_id: connection.connection_id.clone(),
        command: None,
        args: Vec::new(),
        cwd: cwd.map(|s| s.to_string()),
        env: None,
        shell: None,
        interactive: true,
        login: false,
        title: None,
        description: Some(" as given ".to_string()),
    }
}

#[test]
fn descriptions_stay_as_given_in_direct_requests() {
    let mut app = app();
    app.context.ssh_config.allowed_mount_roots = vec!["/work".to_string()];
    let connection = ready_connection(&mut app);
    let described = |app: &AppState, id: &SessionId| app.registry().get(id).unwrap().description;

    let (id, _) = app.spawn_session(spawn_request("sh", " as given "), &facts()).unwrap();
    assert_eq!(described(&app, &id), " as given ");
    let (id, _) = app.spawn_session(spawn_request("sh", ""), &facts()).unwrap();
    assert_eq!(described(&app, &id), "");
    let (id, _) = LocalSessionService::spawn_session(
        &mut app.context,
        spawn_request("sh", " tidied "),
        &facts(),
    )
    .unwrap();
    assert_eq!(described(&app, &id), "tidied");
    let (id, _) =
        LocalSessionService::spawn_session(&mut app.context, spawn_request("sh", " "), &facts())
            .unwrap();
    assert_eq!(described(&app, &id), "PTY session: sh");

    let (id, _) = app.ssh_session_spawn(remote_request(&connection, None), &host()).unwrap();
    assert_eq!(described(&app, &id), " as given ");
    let (id, _) =
        SshService::session_spawn(&mut app.context, remote_request(&connection, None), &host())
            .unwrap();
    assert_eq!(described(&app, &id), "as given");

    let mut request = mount_request(connection.connection_id.clone(), "/srv", "/work/mnt");
    request.description = Some(" as given ".to_string());
    let ready = match app.ssh_mount(request, &host()).unwrap() {
        MountStep::Directory(ready) => ready,
        _ => unreachable!(),
    };
    let run = SshService::mount_start(&mut app.context, ready, false, &host()).unwrap();
    assert_eq!(run.request.mount.description.as_deref(), Some(" as given "));
    let request = mount_request(connection.connection_id, "/srv", "/work/mnt");
    let ready = match SshService::mount(&app.context, request, &host()).unwrap() {
        MountStep::Directory(ready) => ready,
        _ => unreachable!(),
    };
    let mount = SshService::new_mount(&ready, SshMountId::of("any"), Timestamp::now());
    assert_eq!(mount.description.as_deref(), Some("SSH mount: /srv -> /work/mnt"));
    assert_eq!(mount.mount_id.as_str(), "any");
}

#[test]
fn refusals_are_worded_by_who_is_asked() {
    let mut app = app();
    let connection = ready_connection(&mut app);
    let direct =
        app.ssh_session_spawn(remote_request(&connection, Some("src")), &host()).unwrap_err();
    assert_eq!(
        direct.message,
        "remote cwd must be an absolute path or home-relative path: cwd=Some(\"src\")"
    );
    let service =
        SshService::session_spawn(&mut app.context, remote_request(&connection, Some("src")), &host())
            .unwrap_err();
    assert_eq!(
        service.message,
        "remote cwd must be an absolute path, ~, or ~/...: cwd=Some(\"src\")"
    );

    let waiting = app.ssh_create_placeholder_connection(target("example.org")).connection_id;
    let direct = app.ssh_read_file(&host(), &waiting, "/x", 1).unwrap_err();
    assert_eq!(
        direct.message,
        format!(
            "failed to read remote file: connection_id={} status=Connecting path=Some(\"/x\")",
            waiting.as_str()
        )
    );
    let service = SshService::read_file(&app.context, &host(), &waiting, "/x", 1).unwrap_err();
    assert_eq!(
        service.message,
        format!(
            "ssh connection is not ready for failed to read remote file: connection_id={} status=Connecting",
            waiting.as_str()
        )
    );

    let id = connection.connection_id;
    let lost = || Err(Failure::new("lost".to_string()));
    let run = app.ssh_mkdir(&host(), &id, "/d", true).unwrap();
    assert_eq!(run.outcome(lost()).unwrap_err().message, "lost");
    let run = SshService::mkdir(&app.context, &host(), &id, "/d", true).unwrap();
    assert_eq!(
        run.outcome(lost()).unwrap_err().message,
        format!(
            "failed to create remote directory: connection_id={} status=Ready path=Some(\"/d\"): lost",
            id.as_str()
        )
    );
}

#[test]
fn only_the_connection_concerned_is_used() {
    let mut app = app();
    let used = app.ssh_create_placeholder_connection(target("example.com"));
    let idle = app.ssh_create_placeholder_connection(target("example.org"));
    app.context.ssh_registry.upsert_tunnel(active_tunnel(&used));
    app.ssh_upsert_mount(mounted_at(used.connection_id.clone(), "/work/mnt"));
    app.ssh_track_session(&used.connection_id, SessionId::new()).unwrap();
    assert!(app.ssh_get_connection(&used.connection_id).unwrap().last_used_at.is_some());
    assert_eq!(app.ssh_get_connection(&idle.connection_id).unwrap().last_used_at, None);
}
