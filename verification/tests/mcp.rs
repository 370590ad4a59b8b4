use pty_mcp::app::state::AppState;
use pty_mcp::app::types::{
    SshDirectoryEntry, SshDirectoryEntryType, SshListDirectoryResult, SshUnmountResult,
};
use pty_mcp::buffer::view::{BufferReadRequest, BufferView};
use pty_mcp::config::{Config, HostFiles};
use pty_mcp::error::Failure;
use pty_mcp::json::JsonValue;
use pty_mcp::mcp::resources::{
    list_resource_templates, list_resources, read_resource, ssh_mount_setup_guide, MountGuide,
    ResourceBody, ResourceError,
};
use pty_mcp::mcp::service::server_instructions;
use pty_mcp::mcp::tools::{
    capture_initial_output, enrich_sessions_with_ssh_context, output_snapshot_from_page,
    pty_read, read_response_from_page, tool_failure_body, CaptureProgress, InitialOutput,
    PtyKillRequest, PtyReadRequest, PtySpawnRequest, PtyWaitResponse, PtyWriteRequest,
    SshConnectRequest, SshDirectoryEntryTypeView, SshDisconnectRequest, SshExecRequest,
    SshListDirResponse, SshMountRequest, SshReadFileRequest, SshSessionSpawnRequest,
    SshUnmountRequest, SshUnmountResponse, WriteMode,
};
use pty_mcp::session::model::{
    ExitInfo, ReadView, SessionId, SessionStatus, SessionSummary, SessionTransport, SignalKind,
};
use pty_mcp::session::registry::SessionWaitResult;
use pty_mcp::ssh::capability_probe::{ProbeOutputs, VersionOutput};
use pty_mcp::ssh::model::{
    SshAuthKind, SshConnectionId, SshMountBackend, SshMountId, SshMountStatus, SshMountSummary,
    SshTarget,
};
use pty_mcp::timestamp::Timestamp;

fn app(mounts: bool) -> AppState {
    let mut files = vec!["/usr/bin/ssh".to_string()];
    if mounts {
        files.push("/usr/bin/sshfs".to_string());
        files.push("/usr/bin/umount".to_string());
    }
    let host = HostFiles {
        platform: "linux".to_string(),
        files,
        path_dirs: Some(vec!["/usr/bin".to_string()]),
    };
    let version = || {
        vec![VersionOutput { success: true, stdout: b"1.0".to_vec(), stderr: Vec::new() }]
    };
    let seen = ProbeOutputs {
        ssh: version(),
        sshfs: version(),
        unmount: version(),
        diskutil: Vec::new(),
        provider_installed: false,
    };
    AppState::new(Config::default_for(&host, "/work"), &host, &seen, "/work")
}

fn session(app: &mut AppState) -> SessionId {
    let session = SessionSummary::placeholder("test".to_string(), "sh".to_string());
    let id = app.context.registry.create_starting(session).unwrap();
    app.context.registry.attach_runtime(&id, None).unwrap();
    id
}

fn connection(app: &mut AppState) -> SshConnectionId {
    app.ssh_create_placeholder_connection(SshTarget {
        host_alias: None,
        host: "example.com".to_string(),
        user: None,
        port: None,
    })
    .connection_id
}

#[test]
fn every_listed_resource_can_be_read() {
    let mut app = app(true);
    let id = session(&mut app);
    let over = connection(&mut app);
    app.context
        .ssh_registry
        .create_placeholder_mount(&over, "/srv".to_string(), "/work/mnt".to_string())
        .unwrap();
    let list = list_resources(&app.context);
    assert_eq!(list.len(), 10);
    assert_eq!(list[0].uri, "pty://sessions");
    assert_eq!(list[3].uri, "ssh://docs/mount-setup/linux");
    assert_eq!(list[3].mime_type, "text/markdown");
    assert_eq!(list[5].uri, format!("pty://sessions/{}", id.as_str()));
    assert_eq!(list[6].title, format!("Session {} Buffer", id.as_str()));
    for entry in &list {
        assert!(read_resource(&app.context, &entry.uri).is_ok());
        assert_eq!(list.iter().filter(|other| other.uri == entry.uri).count(), 1);
    }
}

#[test]
fn mounts_are_hidden_where_unavailable() {
    let app = app(false);
    let list = list_resources(&app.context);
    assert_eq!(list.len(), 4);
    assert!(!list.iter().any(|e| e.uri == "ssh://mounts"));
    assert_eq!(list_resource_templates(&app.context).len(), 5);
    assert_eq!(read_resource(&app.context, "ssh://mounts"), Err(ResourceError::NotFound));
    assert_eq!(read_resource(&app.context, "ssh://mounts/x"), Err(ResourceError::NotFound));
    assert!(!server_instructions(false).contains("ssh://mounts"));
    assert!(server_instructions(true).contains("ssh_mount, ssh_unmount"));
}

#[test]
fn templates_name_their_parameters() {
    let app = app(true);
    let templates = list_resource_templates(&app.context);
    assert_eq!(templates.len(), 6);
    assert_eq!(templates[5].uri, "ssh://mounts/{id}");
}

#[test]
fn session_resources_show_output() {
    let mut app = app(true);
    let id = session(&mut app);
    let mut text = String::new();
    for n in 0..150 {
        text.push_str(&format!("line {n}\n"));
    }
    app.context.registry.append_output(&id, text.as_bytes()).unwrap();
    let uri = format!("pty://sessions/{}", id.as_str());
    match read_resource(&app.context, &uri).unwrap() {
        ResourceBody::Session(s) => assert_eq!(s.buffer_stats.line_count, 150),
        _ => unreachable!(),
    }
    match read_resource(&app.context, &format!("{uri}/buffer")).unwrap() {
        ResourceBody::Buffer { page, .. } => assert_eq!(page.returned, 150),
        _ => unreachable!(),
    }
    match read_resource(&app.context, &format!("{uri}/tail")).unwrap() {
        ResourceBody::Tail { page, status, .. } => {
            assert_eq!(status, SessionStatus::Running);
            assert_eq!(page.returned, 100);
            assert_eq!(page.lines[0].text, "line 50");
        }
        _ => unreachable!(),
    }
    assert_eq!(
        read_resource(&app.context, &format!("{uri}/other")),
        Err(ResourceError::NotFound)
    );
}

#[test]
fn unknown_resources_are_not_found() {
    let app = app(true);
    for uri in [
        "pty://sessions/",
        "pty://sessions/none",
        "ssh://connections/",
        "ssh://connections/a/b",
        "ssh://connections/ ",
        "ssh://docs/mount-setup/",
        "ssh://docs/mount-setup/a/b",
        "other://",
    ] {
        assert_eq!(read_resource(&app.context, uri), Err(ResourceError::NotFound));
    }
}

#[test]
fn guides_are_chosen_by_platform() {
    assert_eq!(ssh_mount_setup_guide("macos"), MountGuide::Macos);
    assert_eq!(ssh_mount_setup_guide("darwin"), MountGuide::Macos);
    assert_eq!(ssh_mount_setup_guide("linux"), MountGuide::Linux);
    assert_eq!(ssh_mount_setup_guide("plan9"), MountGuide::Generic);
    let app = app(true);
    assert_eq!(
        read_resource(&app.context, "ssh://docs/mount-setup"),
        Ok(ResourceBody::Guide(MountGuide::Overview))
    );
}

fn spawn(wait: Option<u64>, limit: Option<usize>, view: Option<ReadView>) -> PtySpawnRequest {
    PtySpawnRequest {
        command: "sh".to_string(),
        args: Vec::new(),
        cwd: None,
        env: None,
        title: None,
        description: "d".to_string(),
        wait_for_output_ms: wait,
        output_limit: limit,
        output_view: view,
    }
}

#[test]
fn first_output_is_captured_where_asked_for() {
    assert_eq!(spawn(None, None, None).initial_output(200), None);
    let some = spawn(None, Some(0), None).initial_output(200).unwrap();
    assert_eq!((some.wait_ms, some.limit, some.view), (0, 1, BufferView::Plain));
    let other = spawn(Some(50), None, Some(ReadView::Raw)).initial_output(200).unwrap();
    assert_eq!((other.wait_ms, other.limit, other.view), (50, 200, BufferView::Raw));
    assert_eq!(spawn(None, None, None).into_app().description.as_deref(), Some("d"));

    let mut app = app(true);
    let id = session(&mut app);
    let want = InitialOutput { wait_ms: 50, limit: 5, view: BufferView::Plain };
    assert_eq!(
        capture_initial_output(&app.context, &id, want, 49),
        Ok(CaptureProgress::Sleep { ms: 10 })
    );
    assert_eq!(
        capture_initial_output(&app.context, &id, want, 50),
        Ok(CaptureProgress::Done(None))
    );
    app.context.registry.append_output(&id, b"$ ").unwrap();
    match capture_initial_output(&app.context, &id, want, 60) {
        Ok(CaptureProgress::Done(Some(shown))) => assert_eq!(shown.lines[0].text, "$ "),
        _ => unreachable!(),
    }
    assert!(capture_initial_output(&app.context, &SessionId::of("none"), want, 0).is_err());
}

#[test]
fn pages_become_answers() {
    let mut app = app(true);
    let id = session(&mut app);
    app.context.registry.append_output(&id, b"a\nb\nc").unwrap();
    let page = || app.read_session(&id, &BufferReadRequest::new(2)).unwrap();
    let answer = read_response_from_page(id.clone(), SessionStatus::Running, page());
    assert_eq!(answer.lines, "a\nb");
    assert!(answer.has_more);
    assert_eq!(answer.total_lines, 3);
    let read = pty_read(
        &app.context,
        PtyReadRequest {
            session_id: id.clone(),
            offset: Some(1),
            limit: Some(0),
            pattern: None,
            ignore_case: None,
            view: None,
        },
    )
    .unwrap();
    assert_eq!(read.lines, "b");
    assert_eq!(read.status, SessionStatus::Running);
    let snapshot = output_snapshot_from_page(page());
    assert_eq!(snapshot.lines[1].line_number, 2);
    assert_eq!(snapshot.lines[1].text, "b");
}

#[test]
fn requests_have_defaults() {
    let id = SessionId::of("s");
    let read = PtyReadRequest {
        session_id: id.clone(),
        offset: None,
        limit: None,
        pattern: None,
        ignore_case: None,
        view: None,
    };
    let page = read.page_request(200);
    assert_eq!((page.offset, page.limit, page.ignore_case), (0, 200, false));
    assert_eq!(page.view, BufferView::Plain);
    let write =
        |mode| PtyWriteRequest { session_id: SessionId::of("s"), data: "x".to_string(), mode };
    assert!(!write(None).is_escaped());
    assert!(!write(Some(WriteMode::Plain)).is_escaped());
    assert!(write(Some(WriteMode::Escaped)).is_escaped());
    let kill = PtyKillRequest { session_id: id, signal: None, cleanup: None };
    assert_eq!(kill.signal_or_default(), SignalKind::Sigterm);
    assert!(!kill.cleans_up());
    let connect = |auth_kind| SshConnectRequest {
        host_alias: None,
        host: Some("h".to_string()),
        port: None,
        user: None,
        identity_path: None,
        auth_kind,
        title: None,
        description: "d".to_string(),
        verify_host_key: None,
    };
    assert!(connect(Some(SshAuthKind::SshAgent)).into_app().unwrap().verify_host_key);
    assert_eq!(
        connect(None).into_app().unwrap_err().message,
        "ssh_connect requires explicit auth_kind"
    );
    let file = SshReadFileRequest {
        connection_id: SshConnectionId::of("c"),
        path: "/x".to_string(),
        max_bytes: None,
    };
    assert_eq!(file.byte_limit(), 128 * 1024);
    let spawned = SshSessionSpawnRequest {
        connection_id: SshConnectionId::of("c"),
        command: None,
        args: Vec::new(),
        cwd: None,
        env: None,
        shell: None,
        interactive: None,
        login: None,
        title: None,
        description: "d".to_string(),
    }
    .into_app();
    assert!(spawned.interactive && !spawned.login);
    let exec = SshExecRequest {
        connection_id: SshConnectionId::of("c"),
        script: "true".to_string(),
        cwd: None,
        env: None,
        shell: None,
        login: Some(true),
        title: None,
        description: "d".to_string(),
    }
    .into_app();
    assert!(exec.login);
    let mount = SshMountRequest {
        connection_id: SshConnectionId::of("c"),
        remote_path: "/r".to_string(),
        local_path: "/l".to_string(),
        read_only: None,
        backend: None,
        create_local_path: None,
        title: None,
        description: "d".to_string(),
    }
    .into_app();
    assert!(!mount.read_only && mount.create_local_path);
    let unmount = SshUnmountRequest {
        mount_id: SshMountId::of("m"),
        force: None,
        cleanup_local_path: Some(true),
    }
    .into_app();
    assert!(!unmount.force && unmount.cleanup_local_path);
    let end = SshDisconnectRequest {
        connection_id: SshConnectionId::of("c"),
        force: Some(true),
        cleanup_mounts: None,
    }
    .into_app();
    assert!(end.force && !end.cleanup_mounts && !end.cleanup_tunnels);
}

#[test]
fn linked_sessions_are_enriched() {
    let mut app = app(true);
    let id = session(&mut app);
    let plain = enrich_sessions_with_ssh_context(&app.context);
    assert_eq!(plain[0].transport, SessionTransport::Local);
    let over = connection(&mut app);
    app.ssh_track_session(&over, id).unwrap();
    let enriched = enrich_sessions_with_ssh_context(&app.context);
    assert_eq!(enriched[0].transport, SessionTransport::Ssh);
    assert_eq!(enriched[0].connection_id, Some(over));
    assert_eq!(enriched[0].target_summary.as_deref(), Some("example.com"));
    assert_eq!(enriched[0].remote_command.as_deref(), Some("remote-session"));
}

#[test]
fn results_become_answers() {
    let waited = PtyWaitResponse::from_result(SessionWaitResult {
        completed: true,
        status: SessionStatus::Exited,
        exit_info: Some(ExitInfo {
            exit_code: Some(2),
            exit_signal: Some("TERM".to_string()),
            finished_at: None,
        }),
        last_output_preview: None,
    });
    assert_eq!(waited.exit_code, Some(2));
    assert_eq!(waited.exit_signal.as_deref(), Some("TERM"));
    let listed = SshListDirResponse::from_result(SshListDirectoryResult {
        connection_id: SshConnectionId::of("c"),
        path: "/d".to_string(),
        entries: vec![SshDirectoryEntry {
            name: "l".to_string(),
            path: "/d/l".to_string(),
            entry_type: SshDirectoryEntryType::Symlink,
        }],
    });
    assert_eq!(listed.entries[0].entry_type, SshDirectoryEntryTypeView::Symlink);
    let gone = SshUnmountResponse::from_result(SshUnmountResult {
        mount: SshMountSummary {
            mount_id: SshMountId::of("m"),
            title: None,
            description: None,
            connection_id: SshConnectionId::of("c"),
            target_summary: "example.com".to_string(),
            status: SshMountStatus::Unmounted,
            backend: SshMountBackend::Sshfs,
            local_path: "/l".to_string(),
            remote_path: "/r".to_string(),
            read_only: false,
            mounted_at: Timestamp::now(),
            last_error: None,
        },
        previous_status: SshMountStatus::Mounted,
        cleanup_local_path: true,
    });
    assert_eq!(gone.previous_status, SshMountStatus::Mounted);
    assert_eq!(gone.current_status, SshMountStatus::Unmounted);
}

#[test]
fn failed_tool_answers_with_its_message() {
    let body = tool_failure_body(&Failure::new("no such session".to_string()));
    assert_eq!(
        body,
        vec![("message".to_string(), JsonValue::Text("no such session".to_string()))]
    );
}
