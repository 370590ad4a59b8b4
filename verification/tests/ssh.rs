use pty_mcp::config::{Config, HostFiles, Program};
use pty_mcp::ordered::OrderedMap;
use pty_mcp::session::model::SessionId;
use pty_mcp::ssh::capability_probe::{
    extract_provider_version, first_non_empty_line, parse_version, version_args, ProbeOutputs,
    SshCapabilityProbe, VersionOutput,
};
use pty_mcp::ssh::guard::{
    contains_ci, validate_identity_path, SshConnectValidationInput, SshGuard,
    SshMountValidationInput, SshTunnelValidationInput,
};
use pty_mcp::ssh::model::{
    SshAuthKind, SshConnectionId, SshConnectionStatus, SshMountBackend, SshMountId, SshMountStatus,
    SshTarget,
};
use pty_mcp::ssh::policy::{host_matches, normalize_value, FileKind, SshPolicy};
use pty_mcp::ssh::registry::SshRegistry;
use pty_mcp::ssh::remote_path::{SshRemotePath, SshRemotePathKind};
use pty_mcp::ssh::runtime::{
    build_remote_command, build_remote_exec_command, capability_unavailable, combined_output,
    count_captured, debug_code, destination, ensure_binary, is_valid_env_key, stderr_preview,
    timeout_error, CommandOutput, SshConnectVerificationRequest, SshExecPlanRequest, SshRuntime,
};
use pty_mcp::ssh::shell::shell_escape;

fn host() -> HostFiles {
    HostFiles {
        platform: "linux".to_string(),
        files: vec!["/usr/bin/ssh".to_string()],
        path_dirs: Some(vec!["/usr/bin".to_string()]),
    }
}

fn config() -> Config {
    Config::default_for(&host(), "/work")
}

fn target() -> SshTarget {
    SshTarget {
        host_alias: None,
        host: "example.com".to_string(),
        user: Some("alice".to_string()),
        port: Some(2222),
    }
}

#[test]
fn parses_supported_remote_path_forms() {
    assert_eq!(
        SshRemotePath::parse("/srv/app", "field").unwrap().kind(),
        SshRemotePathKind::Absolute("/srv/app")
    );
    assert_eq!(SshRemotePath::parse("~", "field").unwrap().kind(), SshRemotePathKind::Home);
    assert_eq!(
        SshRemotePath::parse("~/repo", "field").unwrap().kind(),
        SshRemotePathKind::HomeRelative("repo")
    );
    assert_eq!(
        SshRemotePath::parse("~/", "field").unwrap().kind(),
        SshRemotePathKind::HomeRelative("")
    );
}

#[test]
fn rejects_unsupported_remote_path_forms() {
    let relative = SshRemotePath::parse("repo", "field").expect_err("relative path");
    assert!(relative.message.contains("absolute path, ~, or ~/..."));

    let dot_relative = SshRemotePath::parse("./repo", "field").expect_err("dot-relative");
    assert!(dot_relative.message.contains("absolute path, ~, or ~/..."));

    let user_relative = SshRemotePath::parse("~alice/repo", "field").expect_err("user-relative");
    assert!(user_relative.message.contains("only supports ~ or ~/..."));

    let empty = SshRemotePath::parse(" ", "field").expect_err("empty path");
    assert!(empty.message.contains("cannot be empty"));
}

#[test]
fn renders_home_relative_paths_for_remote_shells() {
    assert_eq!(
        SshRemotePath::parse("~", "field").unwrap().render_for_shell(),
        "\"${HOME:-~}\""
    );
    assert_eq!(
        SshRemotePath::parse("~/repo dir", "field").unwrap().render_for_shell(),
        "\"${HOME:-~}\"/'repo dir'"
    );
}

#[test]
fn resolves_home_relative_paths_against_remote_home() {
    assert_eq!(
        SshRemotePath::parse("~/", "field").unwrap().resolve_with_home("/home/alice"),
        "/home/alice"
    );
    assert_eq!(
        SshRemotePath::parse("~/repo", "field").unwrap().resolve_with_home("/home/alice"),
        "/home/alice/repo"
    );
    assert_eq!(
        SshRemotePath::parse("~/repo", "field").unwrap().resolve_with_home("/"),
        "/repo"
    );
}

#[test]
fn quoted_text_is_one_word() {
    assert_eq!(shell_escape("plain"), "'plain'");
    assert_eq!(shell_escape(""), "''");
    assert_eq!(shell_escape("it's"), "'it'\"'\"'s'");
}

#[test]
fn targets_are_summed_up() {
    assert_eq!(target().summary(), "alice@example.com:2222");
    assert_eq!(destination(&target()), "alice@example.com");
    let alias = SshTarget {
        host_alias: Some("devbox".to_string()),
        host: "devbox".to_string(),
        user: None,
        port: None,
    };
    assert_eq!(destination(&alias), "devbox");
    assert!(alias.same_as(&alias.clone()));
    assert!(!alias.same_as(&target()));
}

#[test]
fn identifiers_are_prefixed_and_differ() {
    let a = SshConnectionId::new();
    let b = SshConnectionId::new();
    assert!(a.as_str().starts_with("sshconn_"));
    assert_eq!(a.as_str().len(), "sshconn_".len() + 32);
    assert_ne!(a, b);
    assert!(SshMountId::new().as_str().starts_with("sshmnt_"));
    assert!(SshConnectionId::parse("  ").is_err());
    assert_eq!(SshConnectionId::parse("x").unwrap().as_str(), "x");
    assert_eq!(SshConnectionId::from("y".to_string()).as_str(), "y");
}

#[test]
fn hosts_match_patterns() {
    assert!(host_matches("example.com", "example.com"));
    assert!(!host_matches("example.com", "other.com"));
    assert!(host_matches("*.example.com", "db.example.com"));
    assert!(!host_matches("*.example.com", "example.org"));
    assert_eq!(normalize_value(" A "), Some("a".to_string()));
    assert_eq!(normalize_value("  "), None);
}

#[test]
fn denied_hosts_and_ports_are_refused() {
    let mut config = config();
    config.ssh.denied_hosts = vec!["bad.example.com".to_string()];
    config.ssh.allowed_users = vec!["alice".to_string()];
    config.ssh.port_min = 1000;
    config.ssh.port_max = 3000;
    let policy = SshPolicy::from_config(&config, "/work");
    assert!(policy.validate_target("example.com", Some("alice"), Some(2222)).is_ok());
    assert!(policy.validate_target("bad.example.com", Some("alice"), Some(2222)).is_err());
    assert!(policy.validate_target("BAD.example.com", Some("alice"), Some(2222)).is_err());
    assert!(policy.validate_target("example.com", Some("bob"), Some(2222)).is_err());
    assert!(policy.validate_target("example.com", Some("alice"), Some(22)).is_err());
    assert!(policy.validate_target("", Some("alice"), Some(2222)).is_err());
}

#[test]
fn authentication_needs_what_it_names() {
    let policy = SshPolicy::from_config(&config(), "/work");
    let file = FileKind::File;
    assert!(policy.validate_auth(SshAuthKind::SshAgent, None, None, file).is_ok());
    assert!(policy.validate_auth(SshAuthKind::ConfigAlias, None, None, file).is_err());
    assert!(policy.validate_auth(SshAuthKind::ConfigAlias, Some("devbox"), None, file).is_ok());
    assert!(policy.validate_auth(SshAuthKind::IdentityFile, None, None, file).is_err());
    let key = Some("/home/alice/.ssh/id");
    assert!(policy.validate_auth(SshAuthKind::IdentityFile, None, key, file).is_ok());
    assert!(policy
        .validate_auth(SshAuthKind::IdentityFile, None, key, FileKind::Missing)
        .is_err());
    assert_eq!(validate_identity_path(SshAuthKind::SshAgent, key).unwrap(), None);
    assert!(validate_identity_path(SshAuthKind::IdentityFile, None).is_err());
}

#[test]
fn mounts_stay_below_allowed_roots() {
    let mut config = config();
    config.ssh.allowed_mount_roots = vec!["/work/mnt".to_string()];
    let guard = SshGuard::new(SshPolicy::from_config(&config, "/work"));
    let ask = |local_path| {
        guard.validate_mount_request(
            &config.ssh,
            SshMountValidationInput { local_path, remote_path: " /srv " },
        )
    };
    let mount = ask("/work/mnt/a").unwrap();
    assert_eq!(mount.remote_path, "/srv");
    assert!(!mount.is_managed_path);
    assert!(ask("/work/mnt/../b").is_err());
    assert!(ask("/etc").is_err());
}

#[test]
fn tunnels_need_ports_and_loopback() {
    let guard = SshGuard::new(SshPolicy::from_config(&config(), "/work"));
    let input = |bind_host, remote_port| SshTunnelValidationInput {
        bind_host,
        local_port: 0,
        remote_host: "db",
        remote_port,
    };
    let config = config();
    let tunnel = guard.validate_tunnel_request(&config.ssh, input(" localhost ", 5432)).unwrap();
    assert_eq!(tunnel.bind_host, "localhost");
    assert!(guard.validate_tunnel_request(&config.ssh, input("0.0.0.0", 5432)).is_err());
    assert!(guard.validate_tunnel_request(&config.ssh, input("127.0.0.1", 0)).is_err());
}

#[test]
fn connect_requests_are_checked() {
    let mut config = config();
    config.ssh.allowed_auth_kinds = vec!["ssh_agent".to_string()];
    let guard = SshGuard::new(SshPolicy::from_config(&config, "/work"));
    let target = target();
    let ask = |auth_kind| {
        guard.validate_connect_request(
            &config.ssh,
            SshConnectValidationInput { target: &target, auth_kind, identity_path: None },
        )
    };
    assert_eq!(ask(SshAuthKind::SshAgent).unwrap().auth_kind, SshAuthKind::SshAgent);
    assert!(ask(SshAuthKind::IdentityFile).is_err());
    assert!(contains_ci(&vec!["Ab".to_string()], "aB"));
    assert!(!contains_ci(&vec!["Ab".to_string()], "b"));
}

#[test]
fn versions_are_read() {
    let out = |stdout: &str, stderr: &str| VersionOutput {
        success: true,
        stdout: stdout.as_bytes().to_vec(),
        stderr: stderr.as_bytes().to_vec(),
    };
    assert_eq!(parse_version(&out("\n  v1 \nv2", "")), Some("v1".to_string()));
    assert_eq!(parse_version(&out(" ", "OpenSSH_9")), Some("OpenSSH_9".to_string()));
    assert_eq!(parse_version(&out("", "")), None);
    assert_eq!(first_non_empty_line(b"\xff x"), Some("\u{fffd} x".to_string()));
    assert_eq!(version_args(Program::Ssh), ["-V"]);
    assert!(extract_provider_version("no such thing", "FUSE library version").is_none());
}

#[test]
fn probe_reports_what_is_there() {
    let seen = ProbeOutputs {
        ssh: vec![VersionOutput {
            success: true,
            stdout: Vec::new(),
            stderr: b"OpenSSH_9.6\n".to_vec(),
        }],
        sshfs: Vec::new(),
        unmount: Vec::new(),
        diskutil: Vec::new(),
        provider_installed: false,
    };
    let view = SshCapabilityProbe::new().probe(&config().ssh, &host(), &seen);
    assert_eq!(view.platform, "linux");
    assert!(view.ssh.available);
    assert_eq!(view.ssh.path.as_deref(), Some("/usr/bin/ssh"));
    assert_eq!(view.ssh.version.as_deref(), Some("OpenSSH_9.6"));
    assert!(!view.sshfs.available);
    assert!(view.macfuse.is_none());
}

#[test]
fn registry_counts_sessions_and_mounts() {
    let mut registry = SshRegistry::new();
    let connection = registry.create_placeholder_connection(target());
    let id = connection.connection_id.clone();
    assert_eq!(connection.status, SshConnectionStatus::Connecting);
    let session = SessionId::new();
    assert!(registry.link_session(&id, &session));
    assert!(!registry.link_session(&id, &session));
    let mount = registry
        .create_placeholder_mount(
            &id,
            "/srv".to_string(),
            "/work/mnt".to_string(),
        )
        .unwrap();
    assert_eq!(mount.status, SshMountStatus::Mounting);
    assert_eq!(mount.backend, SshMountBackend::Sshfs);
    let counts = registry.active_resource_counts(&id).unwrap();
    assert_eq!((counts.active_session_count, counts.active_mount_count), (1, 1));
    assert!(registry.has_active_resources(&id));
    let refused = registry.ensure_disconnect_allowed(&id).unwrap_err();
    assert!(refused.message.contains("active_session_count=1"));
    assert_eq!(registry.unlink_session(&session), Some(id.clone()));
    assert!(registry.list_sessions_for_connection(&id).is_empty());
    let refused = registry.ensure_disconnect_allowed(&id).unwrap_err();
    assert!(refused.message.contains("active_mount_count=1"));
    assert_eq!(registry.remove_mounts_for_connection(&id), 1);
    assert!(registry.ensure_disconnect_allowed(&id).is_ok());
    assert_eq!(
        registry.mark_connection_status(&id, SshConnectionStatus::Ready).unwrap().status,
        SshConnectionStatus::Ready
    );
}

#[test]
fn removed_connection_leaves_nothing() {
    let mut registry = SshRegistry::new();
    let a = registry.create_placeholder_connection(target()).connection_id;
    let b = registry.create_placeholder_connection(target()).connection_id;
    let (x, y) = (SessionId::new(), SessionId::new());
    registry.link_session(&a, &x);
    registry.link_session(&b, &y);
    assert!(registry.remove_connection(&a).is_some());
    assert!(registry.remove_connection(&a).is_none());
    assert!(registry.list_sessions_for_connection(&a).is_empty());
    assert_eq!(registry.list_sessions_for_connection(&b), vec![y]);
    assert!(registry.get_connection(&a).is_none());
}

#[test]
fn session_runs_over_one_connection() {
    let mut registry = SshRegistry::new();
    let a = registry.create_placeholder_connection(target()).connection_id;
    let b = registry.create_placeholder_connection(target()).connection_id;
    let session = SessionId::new();
    registry.track_session(&a, session.clone()).unwrap();
    registry.track_session(&b, session.clone()).unwrap();
    assert!(!registry.has_active_sessions(&a));
    assert_eq!(registry.connection_of_session(&session).unwrap().connection_id, b);
    registry.untrack_session(&b, &session).unwrap();
    assert!(registry.connection_of_session(&session).is_none());
}

fn output(success: bool, stdout: &str, stderr: &str) -> CommandOutput {
    CommandOutput {
        success,
        exit_code: Some(1),
        signal: None,
        stdout: stdout.as_bytes().to_vec(),
        stderr: stderr.as_bytes().to_vec(),
    }
}

#[test]
fn command_reports_are_short() {
    assert_eq!(debug_code(Some(-1)), "Some(-1)");
    assert_eq!(debug_code(None), "None");
    assert_eq!(stderr_preview(" a "), "a");
    assert!(combined_output(&output(false, "out", "err")).contains("err"));
    assert!(timeout_error("timed out", &output(false, "", "slow")).message.contains("slow"));
    assert_eq!(
        capability_unavailable("sshfs").message,
        "required ssh capability is unavailable: sshfs"
    );
    assert_eq!(ensure_binary("ssh", &Some("/x".to_string()), true).unwrap(), "/x");
    assert!(ensure_binary("ssh", &Some("/x".to_string()), false).is_err());
    assert!(ensure_binary("ssh", &None, true).is_err());
    assert_eq!(count_captured(3, 4, 10, "stdout").unwrap(), 7);
    assert!(count_captured(3, 8, 10, "stdout").is_err());
}

#[test]
fn environment_keys_are_identifiers() {
    assert!(is_valid_env_key("FOO_1"));
    assert!(is_valid_env_key("_x"));
    assert!(!is_valid_env_key("1A"));
    assert!(!is_valid_env_key("A-B"));
    assert!(!is_valid_env_key(""));
}

#[test]
fn verification_runs_in_batch_mode() {
    let request = SshConnectVerificationRequest {
        ssh_bin_path: Some("/usr/bin/ssh".to_string()),
        target: target(),
        auth_kind: SshAuthKind::SshAgent,
        identity_path: None,
        verify_host_key: true,
        connect_timeout_secs: None,
    };
    let plan = SshRuntime.verify_plan(&request, true).unwrap();
    assert_eq!(plan.program, "/usr/bin/ssh");
    assert_eq!(
        plan.args,
        [
            "-T",
            "-o",
            "BatchMode=yes",
            "-o",
            "NumberOfPasswordPrompts=0",
            "-o",
            "ConnectTimeout=8",
            "-o",
            "StrictHostKeyChecking=yes",
            "-p",
            "2222",
            "-o",
            "IdentitiesOnly=no",
            "alice@example.com",
            "exit",
            "0"
        ]
    );
    assert!(SshRuntime.verify_plan(&request, false).is_err());
    let refused = SshRuntime.verify_outcome(&target(), &output(false, "", "denied")).unwrap_err();
    assert!(refused.message.contains("denied"));
    assert!(SshRuntime.verify_outcome(&target(), &output(true, "", "")).is_ok());
}

#[test]
fn shown_arguments_hide_the_identity() {
    let mut env = OrderedMap::new();
    env.insert("A".to_string(), "b c".to_string());
    let request = SshExecPlanRequest {
        ssh_bin_path: Some("/usr/bin/ssh".to_string()),
        target: target(),
        auth_kind: SshAuthKind::IdentityFile,
        identity_path: Some("/secret/key".to_string()),
        verify_host_key: false,
        script: "echo 'hi'".to_string(),
        shell: None,
        cwd: Some("/srv".to_string()),
        env,
        login: false,
    };
    let plan = SshRuntime.build_exec_plan(&request, true).unwrap();
    assert!(plan.args.iter().any(|a| a == "/secret/key"));
    assert!(!plan.public_args.iter().any(|a| a.contains("/secret/key")));
    let script = plan.args.last().unwrap();
    let inner = format!(
        "export A='b c' && cd -- '/srv' || exit 1 && exec ${{SHELL:-/bin/sh}} -c {}",
        shell_escape("echo 'hi'")
    );
    assert_eq!(*script, format!("sh -lc {}", shell_escape(&inner)));
}

#[test]
fn remote_commands_are_quoted() {
    let none = OrderedMap::new();
    let command = build_remote_command(
        &Some("ls".to_string()),
        &vec!["a b".to_string()],
        &None,
        &none,
        &None,
        false,
    )
    .unwrap()
    .unwrap();
    assert_eq!(command, format!("sh -lc {}", shell_escape("'ls' 'a b'")));
    let exec = build_remote_exec_command("echo 'x'", &None, &none, &None, false).unwrap();
    let inner = format!("exec ${{SHELL:-/bin/sh}} -c {}", shell_escape("echo 'x'"));
    assert_eq!(exec, format!("sh -lc {}", shell_escape(&inner)));
    assert!(build_remote_exec_command(" ", &None, &none, &None, false).is_err());
}

#[test]
fn different_texts_are_quoted_differently() {
    let texts = ["", "'", "''", "a b", "a' 'b", "\"'\"", "$HOME"];
    for a in texts {
        for b in texts {
            assert_eq!(shell_escape(a) == shell_escape(b), a == b);
        }
    }
}
