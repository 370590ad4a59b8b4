use pty_mcp::config::{
    candidate_paths, parse_csv, parse_path_list, resolve_bin_path, Config, ConfigError, EnvVars,
    HostFiles, Program,
};
use pty_mcp::json::JsonValue;
use pty_mcp::path::{contains_path, file_name, is_within, join_path, normalize_path, paths_equal};
use pty_mcp::permission::guard::{CwdFacts, PermissionGuard, SpawnValidationInput};
use pty_mcp::permission::policy::{normalize_command_name, normalize_env_key, PermissionPolicy};
use pty_mcp::text::IntParseError;

fn host() -> HostFiles {
    HostFiles {
        platform: "linux".to_string(),
        files: vec!["/opt/bin/ssh".to_string(), "/opt/bin/sshfs".to_string()],
        path_dirs: Some(vec!["/opt/bin".to_string()]),
    }
}

fn load(entries: &[(&str, &str)]) -> Result<Config, ConfigError> {
    let vars = EnvVars {
        entries: entries.iter().map(|(k, v)| (k.to_string(), v.to_string())).collect(),
    };
    Config::from_env(&vars, &host(), "/work")
}

#[test]
fn empty_environment_keeps_the_defaults() {
    let config = load(&[]).unwrap();
    assert_eq!(config.session_limit, 32);
    assert_eq!(config.default_read_limit, 200);
    assert_eq!(config.max_buffer_lines, 50_000);
    assert_eq!(config.allowed_cwd_roots, ["/work"]);
    assert_eq!(config.denied_env_vars.len(), 4);
    assert_eq!(config.ssh.ssh_bin_path.as_deref(), Some("/opt/bin/ssh"));
    assert_eq!(config.ssh.allowed_mount_roots, ["/work"]);
    assert_eq!((config.ssh.port_min, config.ssh.port_max), (1, 65535));
}

#[test]
fn environment_sets_the_configuration() {
    let config = load(&[
        ("PTY_MCP_SESSION_LIMIT", "4"),
        ("PTY_MCP_ALLOWED_COMMANDS", "ls, cat ,,"),
        ("PTY_MCP_ALLOWED_CWD_ROOTS", "/a:/b"),
        ("PTY_MCP_SSH_MANAGED_MOUNT_ROOT", " /mnt "),
        ("PTY_MCP_SSH_ALLOW_EXPLICIT_MOUNT_PATHS", "no"),
        ("PTY_MCP_SSH_PORT_MIN", "22"),
        ("PTY_MCP_SSH_PORT_MAX", "22"),
        ("PTY_MCP_SSH_ALLOWED_AUTH_KINDS", "ssh_agent"),
    ])
    .unwrap();
    assert_eq!(config.session_limit, 4);
    assert_eq!(config.allowed_commands, ["ls", "cat"]);
    assert_eq!(config.allowed_cwd_roots, ["/a", "/b", "/mnt"]);
    assert_eq!(config.ssh.managed_mount_root.as_deref(), Some("/mnt"));
    assert!(!config.ssh.allow_explicit_mount_paths);
    assert_eq!(config.ssh.allowed_auth_kinds, ["ssh_agent"]);
}

#[test]
fn faulty_environment_is_refused() {
    match load(&[("PTY_MCP_SESSION_LIMIT", "many")]) {
        Err(ConfigError::InvalidUsize { key, value, source }) => {
            assert_eq!(key, "PTY_MCP_SESSION_LIMIT");
            assert_eq!(value, "many");
            assert_eq!(source, IntParseError::InvalidDigit);
        }
        _ => unreachable!(),
    }
    assert!(matches!(
        load(&[("PTY_MCP_SSH_PORT_MIN", "70000")]),
        Err(ConfigError::InvalidU16 { .. })
    ));
    let range = load(&[("PTY_MCP_SSH_PORT_MIN", "90"), ("PTY_MCP_SSH_PORT_MAX", "80")]);
    match range {
        Err(error) => {
            assert!(error.message().contains("90"));
            assert!(matches!(error, ConfigError::InvalidPortRange { min: 90, max: 80 }));
        }
        Ok(_) => unreachable!(),
    }
    assert!(matches!(
        load(&[("PTY_MCP_SSH_ALLOW_EXPLICIT_MOUNT_PATHS", "perhaps")]),
        Err(ConfigError::InvalidBool { .. })
    ));
    assert!(matches!(
        load(&[("PTY_MCP_SSH_ALLOWED_AUTH_KINDS", "password")]),
        Err(ConfigError::InvalidAuthKind { .. })
    ));
}

#[test]
fn programs_are_found() {
    assert_eq!(parse_csv(" a,,b "), ["a", "b"]);
    assert_eq!(parse_path_list("/a: :/b"), ["/a", "/b"]);
    assert_eq!(
        resolve_bin_path(&None, Program::Sshfs, &host()),
        Some("/opt/bin/sshfs".to_string())
    );
    assert_eq!(resolve_bin_path(&None, Program::Diskutil, &host()), None);
    let asked = Some("/opt/bin/ssh".to_string());
    assert_eq!(resolve_bin_path(&asked, Program::Sshfs, &host()), asked);
    let all = candidate_paths(Program::Ssh, false, &vec!["/x".to_string()]);
    assert_eq!(all.last().unwrap(), "/x/ssh");
}

fn facts() -> CwdFacts {
    CwdFacts {
        current_dir: Ok("/work".to_string()),
        exists: true,
        canonical: Ok("/work/sub".to_string()),
        canonical_roots: vec!["/work".to_string()],
    }
}

fn guard(change: fn(&mut Config)) -> PermissionGuard {
    let mut config = load(&[]).unwrap();
    change(&mut config);
    PermissionGuard::new(PermissionPolicy::from_config(&config))
}

fn input(command: &str) -> SpawnValidationInput {
    SpawnValidationInput {
        command: command.to_string(),
        args: vec!["-l".to_string()],
        cwd: Some("sub".to_string()),
        env: Some(vec![("A".to_string(), JsonValue::Number("1".to_string()))]),
    }
}

#[test]
fn allowed_spawn_is_passed_on() {
    let guard = guard(|_| {});
    let result = guard.validate_spawn(&input("ls"), &facts()).unwrap();
    assert_eq!(result.command, "ls");
    assert_eq!(result.args, ["-l"]);
    assert_eq!(result.env.get("A").unwrap(), "1");
    assert_eq!(
        guard.cwd_to_look_up(&Some("sub".to_string()), &Ok("/work".to_string())),
        Some("/work/sub".to_string())
    );
}

#[test]
fn denied_things_are_not_spawned() {
    let strict = guard(|c| {
        c.allowed_commands = vec!["ls".to_string()];
        c.denied_commands = vec!["rm".to_string()];
    });
    assert!(strict.validate_spawn(&input("ls"), &facts()).is_ok());
    assert!(strict.validate_spawn(&input("/bin/rm"), &facts()).is_err());
    assert!(strict.validate_spawn(&input("cat"), &facts()).is_err());
    assert!(strict.validate_spawn(&input(" "), &facts()).is_err());
    let open = guard(|_| {});
    let mut preload = input("ls");
    preload.env = Some(vec![("ld_preload".to_string(), JsonValue::Bool(true))]);
    assert!(open.validate_spawn(&preload, &facts()).is_err());
    let mut outside = facts();
    outside.canonical = Ok("/etc".to_string());
    assert!(open.validate_spawn(&input("ls"), &outside).is_err());
    let mut missing = facts();
    missing.exists = false;
    assert!(open.validate_spawn(&input("ls"), &missing).is_err());
}

#[test]
fn names_are_normalized() {
    assert_eq!(normalize_command_name(" /usr/bin/ls "), Some("ls".to_string()));
    assert_eq!(normalize_command_name(" "), None);
    assert_eq!(normalize_env_key(" path "), "PATH");
}

#[test]
fn paths_are_normalized_once() {
    let once = normalize_path("a/./b/../c", "/work");
    assert_eq!(once, "/work/a/c");
    assert_eq!(normalize_path(&once, "/work"), once);
    assert_eq!(normalize_path("/../x", "/work"), "/x");
    assert!(is_within("/work/a", "/work"));
    assert!(!is_within("/workshop", "/work"));
    assert!(paths_equal("/a//b/", "/a/b"));
    assert!(contains_path(&vec!["/a".to_string()], "/a/"));
    assert_eq!(join_path("/a", "b"), "/a/b");
    assert_eq!(join_path("/a", "/b"), "/b");
    assert_eq!(file_name("/a/b"), Some("b".to_string()));
    assert_eq!(file_name("/"), None);
}

#[test]
fn alike_lists_set_one_policy() {
    let policy = |commands: &[&str], keys: &[&str]| {
        let mut config = load(&[]).unwrap();
        config.allowed_commands = commands.iter().map(|s| s.to_string()).collect();
        config.denied_env_vars = keys.iter().map(|s| s.to_string()).collect();
        PermissionPolicy::from_config(&config)
    };
    let first = policy(&["ls", "cat"], &["PATH"]);
    let second = policy(&[" /usr/bin/CAT ", "", "LS", "/bin/ls"], &[" path ", " ", "Path"]);
    for text in ["ls", "/opt/LS", "cat", "rm", "", " path", "HOME"] {
        assert_eq!(first.is_command_allowed(text), second.is_command_allowed(text));
        assert_eq!(first.is_env_key_allowed(text), second.is_env_key_allowed(text));
    }
    assert_eq!(first.allowed_cwd_roots(), second.allowed_cwd_roots());
    assert!(second.is_command_allowed("Cat") && !second.is_command_allowed("rm"));
    assert!(!second.is_env_key_allowed("pAtH") && second.is_env_key_allowed("HOME"));
}
