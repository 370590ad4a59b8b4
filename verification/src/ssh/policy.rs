//! Which hosts, users, ports, ways of authentication and mount points are
//! allowed.
use super::model::SshAuthKind;
use crate::config::{add_path, list_contains, with_path, Config};
use crate::error::Failure;
use crate::path::{is_absolute, is_absolute_path, is_within, lies_within, normalize_path, normalized_path};
use crate::permission::guard::{within_any, within_one_of};
use crate::text::{
    cat2, cat4, cat6, debug_list, debug_strings, decimal, decimal_text, ends_with,
    law_lower_case_unites_cases, lowercase, lowered, opt_text, same, same_but_case, starts_with, strip_prefix, texts, trim, trimmed,
};
use vstd::prelude::*;

verus! {

/// The port that is meant where none is given.
pub const DEFAULT_SSH_PORT: u16 = 22;

/// A text as policies compare it: trimmed and in lower case, unless it is blank.
pub open spec fn policy_value(s: Seq<char>) -> Option<Seq<char>> {
    let t = lowered(trimmed(s));
    if t.len() == 0 {
        None
    } else {
        Some(t)
    }
}

/// The texts of a list as policies compare them.
pub open spec fn policy_values(list: Seq<Seq<char>>) -> Set<Seq<char>> {
    Set::new(
        |n: Seq<char>|
            exists|i: int| 0 <= i < list.len() && policy_value(#[trigger] list[i]) == Some(n),
    )
}

/// Whether a pattern means a host: `*` means all, `*.x` means `x` and what ends
/// in `.x`, and anything else means itself.
pub open spec fn pattern_means(pattern: Seq<char>, host: Seq<char>) -> bool {
    if pattern == "*"@ {
        true
    } else if "*."@.is_prefix_of(pattern) {
        let suffix = pattern.skip("*."@.len() as int);
        host == suffix || ("."@ + suffix).is_suffix_of(host)
    } else {
        pattern == host
    }
}

/// Whether one of the patterns means a host.
pub open spec fn any_means(patterns: Set<Seq<char>>, host: Seq<char>) -> bool {
    exists|p: Seq<char>| #[trigger] patterns.contains(p) && pattern_means(p, host)
}

/// Whether a host is this one, reached through the loopback interface.
pub open spec fn is_loopback(host: Seq<char>) -> bool {
    lowered(host) == "127.0.0.1"@ || lowered(host) == "localhost"@ || lowered(host) == "::1"@
}

/// What a path is.
#[derive(Debug, Clone, Copy, PartialEq, Eq, Structural)]
pub enum FileKind {
    Missing,
    File,
    Other,
}

/// The name of an authentication kind in policies.
pub open spec fn policy_auth_name(kind: SshAuthKind) -> Seq<char> {
    match kind {
        SshAuthKind::ConfigAlias => "host_alias"@,
        SshAuthKind::SshAgent => "ssh_agent"@,
        SshAuthKind::IdentityFile => "identity_path"@,
    }
}

/// What SSH connections and mounts may do.
#[derive(Debug, PartialEq, Eq)]
pub struct SshPolicy {
    allowed_hosts: Vec<String>,
    denied_hosts: Vec<String>,
    allowed_users: Vec<String>,
    allowed_auth_kinds: Vec<String>,
    allow_explicit_mount_paths: bool,
    managed_mount_root: Option<String>,
    allowed_local_mount_roots: Vec<String>,
    port_min: u16,
    port_max: u16,
}

/// The rules of a policy.
pub struct SshRules {
    pub allowed_hosts: Set<Seq<char>>,
    pub denied_hosts: Set<Seq<char>>,
    pub allowed_users: Set<Seq<char>>,
    pub allowed_auth_kinds: Set<Seq<char>>,
    pub allow_explicit_mount_paths: bool,
    pub managed_mount_root: Option<Seq<char>>,
    pub allowed_local_mount_roots: Seq<Seq<char>>,
    pub port_min: u16,
    pub port_max: u16,
}

/// Paths in normal form.
pub open spec fn normal_paths(list: Seq<Seq<char>>, current_dir: Seq<char>) -> Seq<Seq<char>> {
    list.map_values(|p: Seq<char>| normalized_path(p, current_dir))
}

/// The rules that a configuration sets. Mounts are allowed where the
/// configuration says, or else where sessions may start, and always below the
/// root of managed mounts.
pub open spec fn rules_of(config: crate::config::ConfigText, current_dir: Seq<char>) -> SshRules {
    let managed = match config.ssh.managed_mount_root {
        Some(root) => Some(normalized_path(root, current_dir)),
        None => None,
    };
    let base = if config.ssh.allowed_mount_roots.len() == 0 {
        normal_paths(config.allowed_cwd_roots, current_dir)
    } else {
        normal_paths(config.ssh.allowed_mount_roots, current_dir)
    };
    SshRules {
        allowed_hosts: policy_values(config.ssh.allowed_hosts),
        denied_hosts: policy_values(config.ssh.denied_hosts),
        allowed_users: policy_values(config.ssh.allowed_users),
        allowed_auth_kinds: policy_values(config.ssh.allowed_auth_kinds),
        allow_explicit_mount_paths: config.ssh.allow_explicit_mount_paths,
        managed_mount_root: managed,
        allowed_local_mount_roots: match managed {
            Some(root) => with_path(base, root),
            None => base,
        },
        port_min: config.ssh.port_min,
        port_max: config.ssh.port_max,
    }
}

/// Why a host is refused, if it is. A denied host is refused whatever is allowed.
pub open spec fn host_refusal(rules: SshRules, host: Seq<char>) -> Option<Seq<char>> {
    match policy_value(host) {
        None => Some("ssh host cannot be empty"@),
        Some(h) => if any_means(rules.denied_hosts, h) {
            Some("ssh host is denied by policy: host="@ + host)
        } else if rules.allowed_hosts != Set::<Seq<char>>::empty() && !any_means(
            rules.allowed_hosts,
            h,
        ) {
            Some("ssh host is not in the allowlist: host="@ + host)
        } else {
            None
        },
    }
}

/// Why a user is refused, if it is.
pub open spec fn user_refusal(rules: SshRules, user: Option<Seq<char>>) -> Option<Seq<char>> {
    match user {
        Some(u) => match policy_value(u) {
            None => Some("ssh user cannot be empty"@),
            Some(n) => if rules.allowed_users != Set::<Seq<char>>::empty()
                && !rules.allowed_users.contains(n) {
                Some("ssh user is not in the allowlist: user="@ + u)
            } else {
                None
            },
        },
        None => if rules.allowed_users != Set::<Seq<char>>::empty() {
            Some("ssh user is required by policy"@)
        } else {
            None
        },
    }
}

/// The port that is meant.
pub open spec fn port_meant(port: Option<u16>) -> u16 {
    match port {
        Some(p) => p,
        None => DEFAULT_SSH_PORT,
    }
}

/// Why a port is refused, if it is.
pub open spec fn port_refusal(rules: SshRules, port: u16) -> Option<Seq<char>> {
    if port == 0 {
        Some("ssh port must be greater than 0: port="@ + decimal_text(port as nat))
    } else if port < rules.port_min || port > rules.port_max {
        Some(
            "ssh port is outside the allowed policy range: port="@ + decimal_text(port as nat)
                + " port_min="@ + decimal_text(rules.port_min as nat) + " port_max="@
                + decimal_text(rules.port_max as nat),
        )
    } else {
        None
    }
}

/// Why a target is refused, if it is: the host is judged first, the user second,
/// the port last.
pub open spec fn target_refusal(
    rules: SshRules,
    host: Seq<char>,
    user: Option<Seq<char>>,
    port: Option<u16>,
) -> Option<Seq<char>> {
    if host_refusal(rules, host) is Some {
        host_refusal(rules, host)
    } else if user_refusal(rules, user) is Some {
        user_refusal(rules, user)
    } else {
        port_refusal(rules, port_meant(port))
    }
}

/// Why a way of authentication is refused, if it is.
pub open spec fn auth_refusal(
    rules: SshRules,
    kind: SshAuthKind,
    host_alias: Option<Seq<char>>,
    identity_path: Option<Seq<char>>,
    identity: FileKind,
) -> Option<Seq<char>> {
    if rules.allowed_auth_kinds != Set::<Seq<char>>::empty()
        && !rules.allowed_auth_kinds.contains(policy_auth_name(kind)) {
        Some("ssh auth kind is not allowed by policy: auth_kind="@ + policy_auth_name(kind))
    } else {
        match kind {
            SshAuthKind::SshAgent => None,
            SshAuthKind::ConfigAlias => if host_alias is Some && trimmed(host_alias->0).len() > 0 {
                None
            } else {
                Some("host_alias is required when auth_kind=config_alias"@)
            },
            SshAuthKind::IdentityFile => match identity_path {
                None => Some("identity_path is required when auth_kind=identity_file"@),
                Some(path) => if !is_absolute_path(path) {
                    Some("identity_path must be absolute: identity_path="@ + path)
                } else {
                    match identity {
                        FileKind::Missing => Some(
                            "identity_path does not exist: identity_path="@ + path,
                        ),
                        FileKind::Other => Some(
                            "identity_path must be a file: identity_path="@ + path,
                        ),
                        FileKind::File => None,
                    }
                },
            },
        }
    }
}

/// Why a local mount point is refused, if it is. A path below the root of managed
/// mounts is always good; another one only where explicit paths are allowed, and
/// below an allowed root. Paths are judged in their normal form.
pub open spec fn mount_point_refusal(rules: SshRules, path: Seq<char>) -> Option<Seq<char>> {
    if !is_absolute_path(path) {
        Some("ssh mount local_path must be absolute: local_path="@ + path)
    } else {
        let normal = normalized_path(path, ""@);
        if rules.managed_mount_root is Some && lies_within(normal, rules.managed_mount_root->0) {
            None
        } else if !rules.allow_explicit_mount_paths {
            Some("explicit ssh mount paths are disabled by policy: local_path="@ + normal)
        } else if within_any(normal, rules.allowed_local_mount_roots) {
            None
        } else {
            Some(
                "ssh mount local_path is outside allowed roots: local_path="@ + normal
                    + " allowed_roots="@ + debug_list(rules.allowed_local_mount_roots),
            )
        }
    }
}

/// Why a remote path is refused, if it is.
pub open spec fn remote_path_refusal(remote_path: Seq<char>) -> Option<Seq<char>> {
    if trimmed(remote_path).len() == 0 {
        Some("remote_path cannot be empty"@)
    } else if !"/"@.is_prefix_of(trimmed(remote_path)) {
        Some("remote_path must be absolute: remote_path="@ + remote_path)
    } else {
        None
    }
}

/// What a check says, as a result.
pub open spec fn agrees(r: Result<(), Failure>, refusal: Option<Seq<char>>) -> bool {
    match refusal {
        None => r is Ok,
        Some(text) => r matches Err(e) && e@ == text,
    }
}

impl SshPolicy {
    /// The rules of the policy.
    pub closed spec fn view(&self) -> SshRules {
        SshRules {
            allowed_hosts: texts(self.allowed_hosts@).to_set(),
            denied_hosts: texts(self.denied_hosts@).to_set(),
            allowed_users: texts(self.allowed_users@).to_set(),
            allowed_auth_kinds: texts(self.allowed_auth_kinds@).to_set(),
            allow_explicit_mount_paths: self.allow_explicit_mount_paths,
            managed_mount_root: opt_text(self.managed_mount_root),
            allowed_local_mount_roots: texts(self.allowed_local_mount_roots@),
            port_min: self.port_min,
            port_max: self.port_max,
        }
    }

    /// The policy that a configuration sets.
    pub fn from_config(config: &Config, current_dir: &str) -> (r: Self)
        ensures
            r@ == rules_of(config@, current_dir@),
    {
        let managed = match &config.ssh.managed_mount_root {
            Some(root) => Some(normalize_path(root.as_str(), current_dir)),
            None => None,
        };
        let mut roots = if config.ssh.allowed_mount_roots.len() == 0 {
            normalize_paths(&config.allowed_cwd_roots, current_dir)
        } else {
            normalize_paths(&config.ssh.allowed_mount_roots, current_dir)
        };
        match &managed {
            Some(root) => {
                add_path(&mut roots, root.as_str());
            },
            None => {},
        }
        SshPolicy {
            allowed_hosts: normalize_set(&config.ssh.allowed_hosts),
            denied_hosts: normalize_set(&config.ssh.denied_hosts),
            allowed_users: normalize_set(&config.ssh.allowed_users),
            allowed_auth_kinds: normalize_set(&config.ssh.allowed_auth_kinds),
            allow_explicit_mount_paths: config.ssh.allow_explicit_mount_paths,
            managed_mount_root: managed,
            allowed_local_mount_roots: roots,
            port_min: config.ssh.port_min,
            port_max: config.ssh.port_max,
        }
    }

    /// Checks a target.
    pub fn validate_target(&self, host: &str, user: Option<&str>, port: Option<u16>) -> (r: Result<
        (),
        Failure,
    >)
        ensures
            agrees(
                r,
                target_refusal(
                    self@,
                    host@,
                    match user {
                        Some(u) => Some(u@),
                        None => None,
                    },
                    port,
                ),
            ),
    {
        let normalized_host = match normalize_value(host) {
            Some(h) => h,
            None => {
                return Err(Failure::new("ssh host cannot be empty".to_owned()));
            },
        };
        if any_matches(&self.denied_hosts, normalized_host.as_str()) {
            return Err(Failure::new(cat2("ssh host is denied by policy: host=", host)));
        }
        proof {
            lemma_list_empty(self.allowed_hosts@);
            lemma_list_empty(self.allowed_users@);
        }
        if self.allowed_hosts.len() > 0 && !any_matches(
            &self.allowed_hosts,
            normalized_host.as_str(),
        ) {
            return Err(Failure::new(cat2("ssh host is not in the allowlist: host=", host)));
        }
        match user {
            Some(user) => {
                let normalized_user = match normalize_value(user) {
                    Some(u) => u,
                    None => {
                        return Err(Failure::new("ssh user cannot be empty".to_owned()));
                    },
                };
                if self.allowed_users.len() > 0 && !list_contains(
                    &self.allowed_users,
                    normalized_user.as_str(),
                ) {
                    return Err(Failure::new(cat2("ssh user is not in the allowlist: user=", user)));
                }
            },
            None => {
                if self.allowed_users.len() > 0 {
                    return Err(Failure::new("ssh user is required by policy".to_owned()));
                }
            },
        }
        let port: u16 = match port {
            Some(p) => p,
            None => DEFAULT_SSH_PORT,
        };
        let port_text = decimal(port as u64);
        if port == 0 {
            return Err(
                Failure::new(cat2("ssh port must be greater than 0: port=", port_text.as_str())),
            );
        }
        if port < self.port_min || port > self.port_max {
            let min = decimal(self.port_min as u64);
            let max = decimal(self.port_max as u64);
            return Err(
                Failure::new(
                    cat6(
                        "ssh port is outside the allowed policy range: port=",
                        port_text.as_str(),
                        " port_min=",
                        min.as_str(),
                        " port_max=",
                        max.as_str(),
                    ),
                ),
            );
        }
        Ok(())
    }

    /// Checks a way of authentication, given what the identity file is.
    pub fn validate_auth(
        &self,
        auth_kind: SshAuthKind,
        host_alias: Option<&str>,
        identity_path: Option<&str>,
        identity: FileKind,
    ) -> (r: Result<(), Failure>)
        ensures
            agrees(
                r,
                auth_refusal(
                    self@,
                    auth_kind,
                    match host_alias {
                        Some(a) => Some(a@),
                        None => None,
                    },
                    match identity_path {
                        Some(p) => Some(p@),
                        None => None,
                    },
                    identity,
                ),
            ),
    {
        let name = match auth_kind {
            SshAuthKind::ConfigAlias => "host_alias",
            SshAuthKind::SshAgent => "ssh_agent",
            SshAuthKind::IdentityFile => "identity_path",
        };
        proof {
            lemma_list_empty(self.allowed_auth_kinds@);
        }
        if self.allowed_auth_kinds.len() > 0 && !list_contains(&self.allowed_auth_kinds, name) {
            return Err(
                Failure::new(cat2("ssh auth kind is not allowed by policy: auth_kind=", name)),
            );
        }
        match auth_kind {
            SshAuthKind::SshAgent => Ok(()),
            SshAuthKind::ConfigAlias => {
                let given = match host_alias {
                    Some(alias) => !trim(alias).is_empty(),
                    None => false,
                };
                if given {
                    Ok(())
                } else {
                    Err(
                        Failure::new(
                            "host_alias is required when auth_kind=config_alias".to_owned(),
                        ),
                    )
                }
            },
            SshAuthKind::IdentityFile => match identity_path {
                None => Err(
                    Failure::new(
                        "identity_path is required when auth_kind=identity_file".to_owned(),
                    ),
                ),
                Some(path) => if !is_absolute(path) {
                    Err(Failure::new(cat2("identity_path must be absolute: identity_path=", path)))
                } else {
                    match identity {
                        FileKind::Missing => Err(
                            Failure::new(cat2("identity_path does not exist: identity_path=", path)),
                        ),
                        FileKind::Other => Err(
                            Failure::new(cat2("identity_path must be a file: identity_path=", path)),
                        ),
                        FileKind::File => Ok(()),
                    }
                },
            },
        }
    }

    /// Checks a remote path.
    pub fn validate_remote_path(&self, remote_path: &str) -> (r: Result<(), Failure>)
        ensures
            agrees(r, remote_path_refusal(remote_path@)),
    {
        let t = trim(remote_path);
        if t.is_empty() {
            return Err(Failure::new("remote_path cannot be empty".to_owned()));
        }
        if !starts_with(t, "/") {
            return Err(
                Failure::new(cat2("remote_path must be absolute: remote_path=", remote_path)),
            );
        }
        Ok(())
    }

    /// Checks a local mount point.
    pub fn validate_local_mount_path(&self, path: &str) -> (r: Result<(), Failure>)
        ensures
            agrees(r, mount_point_refusal(self@, path@)),
    {
        if !is_absolute(path) {
            return Err(
                Failure::new(cat2("ssh mount local_path must be absolute: local_path=", path)),
            );
        }
        let normal = normalize_path(path, "");
        match &self.managed_mount_root {
            Some(root) => {
                if is_within(normal.as_str(), root.as_str()) {
                    return Ok(());
                }
            },
            None => {},
        }
        if !self.allow_explicit_mount_paths {
            return Err(
                Failure::new(
                    cat2(
                        "explicit ssh mount paths are disabled by policy: local_path=",
                        normal.as_str(),
                    ),
                ),
            );
        }
        if within_one_of(normal.as_str(), &self.allowed_local_mount_roots) {
            return Ok(());
        }
        let roots = debug_strings(&self.allowed_local_mount_roots);
        Err(
            Failure::new(
                cat4(
                    "ssh mount local_path is outside allowed roots: local_path=",
                    normal.as_str(),
                    " allowed_roots=",
                    roots.as_str(),
                ),
            ),
        )
    }

    /// Checks the host that a tunnel listens on: only the loopback interface is
    /// allowed.
    pub fn validate_tunnel_bind_host(&self, bind_host: &str) -> (r: Result<(), Failure>)
        ensures
            agrees(
                r,
                if is_loopback(bind_host@) {
                    None
                } else {
                    Some("ssh tunnel bind_host is not allowed by policy: bind_host="@ + bind_host@)
                },
            ),
    {
        let lower = lowercase(bind_host);
        if same(lower.as_str(), "127.0.0.1") || same(lower.as_str(), "localhost") || same(
            lower.as_str(),
            "::1",
        ) {
            Ok(())
        } else {
            Err(
                Failure::new(
                    cat2("ssh tunnel bind_host is not allowed by policy: bind_host=", bind_host),
                ),
            )
        }
    }
}

/// A list is empty where its members are none.
proof fn lemma_list_empty(list: Seq<String>)
    ensures
        (list.len() == 0) == (texts(list).to_set() == Set::<Seq<char>>::empty()),
{
    if list.len() == 0 {
        assert(texts(list).to_set() =~= Set::<Seq<char>>::empty());
    } else {
        assert(texts(list).contains(texts(list)[0]));
        assert(texts(list).to_set().contains(texts(list)[0]));
    }
}

fn normalize_paths(list: &Vec<String>, current_dir: &str) -> (r: Vec<String>)
    ensures
        texts(r@) == normal_paths(texts(list@), current_dir@),
{
    let mut r: Vec<String> = Vec::new();
    let mut i: usize = 0;
    let ghost all = normal_paths(texts(list@), current_dir@);
    while i < list.len()
        invariant
            i <= list@.len(),
            all == normal_paths(texts(list@), current_dir@),
            texts(r@) == all.take(i as int),
        decreases list@.len() - i,
    {
        let ghost before = r@;
        let p = normalize_path(list[i].as_str(), current_dir);
        r.push(p);
        i = i + 1;
        proof {
            assert(texts(r@) =~= texts(before).push(p@));
            assert(all.take(i as int) =~= all.take(i - 1).push(all[i - 1]));
        }
    }
    assert(all.take(i as int) =~= all);
    r
}

fn normalize_set(values: &Vec<String>) -> (r: Vec<String>)
    ensures
        texts(r@).to_set() == policy_values(texts(values@)),
{
    let mut r: Vec<String> = Vec::new();
    let mut i: usize = 0;
    proof {
        assert(texts(r@).to_set() =~= policy_values(texts(values@).take(0)));
    }
    while i < values.len()
        invariant
            i <= values@.len(),
            texts(r@).to_set() == policy_values(texts(values@).take(i as int)),
        decreases values@.len() - i,
    {
        let ghost before = texts(r@);
        let ghost item = texts(values@)[i as int];
        let ghost part = texts(values@).take(i as int);
        let ghost more = texts(values@).take(i + 1);
        proof {
            assert(more =~= part.push(item));
            assert forall|n: Seq<char>| policy_values(more).contains(n) == (policy_values(
                part,
            ).contains(n) || policy_value(item) == Some(n)) by {
                if policy_values(part).contains(n) {
                    let k = choose|k: int|
                        0 <= k < part.len() && policy_value(#[trigger] part[k]) == Some(n);
                    assert(policy_value(more[k]) == Some(n));
                }
                if policy_value(item) == Some(n) {
                    assert(policy_value(more[i as int]) == Some(n));
                }
                if policy_values(more).contains(n) {
                    let k = choose|k: int|
                        0 <= k < more.len() && policy_value(#[trigger] more[k]) == Some(n);
                    if k < i {
                        assert(policy_value(part[k]) == Some(n));
                    }
                }
            }
        }
        match normalize_value(values[i].as_str()) {
            Some(name) => {
                r.push(name);
                proof {
                    assert(texts(r@) =~= before.push(name@));
                    before.lemma_push_to_set_commute(name@);
                }
            },
            None => {},
        }
        assert(texts(r@).to_set() =~= policy_values(more));
        i = i + 1;
    }
    assert(texts(values@).take(i as int) =~= texts(values@));
    r
}

/// A text as policies compare it.
pub fn normalize_value(value: &str) -> (r: Option<String>)
    ensures
        opt_text(r) == policy_value(value@),
{
    let t = lowercase(trim(value));
    if t.as_str().is_empty() {
        None
    } else {
        Some(t)
    }
}

/// Whether a pattern means a host.
pub fn host_matches(pattern: &str, host: &str) -> (r: bool)
    ensures
        r == pattern_means(pattern@, host@),
{
    if same(pattern, "*") {
        return true;
    }
    match strip_prefix(pattern, "*.") {
        Some(suffix) => {
            let dotted = cat2(".", suffix);
            same(host, suffix) || ends_with(host, dotted.as_str())
        },
        None => same(pattern, host),
    }
}

fn any_matches(patterns: &Vec<String>, host: &str) -> (r: bool)
    ensures
        r == any_means(texts(patterns@).to_set(), host@),
{
    let mut i: usize = 0;
    while i < patterns.len()
        invariant
            i <= patterns@.len(),
            forall|k: int| 0 <= k < i ==> !pattern_means(#[trigger] texts(patterns@)[k], host@),
        decreases patterns@.len() - i,
    {
        if host_matches(patterns[i].as_str(), host) {
            proof {
                let p = texts(patterns@)[i as int];
                assert(texts(patterns@).contains(p));
                assert(texts(patterns@).to_set().contains(p));
            }
            return true;
        }
        i = i + 1;
    }
    proof {
        if any_means(texts(patterns@).to_set(), host@) {
            let p = choose|p: Seq<char>| #[trigger]
                texts(patterns@).to_set().contains(p) && pattern_means(p, host@);
            let k = texts(patterns@).index_of(p);
            assert(texts(patterns@)[k] == p);
        }
    }
    false
}

/// A host that a denied pattern means is refused, whatever is allowed.
pub proof fn law_denied_host_is_refused(
    rules: SshRules,
    pattern: Seq<char>,
    host: Seq<char>,
    user: Option<Seq<char>>,
    port: Option<u16>,
)
    requires
        rules.denied_hosts.contains(pattern),
        policy_value(host) matches Some(h) && pattern_means(pattern, h),
    ensures
        target_refusal(rules, host, user, port) is Some,
{
}

/// A mount point that passes lies, in its normal form, below the root of managed
/// mounts or below an allowed root, and its normal form holds no `..`.
pub proof fn law_mount_point_stays_below_a_root(rules: SshRules, path: Seq<char>)
    requires
        mount_point_refusal(rules, path) is None,
    ensures
        is_absolute_path(path),
        (rules.managed_mount_root is Some && lies_within(
            normalized_path(path, ""@),
            rules.managed_mount_root->0,
        )) || (rules.allow_explicit_mount_paths && within_any(
            normalized_path(path, ""@),
            rules.allowed_local_mount_roots,
        )),
        !crate::path::components(normalized_path(path, ""@)).contains(seq!['.', '.']),
{
    crate::path::law_normal_form_has_no_dots(path, ""@);
    let parts = crate::path::components(normalized_path(path, ""@));
    if parts.contains(seq!['.', '.']) {
        let i = parts.index_of(seq!['.', '.']);
        assert(parts[i] != seq!['.', '.']);
    }
}

/// What a pattern means: `*` every host, `*.` and a name that host and every host below
/// it, and anything else the host of that name alone.
pub proof fn law_patterns_mean_hosts(name: Seq<char>, host: Seq<char>, below: Seq<char>)
    ensures
        pattern_means(seq!['*'], host),
        pattern_means(seq!['*', '.'] + name, name),
        pattern_means(seq!['*', '.'] + name, below + seq!['.'] + name),
        pattern_means(seq!['*', '.'] + name, host) ==> host == name || (host.len() > name.len()
            && host.skip(host.len() - name.len()) == name && host[host.len() - name.len() - 1]
            == '.'),
        !(name.len() > 0 && name[0] == '*') ==> (pattern_means(name, host) <==> host == name),
{
    reveal_strlit("*");
    reveal_strlit("*.");
    reveal_strlit(".");
    assert("*"@ =~= seq!['*']);
    assert("*."@ =~= seq!['*', '.']);
    assert("."@ =~= seq!['.']);
    let pattern = seq!['*', '.'] + name;
    let dotted = seq!['.'] + name;
    assert(pattern.skip(2) =~= name);
    assert(pattern[1] == '.');
    assert("*."@ =~= pattern.take(2));
    assert(pattern.len() >= 2);
    let under = below + seq!['.'] + name;
    assert(dotted =~= under.subrange(under.len() - dotted.len(), under.len() as int));
    if pattern_means(pattern, host) && host != name {
        assert(dotted.is_suffix_of(host));
        let k = host.len() - dotted.len();
        assert(host.subrange(k, host.len() as int) =~= dotted);
        assert(host.skip(host.len() - name.len()) =~= name) by {
            assert forall|i: int| 0 <= i < name.len() implies host.skip(
                host.len() - name.len(),
            )[i] == name[i] by {
                assert(host.subrange(k, host.len() as int)[i + 1] == dotted[i + 1]);
            }
        }
        assert(host[k] == host.subrange(k, host.len() as int)[0]);
    }
    if !(name.len() > 0 && name[0] == '*') {
        assert(name != "*"@);
        if "*."@.is_prefix_of(name) {
            assert(name[0] == "*."@[0]);
        }
    }
}

/// A target passes the policy exactly where its host is named, meant by no denied
/// pattern and, where any are allowed, by an allowed one; its user is an allowed one
/// where any are; and its port, or twenty-two, is not zero and in range.
pub proof fn law_targets_pass_as_ruled(
    rules: SshRules,
    host: Seq<char>,
    user: Option<Seq<char>>,
    port: Option<u16>,
)
    ensures
        target_refusal(rules, host, user, port) is None <==> {
            let h = lowered(trimmed(host));
            let p: int = if port is Some {
                port->0 as int
            } else {
                22
            };
            &&& trimmed(host).len() > 0
            &&& forall|d: Seq<char>| #[trigger]
                rules.denied_hosts.contains(d) ==> !pattern_means(d, h)
            &&& rules.allowed_hosts =~= Set::<Seq<char>>::empty() || exists|a: Seq<char>| #[trigger]
                rules.allowed_hosts.contains(a) && pattern_means(a, h)
            &&& user is Some ==> trimmed(user->0).len() > 0
            &&& rules.allowed_users =~= Set::<Seq<char>>::empty() || (user is Some
                && rules.allowed_users.contains(lowered(trimmed(user->0))))
            &&& p > 0
            &&& rules.port_min <= p <= rules.port_max
        },
{
    assert(lowered(trimmed(host)).len() == trimmed(host).len());
    if user is Some {
        assert(lowered(trimmed(user->0)).len() == trimmed(user->0).len());
    }
}

/// A way of authentication passes the policy exactly where it is an allowed one, where
/// any are; an alias is named where it is by alias; and the identity file is named by an
/// absolute path and is a file where it is by such a file.
pub proof fn law_authentication_passes_as_ruled(
    rules: SshRules,
    kind: SshAuthKind,
    host_alias: Option<Seq<char>>,
    identity_path: Option<Seq<char>>,
    identity: FileKind,
)
    ensures
        auth_refusal(rules, kind, host_alias, identity_path, identity) is None <==> {
            let name = match kind {
                SshAuthKind::ConfigAlias => "host_alias"@,
                SshAuthKind::SshAgent => "ssh_agent"@,
                SshAuthKind::IdentityFile => "identity_path"@,
            };
            &&& rules.allowed_auth_kinds =~= Set::<Seq<char>>::empty()
                || rules.allowed_auth_kinds.contains(name)
            &&& kind == SshAuthKind::ConfigAlias ==> host_alias is Some && trimmed(
                host_alias->0,
            ).len() > 0
            &&& kind == SshAuthKind::IdentityFile ==> identity_path is Some
                && identity_path->0.len() > 0 && identity_path->0[0] == '/' && identity
                == FileKind::File
        },
{
}

/// A mount point passes the policy exactly where it is absolute and lies, in its normal
/// form, below the managed root, or below an allowed root where explicit paths are
/// allowed.
pub proof fn law_mount_points_pass_as_ruled(rules: SshRules, path: Seq<char>)
    ensures
        mount_point_refusal(rules, path) is None <==> {
            let normal = normalized_path(path, ""@);
            &&& path.len() > 0 && path[0] == '/'
            &&& (rules.managed_mount_root is Some && lies_within(
                normal,
                rules.managed_mount_root->0,
            )) || (rules.allow_explicit_mount_paths && exists|i: int|
                0 <= i < rules.allowed_local_mount_roots.len() && lies_within(
                    normal,
                    #[trigger] rules.allowed_local_mount_roots[i],
                ))
        },
{
}

/// A remote path passes the policy exactly where it is absolute.
pub proof fn law_remote_paths_pass_where_absolute(remote_path: Seq<char>)
    ensures
        remote_path_refusal(remote_path) is None <==> trimmed(remote_path).len() > 0 && trimmed(
            remote_path,
        )[0] == '/',
{
    let t = trimmed(remote_path);
    reveal_strlit("/");
    if t.len() > 0 && t[0] == '/' {
        assert("/"@ =~= t.take(1));
    }
    if "/"@.is_prefix_of(t) {
        assert(t[0] == "/"@[0]);
    }
}

/// A host is this one where it is written as one of three names, whatever the case of its
/// letters.
pub proof fn law_loopback_hosts(host: Seq<char>)
    ensures
        is_loopback(host) <==> host == "127.0.0.1"@ || same_but_case(host, "localhost"@) || host
            == "::1"@,
{
    reveal_strlit("127.0.0.1");
    reveal_strlit("localhost");
    reveal_strlit("::1");
    let a = "127.0.0.1"@;
    let b = "localhost"@;
    let c = "::1"@;
    assert(lowered(a) =~= a);
    assert(lowered(b) =~= b);
    assert(lowered(c) =~= c);
    law_lower_case_unites_cases(host, a);
    law_lower_case_unites_cases(host, b);
    law_lower_case_unites_cases(host, c);
    if same_but_case(host, a) {
        assert forall|i: int| 0 <= i < host.len() implies host[i] == a[i] by {}
        assert(host =~= a);
    }
    if same_but_case(host, c) {
        assert forall|i: int| 0 <= i < host.len() implies host[i] == c[i] by {}
        assert(host =~= c);
    }
    if host == a {
        assert(same_but_case(host, a));
    }
    if host == c {
        assert(same_but_case(host, c));
    }
}

/// The rules are those of the configuration: each list of hosts, users and ways of
/// authentication without white space around its entries, in lower case and without blank
/// ones; the ports and the say on explicit paths as they are; and mounts where the
/// configuration allows them, or else where sessions may start, and below the managed
/// root.
pub proof fn law_rules_are_those_of_the_configuration(
    config: crate::config::ConfigText,
    current_dir: Seq<char>,
    n: Seq<char>,
)
    ensures
        ({
            let r = rules_of(config, current_dir);
            let roots = if config.ssh.allowed_mount_roots.len() > 0 {
                config.ssh.allowed_mount_roots
            } else {
                config.allowed_cwd_roots
            };
            &&& r.allowed_hosts.contains(n) <==> n.len() > 0 && exists|i: int|
                0 <= i < config.ssh.allowed_hosts.len() && n == lowered(
                    trimmed(#[trigger] config.ssh.allowed_hosts[i]),
                )
            &&& r.denied_hosts.contains(n) <==> n.len() > 0 && exists|i: int|
                0 <= i < config.ssh.denied_hosts.len() && n == lowered(
                    trimmed(#[trigger] config.ssh.denied_hosts[i]),
                )
            &&& r.allowed_users.contains(n) <==> n.len() > 0 && exists|i: int|
                0 <= i < config.ssh.allowed_users.len() && n == lowered(
                    trimmed(#[trigger] config.ssh.allowed_users[i]),
                )
            &&& r.allowed_auth_kinds.contains(n) <==> n.len() > 0 && exists|i: int|
                0 <= i < config.ssh.allowed_auth_kinds.len() && n == lowered(
                    trimmed(#[trigger] config.ssh.allowed_auth_kinds[i]),
                )
            &&& r.allow_explicit_mount_paths == config.ssh.allow_explicit_mount_paths
            &&& r.port_min == config.ssh.port_min
            &&& r.port_max == config.ssh.port_max
            &&& config.ssh.managed_mount_root is Some ==> r.managed_mount_root == Some(
                normalized_path(config.ssh.managed_mount_root->0, current_dir),
            )
            &&& config.ssh.managed_mount_root is None ==> r.managed_mount_root is None
            &&& r.allowed_local_mount_roots.len() >= roots.len()
            &&& forall|i: int|
                0 <= i < roots.len() ==> r.allowed_local_mount_roots[i] == normalized_path(
                    #[trigger] roots[i],
                    current_dir,
                )
            &&& config.ssh.managed_mount_root is None ==> r.allowed_local_mount_roots.len()
                == roots.len()
            &&& config.ssh.managed_mount_root is Some ==> r.allowed_local_mount_roots.len()
                <= roots.len() + 1
            &&& config.ssh.managed_mount_root is Some && r.allowed_local_mount_roots.len()
                > roots.len() ==> r.allowed_local_mount_roots.last() == normalized_path(
                config.ssh.managed_mount_root->0,
                current_dir,
            )
        }),
{
    lemma_policy_values(config.ssh.allowed_hosts, n);
    lemma_policy_values(config.ssh.denied_hosts, n);
    lemma_policy_values(config.ssh.allowed_users, n);
    lemma_policy_values(config.ssh.allowed_auth_kinds, n);
}

proof fn lemma_policy_values(list: Seq<Seq<char>>, n: Seq<char>)
    ensures
        policy_values(list).contains(n) <==> n.len() > 0 && exists|i: int|
            0 <= i < list.len() && n == lowered(trimmed(#[trigger] list[i])),
{
    if policy_values(list).contains(n) {
        let i = choose|i: int| 0 <= i < list.len() && policy_value(#[trigger] list[i]) == Some(n);
        assert(n == lowered(trimmed(list[i])));
    }
    if n.len() > 0 && exists|i: int|
        0 <= i < list.len() && n == lowered(trimmed(#[trigger] list[i])) {
        let i = choose|i: int| 0 <= i < list.len() && n == lowered(trimmed(#[trigger] list[i]));
        assert(policy_value(list[i]) == Some(n));
    }
}

} // verus!
