//! Checks what is asked of SSH before anything is done.
use super::model::{debug_opt, debug_option, opt_str, SshAuthKind, SshTarget};
use super::model::{auth_kind_text, bool_str, bool_text};
use super::policy::{agrees, is_loopback, law_loopback_hosts, mount_point_refusal, port_meant, target_refusal, SshPolicy, SshRules};
use crate::config::{SshConfig, SshConfigText};
use crate::error::Failure;
use crate::path::{is_absolute, is_absolute_path, is_within, lies_within};
use crate::permission::guard::{within_any, within_one_of};
use crate::text::{
    cat2, cat4, cat6, chars_of, contains_char, debug_list, debug_strings, decimal, decimal_text,
    is_space, law_lower_case_unites_cases, lemma_trimmed_twice, lowercase, lowered, opt_text,
    same_but_case, space_char, starts_with, texts, trim, trimmed,
};
use vstd::prelude::*;

verus! {

/// What a connection is asked for.
#[derive(Debug)]
pub struct SshConnectValidationInput<'a> {
    pub target: &'a SshTarget,
    pub auth_kind: SshAuthKind,
    pub identity_path: Option<&'a str>,
}

/// How a connection is to be made.
#[derive(Debug, PartialEq, Eq)]
pub struct SshConnectValidationResult {
    pub auth_kind: SshAuthKind,
    pub identity_path: Option<String>,
}

/// What a mount is asked for.
#[derive(Debug)]
pub struct SshMountValidationInput<'a> {
    pub local_path: &'a str,
    pub remote_path: &'a str,
}

/// How a mount is to be made.
#[derive(Debug, PartialEq, Eq)]
pub struct SshMountValidationResult {
    pub local_path: String,
    pub remote_path: String,
    pub is_managed_path: bool,
}

/// What a tunnel is asked for.
#[derive(Debug)]
pub struct SshTunnelValidationInput<'a> {
    pub bind_host: &'a str,
    pub local_port: u16,
    pub remote_host: &'a str,
    pub remote_port: u16,
}

/// How a tunnel is to be made.
#[derive(Debug, PartialEq, Eq)]
pub struct SshTunnelValidationResult {
    pub bind_host: String,
    pub local_port: u16,
    pub remote_host: String,
    pub remote_port: u16,
}

/// Whether a text stands in a list, but for the case of ASCII letters and outer
/// white space.
pub open spec fn listed(list: Seq<Seq<char>>, s: Seq<char>) -> bool {
    exists|i: int|
        0 <= i < list.len() && lowered(trimmed(#[trigger] list[i])) == lowered(trimmed(s))
}

/// An optional text, trimmed, or nothing.
pub open spec fn trimmed_or_empty(o: Option<Seq<char>>) -> Seq<char> {
    match o {
        Some(s) => trimmed(s),
        None => trimmed(""@),
    }
}

/// Why a target is refused by the configured lists, if it is.
pub open spec fn listed_target_refusal(
    config: SshConfigText,
    target: super::model::TargetText,
) -> Option<Seq<char>> {
    let host = trimmed(target.host);
    let alias = trimmed_or_empty(target.host_alias);
    let user = trimmed_or_empty(target.user);
    let port = port_meant(target.port);
    if listed(config.denied_hosts, host) || (alias.len() > 0 && listed(
        config.denied_hosts,
        alias,
    )) {
        Some("target host is blocked by ssh policy: host="@ + host + " host_alias="@ + alias)
    } else if config.allowed_hosts.len() > 0 && !listed(config.allowed_hosts, host) && (alias.len()
        == 0 || !listed(config.allowed_hosts, alias)) {
        Some("target host is not allowed by ssh policy: host="@ + host + " host_alias="@ + alias)
    } else if config.allowed_users.len() > 0 && (user.len() == 0 || !listed(
        config.allowed_users,
        user,
    )) {
        Some("target user is not allowed by ssh policy: user="@ + user + " host="@ + host)
    } else if port < config.port_min || port > config.port_max {
        Some(
            "target port is outside allowed ssh policy range: port="@ + decimal_text(port as nat)
                + " port_min="@ + decimal_text(config.port_min as nat) + " port_max="@
                + decimal_text(config.port_max as nat) + (" host="@ + host),
        )
    } else {
        None
    }
}

/// Why a way of authentication is refused by the configured list, if it is.
pub open spec fn listed_auth_refusal(
    config: SshConfigText,
    kind: SshAuthKind,
    host_alias: Option<Seq<char>>,
) -> Option<Seq<char>> {
    if config.allowed_auth_kinds.len() == 0 || listed(
        config.allowed_auth_kinds,
        auth_kind_text(kind),
    ) {
        None
    } else {
        Some(
            "ssh auth kind is blocked by policy: auth_kind="@ + auth_kind_text(kind)
                + " allowed_auth_kinds="@ + debug_list(config.allowed_auth_kinds)
                + " host_alias="@ + debug_opt(host_alias),
        )
    }
}

/// The identity file of a connection, or why there is none. Only authentication
/// by identity file has one, and its path is absolute.
pub open spec fn identity_of(kind: SshAuthKind, identity_path: Option<Seq<char>>) -> Result<
    Option<Seq<char>>,
    Seq<char>,
> {
    match kind {
        SshAuthKind::IdentityFile => if identity_path is None || trimmed(identity_path->0).len()
            == 0 {
            Err("identity_path is required when auth_kind=identity_file"@)
        } else if !is_absolute_path(trimmed(identity_path->0)) {
            Err(
                "identity_path must be an absolute path: identity_path="@ + trimmed(
                    identity_path->0,
                ),
            )
        } else {
            Ok(Some(trimmed(identity_path->0)))
        },
        _ => Ok(None),
    }
}

/// Why a connection is refused, if it is.
pub open spec fn connect_refusal(
    rules: SshRules,
    config: SshConfigText,
    target: super::model::TargetText,
    kind: SshAuthKind,
    identity_path: Option<Seq<char>>,
) -> Option<Seq<char>> {
    if target_refusal(rules, target.host, target.user, target.port) is Some {
        target_refusal(rules, target.host, target.user, target.port)
    } else if listed_target_refusal(config, target) is Some {
        listed_target_refusal(config, target)
    } else if listed_auth_refusal(config, kind, target.host_alias) is Some {
        listed_auth_refusal(config, kind, target.host_alias)
    } else {
        match identity_of(kind, identity_path) {
            Err(why) => Some(why),
            Ok(_) => None,
        }
    }
}

/// Whether a local mount point is a managed one.
pub open spec fn is_managed(config: SshConfigText, local_path: Seq<char>) -> bool {
    config.managed_mount_root is Some && lies_within(local_path, config.managed_mount_root->0)
}

/// Why a mount is refused, if it is.
pub open spec fn mount_refusal(
    rules: SshRules,
    config: SshConfigText,
    local_path: Seq<char>,
    remote_path: Seq<char>,
) -> Option<Seq<char>> {
    let remote = trimmed(remote_path);
    if mount_point_refusal(rules, local_path) is Some {
        mount_point_refusal(rules, local_path)
    } else if remote.len() == 0 || !"/"@.is_prefix_of(remote) {
        Some("remote_path must be an absolute path: remote_path="@ + remote_path)
    } else if is_managed(config, local_path) || (config.allow_explicit_mount_paths && within_any(
        local_path,
        config.allowed_mount_roots,
    )) {
        None
    } else {
        Some(
            "mount local_path is outside allowed managed/controlled roots: local_path="@
                + local_path + " managed_mount_root="@ + debug_opt(config.managed_mount_root)
                + " allow_explicit_mount_paths="@ + bool_text(config.allow_explicit_mount_paths)
                + (" allowed_mount_roots="@ + debug_list(config.allowed_mount_roots)),
        )
    }
}

/// Whether a text holds white space.
pub open spec fn has_space(s: Seq<char>) -> bool {
    exists|i: int| 0 <= i < s.len() && is_space(#[trigger] s[i])
}

/// Why a port of a tunnel is refused, if it is.
pub open spec fn tunnel_port_refusal(config: SshConfigText, which: Seq<char>, port: u16) -> Option<
    Seq<char>,
> {
    if port < config.port_min || port > config.port_max {
        Some(
            "ssh tunnel "@ + which + " is outside allowed ssh policy range: "@ + which + "="@
                + decimal_text(port as nat) + (" port_min="@ + decimal_text(config.port_min as nat)
                + " port_max="@ + decimal_text(config.port_max as nat)),
        )
    } else {
        None
    }
}

/// Why a tunnel is refused, if it is. A local port of zero leaves the choice
/// open.
pub open spec fn tunnel_refusal(
    config: SshConfigText,
    bind_host: Seq<char>,
    local_port: u16,
    remote_host: Seq<char>,
    remote_port: u16,
) -> Option<Seq<char>> {
    let bind = trimmed(bind_host);
    let remote = trimmed(remote_host);
    if bind.len() == 0 {
        Some("ssh tunnel bind_host cannot be empty"@)
    } else if !is_loopback(bind) {
        Some("ssh tunnel bind_host is not allowed by policy: bind_host="@ + bind)
    } else if remote.len() == 0 {
        Some("ssh tunnel remote_host cannot be empty"@)
    } else if has_space(remote) {
        Some("ssh tunnel remote_host cannot contain whitespace: remote_host="@ + remote)
    } else if remote.contains(':') {
        Some(
            "ssh tunnel remote_host must be a plain host token for TCP forwarding: remote_host="@
                + remote,
        )
    } else if local_port != 0 && tunnel_port_refusal(config, "local_port"@, local_port) is Some {
        tunnel_port_refusal(config, "local_port"@, local_port)
    } else {
        tunnel_port_refusal(config, "remote_port"@, remote_port)
    }
}

/// Checks what is asked of SSH.
#[derive(Debug, PartialEq, Eq)]
pub struct SshGuard {
    policy: SshPolicy,
}

impl SshGuard {
    /// The rules that the guard keeps.
    pub closed spec fn view(&self) -> SshRules {
        self.policy@
    }

    /// A guard that keeps a policy.
    pub fn new(policy: SshPolicy) -> (r: Self)
        ensures
            r@ == policy@,
    {
        SshGuard { policy }
    }

    /// The policy that the guard keeps.
    pub fn policy(&self) -> (r: &SshPolicy)
        ensures
            r@ == self@,
    {
        &self.policy
    }

    /// Checks a target against the policy.
    pub fn validate_connect_target(&self, target: &SshTarget) -> (r: Result<(), Failure>)
        ensures
            agrees(r, target_refusal(self@, target@.host, target@.user, target@.port)),
    {
        self.policy.validate_target(target.host.as_str(), opt_str(&target.user), target.port)
    }

    /// Checks a connection.
    pub fn validate_connect_request(
        &self,
        config: &SshConfig,
        input: SshConnectValidationInput<'_>,
    ) -> (r: Result<SshConnectValidationResult, Failure>)
        ensures
            ({
                let identity = match input.identity_path {
                    Some(p) => Some(p@),
                    None => None,
                };
                let refusal = connect_refusal(
                    self@,
                    config@,
                    input.target@,
                    input.auth_kind,
                    identity,
                );
                match r {
                    Ok(v) => {
                        &&& refusal is None
                        &&& v.auth_kind == input.auth_kind
                        &&& identity_of(input.auth_kind, identity) == Ok::<
                            Option<Seq<char>>,
                            Seq<char>,
                        >(opt_text(v.identity_path))
                    },
                    Err(e) => refusal == Some(e@),
                }
            }),
    {
        match self.validate_connect_target(input.target) {
            Ok(_) => {},
            Err(e) => {
                return Err(e);
            },
        }
        match self.validate_host_user_port(config, input.target) {
            Ok(_) => {},
            Err(e) => {
                return Err(e);
            },
        }
        match self.validate_auth_kind(config, input.auth_kind, input.target) {
            Ok(_) => {},
            Err(e) => {
                return Err(e);
            },
        }
        match validate_identity_path(input.auth_kind, input.identity_path) {
            Ok(identity_path) => Ok(
                SshConnectValidationResult { auth_kind: input.auth_kind, identity_path },
            ),
            Err(e) => Err(e),
        }
    }

    /// Checks a local mount point against the policy.
    pub fn validate_mount_local_path(&self, local_path: &str) -> (r: Result<(), Failure>)
        ensures
            agrees(r, mount_point_refusal(self@, local_path@)),
    {
        self.policy.validate_local_mount_path(local_path)
    }

    /// Checks a mount.
    pub fn validate_mount_request(
        &self,
        config: &SshConfig,
        input: SshMountValidationInput<'_>,
    ) -> (r: Result<SshMountValidationResult, Failure>)
        ensures
            match r {
                Ok(v) => {
                    &&& mount_refusal(self@, config@, input.local_path@, input.remote_path@) is None
                    &&& v.local_path@ == input.local_path@
                    &&& v.remote_path@ == trimmed(input.remote_path@)
                    &&& v.is_managed_path == is_managed(config@, input.local_path@)
                },
                Err(e) => mount_refusal(self@, config@, input.local_path@, input.remote_path@)
                    == Some(e@),
            },
    {
        match self.validate_mount_local_path(input.local_path) {
            Ok(_) => {},
            Err(e) => {
                return Err(e);
            },
        }
        let remote = trim(input.remote_path);
        if remote.is_empty() || !starts_with(remote, "/") {
            return Err(
                Failure::new(
                    cat2(
                        "remote_path must be an absolute path: remote_path=",
                        input.remote_path,
                    ),
                ),
            );
        }
        let managed = match &config.managed_mount_root {
            Some(root) => is_within(input.local_path, root.as_str()),
            None => false,
        };
        let controlled = within_one_of(input.local_path, &config.allowed_mount_roots);
        if !(managed || (config.allow_explicit_mount_paths && controlled)) {
            let root = debug_option(opt_str(&config.managed_mount_root));
            let roots = debug_strings(&config.allowed_mount_roots);
            let head = cat6(
                "mount local_path is outside allowed managed/controlled roots: local_path=",
                input.local_path,
                " managed_mount_root=",
                root.as_str(),
                " allow_explicit_mount_paths=",
                bool_str(config.allow_explicit_mount_paths),
            );
            let tail = cat2(" allowed_mount_roots=", roots.as_str());
            return Err(Failure::new(cat2(head.as_str(), tail.as_str())));
        }
        Ok(
            SshMountValidationResult {
                local_path: input.local_path.to_owned(),
                remote_path: remote.to_owned(),
                is_managed_path: managed,
            },
        )
    }

    /// Checks a tunnel.
    pub fn validate_tunnel_request(
        &self,
        config: &SshConfig,
        input: SshTunnelValidationInput<'_>,
    ) -> (r: Result<SshTunnelValidationResult, Failure>)
        ensures
            ({
                let refusal = tunnel_refusal(
                    config@,
                    input.bind_host@,
                    input.local_port,
                    input.remote_host@,
                    input.remote_port,
                );
                match r {
                    Ok(v) => {
                        &&& refusal is None
                        &&& v.bind_host@ == trimmed(input.bind_host@)
                        &&& v.local_port == input.local_port
                        &&& v.remote_host@ == trimmed(input.remote_host@)
                        &&& v.remote_port == input.remote_port
                    },
                    Err(e) => refusal == Some(e@),
                }
            }),
    {
        let bind_host = trim(input.bind_host);
        if bind_host.is_empty() {
            return Err(Failure::new("ssh tunnel bind_host cannot be empty".to_owned()));
        }
        match self.policy.validate_tunnel_bind_host(bind_host) {
            Ok(_) => {},
            Err(e) => {
                return Err(e);
            },
        }
        let remote_host = trim(input.remote_host);
        if remote_host.is_empty() {
            return Err(Failure::new("ssh tunnel remote_host cannot be empty".to_owned()));
        }
        if contains_space(remote_host) {
            return Err(
                Failure::new(
                    cat2(
                        "ssh tunnel remote_host cannot contain whitespace: remote_host=",
                        remote_host,
                    ),
                ),
            );
        }
        if contains_char(remote_host, ':') {
            return Err(
                Failure::new(
                    cat2(
                        "ssh tunnel remote_host must be a plain host token for TCP forwarding: remote_host=",
                        remote_host,
                    ),
                ),
            );
        }
        if input.local_port != 0 {
            match validate_tunnel_port(config, "local_port", input.local_port) {
                Ok(_) => {},
                Err(e) => {
                    return Err(e);
                },
            }
        }
        match validate_tunnel_port(config, "remote_port", input.remote_port) {
            Ok(_) => {},
            Err(e) => {
                return Err(e);
            },
        }
        Ok(
            SshTunnelValidationResult {
                bind_host: bind_host.to_owned(),
                local_port: input.local_port,
                remote_host: remote_host.to_owned(),
                remote_port: input.remote_port,
            },
        )
    }

    fn validate_host_user_port(&self, config: &SshConfig, target: &SshTarget) -> (r: Result<
        (),
        Failure,
    >)
        ensures
            agrees(r, listed_target_refusal(config@, target@)),
    {
        let host = trim(target.host.as_str());
        let host_alias = match &target.host_alias {
            Some(a) => trim(a.as_str()),
            None => trim(""),
        };
        let user = match &target.user {
            Some(u) => trim(u.as_str()),
            None => trim(""),
        };
        let port: u16 = match target.port {
            Some(p) => p,
            None => super::policy::DEFAULT_SSH_PORT,
        };
        if contains_ci(&config.denied_hosts, host) || (!host_alias.is_empty() && contains_ci(
            &config.denied_hosts,
            host_alias,
        )) {
            return Err(
                Failure::new(
                    cat4(
                        "target host is blocked by ssh policy: host=",
                        host,
                        " host_alias=",
                        host_alias,
                    ),
                ),
            );
        }
        if config.allowed_hosts.len() > 0 && !contains_ci(&config.allowed_hosts, host) && (
        host_alias.is_empty() || !contains_ci(&config.allowed_hosts, host_alias)) {
            return Err(
                Failure::new(
                    cat4(
                        "target host is not allowed by ssh policy: host=",
                        host,
                        " host_alias=",
                        host_alias,
                    ),
                ),
            );
        }
        if config.allowed_users.len() > 0 && (user.is_empty() || !contains_ci(
            &config.allowed_users,
            user,
        )) {
            return Err(
                Failure::new(
                    cat4(
                        "target user is not allowed by ssh policy: user=",
                        user,
                        " host=",
                        host,
                    ),
                ),
            );
        }
        if port < config.port_min || port > config.port_max {
            let p = decimal(port as u64);
            let min = decimal(config.port_min as u64);
            let max = decimal(config.port_max as u64);
            let head = cat6(
                "target port is outside allowed ssh policy range: port=",
                p.as_str(),
                " port_min=",
                min.as_str(),
                " port_max=",
                max.as_str(),
            );
            let tail = cat2(" host=", host);
            return Err(Failure::new(cat2(head.as_str(), tail.as_str())));
        }
        Ok(())
    }

    fn validate_auth_kind(
        &self,
        config: &SshConfig,
        auth_kind: SshAuthKind,
        target: &SshTarget,
    ) -> (r: Result<(), Failure>)
        ensures
            agrees(r, listed_auth_refusal(config@, auth_kind, target@.host_alias)),
    {
        if config.allowed_auth_kinds.len() == 0 {
            return Ok(());
        }
        let key = auth_kind.as_str();
        if !contains_ci(&config.allowed_auth_kinds, key) {
            let kinds = debug_strings(&config.allowed_auth_kinds);
            let alias = debug_option(opt_str(&target.host_alias));
            return Err(
                Failure::new(
                    cat6(
                        "ssh auth kind is blocked by policy: auth_kind=",
                        key,
                        " allowed_auth_kinds=",
                        kinds.as_str(),
                        " host_alias=",
                        alias.as_str(),
                    ),
                ),
            );
        }
        Ok(())
    }
}

fn validate_tunnel_port(config: &SshConfig, which: &str, port: u16) -> (r: Result<(), Failure>)
    ensures
        agrees(r, tunnel_port_refusal(config@, which@, port)),
{
    if port < config.port_min || port > config.port_max {
        let p = decimal(port as u64);
        let min = decimal(config.port_min as u64);
        let max = decimal(config.port_max as u64);
        let head = cat6(
            "ssh tunnel ",
            which,
            " is outside allowed ssh policy range: ",
            which,
            "=",
            p.as_str(),
        );
        let tail = cat4(" port_min=", min.as_str(), " port_max=", max.as_str());
        return Err(Failure::new(cat2(head.as_str(), tail.as_str())));
    }
    Ok(())
}

/// The identity file of a connection.
pub fn validate_identity_path(auth_kind: SshAuthKind, identity_path: Option<&str>) -> (r: Result<
    Option<String>,
    Failure,
>)
    ensures
        ({
            let identity = match identity_path {
                Some(p) => Some(p@),
                None => None,
            };
            match r {
                Ok(p) => identity_of(auth_kind, identity) == Ok::<Option<Seq<char>>, Seq<char>>(
                    opt_text(p),
                ),
                Err(e) => identity_of(auth_kind, identity) == Err::<Option<Seq<char>>, Seq<char>>(
                    e@,
                ),
            }
        }),
{
    match auth_kind {
        SshAuthKind::IdentityFile => {
            let path = match identity_path {
                Some(p) => trim(p),
                None => {
                    return Err(
                        Failure::new(
                            "identity_path is required when auth_kind=identity_file".to_owned(),
                        ),
                    );
                },
            };
            if path.is_empty() {
                return Err(
                    Failure::new(
                        "identity_path is required when auth_kind=identity_file".to_owned(),
                    ),
                );
            }
            if !is_absolute(path) {
                return Err(
                    Failure::new(
                        cat2("identity_path must be an absolute path: identity_path=", path),
                    ),
                );
            }
            Ok(Some(path.to_owned()))
        },
        _ => Ok(None),
    }
}

/// Whether a text stands in a list, but for the case of ASCII letters and outer
/// white space.
pub fn contains_ci(items: &Vec<String>, candidate: &str) -> (r: bool)
    ensures
        r == listed(texts(items@), candidate@),
{
    let wanted = lowercase(trim(candidate));
    let mut i: usize = 0;
    while i < items.len()
        invariant
            i <= items@.len(),
            wanted@ == lowered(trimmed(candidate@)),
            forall|k: int|
                0 <= k < i ==> lowered(trimmed(#[trigger] texts(items@)[k])) != wanted@,
        decreases items@.len() - i,
    {
        if lowercase(trim(items[i].as_str())) == wanted {
            assert(lowered(trimmed(texts(items@)[i as int])) == wanted@);
            return true;
        }
        i = i + 1;
    }
    false
}

fn contains_space(s: &str) -> (r: bool)
    ensures
        r == has_space(s@),
{
    let v = chars_of(s);
    let mut i: usize = 0;
    while i < v.len()
        invariant
            i <= v@.len(),
            v@ == s@,
            forall|k: int| 0 <= k < i ==> !is_space(#[trigger] v@[k]),
        decreases v@.len() - i,
    {
        if space_char(v[i]) {
            assert(is_space(s@[i as int]));
            return true;
        }
        i = i + 1;
    }
    false
}

/// A tunnel that passes listens on the loopback interface only.
pub proof fn law_tunnels_listen_on_loopback(
    config: SshConfigText,
    bind_host: Seq<char>,
    local_port: u16,
    remote_host: Seq<char>,
    remote_port: u16,
)
    requires
        tunnel_refusal(config, bind_host, local_port, remote_host, remote_port) is None,
    ensures
        is_loopback(trimmed(bind_host)),
        config.port_min <= remote_port <= config.port_max,
        local_port == 0 || config.port_min <= local_port <= config.port_max,
{
}

/// A text stands in a list where an entry is the same but for case and for white space
/// around either.
pub proof fn law_lists_hold_what_is_the_same_but_for_case(list: Seq<Seq<char>>, s: Seq<char>)
    ensures
        listed(list, s) <==> exists|i: int|
            0 <= i < list.len() && same_but_case(trimmed(#[trigger] list[i]), trimmed(s)),
{
    if listed(list, s) {
        let i = choose|i: int|
            0 <= i < list.len() && lowered(trimmed(#[trigger] list[i])) == lowered(trimmed(s));
        law_lower_case_unites_cases(trimmed(list[i]), trimmed(s));
        assert(same_but_case(trimmed(list[i]), trimmed(s)));
    }
    if exists|i: int|
        0 <= i < list.len() && same_but_case(trimmed(#[trigger] list[i]), trimmed(s)) {
        let i = choose|i: int|
            0 <= i < list.len() && same_but_case(trimmed(#[trigger] list[i]), trimmed(s));
        law_lower_case_unites_cases(trimmed(list[i]), trimmed(s));
        assert(lowered(trimmed(list[i])) == lowered(trimmed(s)));
    }
}

/// A connection passes exactly where its target passes the policy; neither its host nor
/// its alias is denied; one of them, its user and its way of authentication are allowed
/// where any are; its port is in range; and the identity file that it needs is named by
/// an absolute path.
pub proof fn law_connections_pass_as_configured(
    rules: SshRules,
    config: SshConfigText,
    target: super::model::TargetText,
    kind: SshAuthKind,
    identity_path: Option<Seq<char>>,
)
    ensures
        connect_refusal(rules, config, target, kind, identity_path) is None <==> {
            let has_alias = target.host_alias is Some && trimmed(target.host_alias->0).len() > 0;
            let has_user = target.user is Some && trimmed(target.user->0).len() > 0;
            let port: int = if target.port is Some {
                target.port->0 as int
            } else {
                22
            };
            let name = match kind {
                SshAuthKind::SshAgent => "ssh_agent"@,
                SshAuthKind::IdentityFile => "identity_file"@,
                SshAuthKind::ConfigAlias => "config_alias"@,
            };
            &&& target_refusal(rules, target.host, target.user, target.port) is None
            &&& !listed(config.denied_hosts, target.host)
            &&& has_alias ==> !listed(config.denied_hosts, target.host_alias->0)
            &&& config.allowed_hosts.len() == 0 || listed(config.allowed_hosts, target.host) || (
            has_alias && listed(config.allowed_hosts, target.host_alias->0))
            &&& config.allowed_users.len() == 0 || (has_user && listed(
                config.allowed_users,
                target.user->0,
            ))
            &&& config.port_min <= port <= config.port_max
            &&& config.allowed_auth_kinds.len() == 0 || listed(config.allowed_auth_kinds, name)
            &&& kind == SshAuthKind::IdentityFile ==> identity_path is Some && trimmed(
                identity_path->0,
            ).len() > 0 && trimmed(identity_path->0)[0] == '/'
        },
        identity_of(kind, identity_path) matches Ok(file) ==> {
            &&& kind == SshAuthKind::IdentityFile ==> file == Some(trimmed(identity_path->0))
            &&& kind != SshAuthKind::IdentityFile ==> file is None
        },
{
    reveal_strlit("");
    lemma_listed_trimmed(config.denied_hosts, target.host);
    lemma_listed_trimmed(config.allowed_hosts, target.host);
    assert(trimmed(""@).len() == 0);
    if target.host_alias is Some {
        lemma_listed_trimmed(config.denied_hosts, target.host_alias->0);
        lemma_listed_trimmed(config.allowed_hosts, target.host_alias->0);
    }
    if target.user is Some {
        lemma_listed_trimmed(config.allowed_users, target.user->0);
    }
}

proof fn lemma_listed_trimmed(list: Seq<Seq<char>>, s: Seq<char>)
    ensures
        listed(list, trimmed(s)) == listed(list, s),
{
    lemma_trimmed_twice(s);
}

/// A mount passes exactly where its mount point passes the policy, its remote path is
/// absolute, and the mount point lies below the managed root, or below an allowed root
/// where explicit paths are allowed.
pub proof fn law_mounts_pass_as_configured(
    rules: SshRules,
    config: SshConfigText,
    local_path: Seq<char>,
    remote_path: Seq<char>,
)
    ensures
        mount_refusal(rules, config, local_path, remote_path) is None <==> {
            &&& mount_point_refusal(rules, local_path) is None
            &&& trimmed(remote_path).len() > 0 && trimmed(remote_path)[0] == '/'
            &&& (config.managed_mount_root is Some && lies_within(
                local_path,
                config.managed_mount_root->0,
            )) || (config.allow_explicit_mount_paths && exists|i: int|
                0 <= i < config.allowed_mount_roots.len() && lies_within(
                    local_path,
                    #[trigger] config.allowed_mount_roots[i],
                ))
        },
        is_managed(config, local_path) <==> config.managed_mount_root is Some && lies_within(
            local_path,
            config.managed_mount_root->0,
        ),
{
    let t = trimmed(remote_path);
    reveal_strlit("/");
    if t.len() > 0 && t[0] == '/' {
        assert("/"@ =~= t.take(1));
    }
    if "/"@.is_prefix_of(t) {
        assert(t[0] == "/"@[0]);
    }
}

/// A tunnel passes exactly where it listens on this host alone, its remote host is one
/// plain word, and its ports are in range, but for a local port of zero, which leaves the
/// choice open.
pub proof fn law_tunnels_pass_as_configured(
    config: SshConfigText,
    bind_host: Seq<char>,
    local_port: u16,
    remote_host: Seq<char>,
    remote_port: u16,
)
    ensures
        tunnel_refusal(config, bind_host, local_port, remote_host, remote_port) is None <==> {
            let bind = trimmed(bind_host);
            let remote = trimmed(remote_host);
            &&& bind == "127.0.0.1"@ || same_but_case(bind, "localhost"@) || bind == "::1"@
            &&& remote.len() > 0
            &&& forall|i: int|
                0 <= i < remote.len() ==> !is_space(#[trigger] remote[i]) && remote[i] != ':'
            &&& local_port == 0 || config.port_min <= local_port <= config.port_max
            &&& config.port_min <= remote_port <= config.port_max
        },
{
    let bind = trimmed(bind_host);
    let remote = trimmed(remote_host);
    law_loopback_hosts(bind);
    reveal_strlit("127.0.0.1");
    reveal_strlit("localhost");
    reveal_strlit("::1");
    if remote.contains(':') {
        let i = remote.index_of(':');
        assert(remote[i] == ':');
    }
    if has_space(remote) {
        let i = choose|i: int| 0 <= i < remote.len() && is_space(#[trigger] remote[i]);
        assert(is_space(remote[i]));
    }
}

} // verus!
