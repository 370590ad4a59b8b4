//! What is known of SSH targets, connections, mounts and tunnels.
use crate::outside::{debug_quoted, is_new_id, quote_debug, random_uuid};
use crate::text::{blank, cat2, cat3, cat4, clone_opt, decimal, decimal_text, is_blank, opt_text, same, same_opt};
use crate::timestamp::Timestamp;
use vstd::prelude::*;

verus! {

/// The identifier of an SSH connection.
#[derive(Debug, PartialEq, Eq, PartialOrd, Ord, Hash)]
pub struct SshConnectionId(String);

impl Clone for SshConnectionId {
    fn clone(&self) -> (r: Self)
        ensures
            r == *self,
    {
        SshConnectionId(self.0.clone())
    }
}

impl From<String> for SshConnectionId {
    fn from(value: String) -> (r: Self) {
        SshConnectionId(value)
    }
}

impl vstd::std_specs::convert::FromSpecImpl<String> for SshConnectionId {
    open spec fn obeys_from_spec() -> bool {
        true
    }

    closed spec fn from_spec(value: String) -> Self {
        SshConnectionId(value)
    }
}

impl SshConnectionId {
    /// The text of the identifier.
    pub closed spec fn view(&self) -> Seq<char> {
        self.0@
    }

    /// An identifier made from a string has the text of that string.
    pub proof fn lemma_from_text(value: String)
        ensures
            <Self as vstd::std_specs::convert::FromSpec<String>>::from_spec(value)@ == value@,
    {
    }

    /// A new identifier: a fixed prefix and 32 random hexadecimal digits.
    pub fn new() -> (r: Self)
        ensures
            is_new_id("sshconn_"@, r@),
    {
        let suffix = random_uuid();
        let r = SshConnectionId(cat2("sshconn_", suffix.as_str()));
        assert(r@.skip("sshconn_"@.len() as int) =~= suffix@);
        r
    }

    /// The identifier with the given text.
    pub fn of(value: &str) -> (r: Self)
        ensures
            r@ == value@,
    {
        SshConnectionId(value.to_owned())
    }

    /// Reads an identifier, which is not blank.
    pub fn parse(value: &str) -> (r: Result<Self, &'static str>)
        ensures
            match r {
                Ok(id) => !is_blank(value@) && id@ == value@,
                Err(e) => is_blank(value@) && e@ == "ssh connection id cannot be empty"@,
            },
    {
        if blank(value) {
            Err("ssh connection id cannot be empty")
        } else {
            Ok(SshConnectionId(value.to_owned()))
        }
    }

    /// The text of the identifier.
    pub fn as_str(&self) -> (r: &str)
        ensures
            r@ == self@,
    {
        self.0.as_str()
    }

    /// Whether two identifiers are the same.
    pub fn same_as(&self, other: &Self) -> (r: bool)
        ensures
            r == (self@ == other@),
    {
        same(self.0.as_str(), other.0.as_str())
    }
}

/// The identifier of an SSH mount.
#[derive(Debug, PartialEq, Eq, PartialOrd, Ord, Hash)]
pub struct SshMountId(String);

impl Clone for SshMountId {
    fn clone(&self) -> (r: Self)
        ensures
            r == *self,
    {
        SshMountId(self.0.clone())
    }
}

impl From<String> for SshMountId {
    fn from(value: String) -> (r: Self) {
        SshMountId(value)
    }
}

impl vstd::std_specs::convert::FromSpecImpl<String> for SshMountId {
    open spec fn obeys_from_spec() -> bool {
        true
    }

    closed spec fn from_spec(value: String) -> Self {
        SshMountId(value)
    }
}

impl SshMountId {
    /// The text of the identifier.
    pub closed spec fn view(&self) -> Seq<char> {
        self.0@
    }

    /// An identifier made from a string has the text of that string.
    pub proof fn lemma_from_text(value: String)
        ensures
            <Self as vstd::std_specs::convert::FromSpec<String>>::from_spec(value)@ == value@,
    {
    }

    /// A new identifier: a fixed prefix and 32 random hexadecimal digits.
    pub fn new() -> (r: Self)
        ensures
            is_new_id("sshmnt_"@, r@),
    {
        let suffix = random_uuid();
        let r = SshMountId(cat2("sshmnt_", suffix.as_str()));
        assert(r@.skip("sshmnt_"@.len() as int) =~= suffix@);
        r
    }

    /// The identifier with the given text.
    pub fn of(value: &str) -> (r: Self)
        ensures
            r@ == value@,
    {
        SshMountId(value.to_owned())
    }

    /// Reads an identifier, which is not blank.
    pub fn parse(value: &str) -> (r: Result<Self, &'static str>)
        ensures
            match r {
                Ok(id) => !is_blank(value@) && id@ == value@,
                Err(e) => is_blank(value@) && e@ == "ssh mount id cannot be empty"@,
            },
    {
        if blank(value) {
            Err("ssh mount id cannot be empty")
        } else {
            Ok(SshMountId(value.to_owned()))
        }
    }

    /// The text of the identifier.
    pub fn as_str(&self) -> (r: &str)
        ensures
            r@ == self@,
    {
        self.0.as_str()
    }

    /// Whether two identifiers are the same.
    pub fn same_as(&self, other: &Self) -> (r: bool)
        ensures
            r == (self@ == other@),
    {
        same(self.0.as_str(), other.0.as_str())
    }
}

/// The identifier of an SSH tunnel.
#[derive(Debug, PartialEq, Eq, PartialOrd, Ord, Hash)]
pub struct SshTunnelId(String);

impl Clone for SshTunnelId {
    fn clone(&self) -> (r: Self)
        ensures
            r == *self,
    {
        SshTunnelId(self.0.clone())
    }
}

impl From<String> for SshTunnelId {
    fn from(value: String) -> (r: Self) {
        SshTunnelId(value)
    }
}

impl vstd::std_specs::convert::FromSpecImpl<String> for SshTunnelId {
    open spec fn obeys_from_spec() -> bool {
        true
    }

    closed spec fn from_spec(value: String) -> Self {
        SshTunnelId(value)
    }
}

impl SshTunnelId {
    /// The text of the identifier.
    pub closed spec fn view(&self) -> Seq<char> {
        self.0@
    }

    /// An identifier made from a string has the text of that string.
    pub proof fn lemma_from_text(value: String)
        ensures
            <Self as vstd::std_specs::convert::FromSpec<String>>::from_spec(value)@ == value@,
    {
    }

    /// A new identifier: a fixed prefix and 32 random hexadecimal digits.
    pub fn new() -> (r: Self)
        ensures
            is_new_id("sshtun_"@, r@),
    {
        let suffix = random_uuid();
        let r = SshTunnelId(cat2("sshtun_", suffix.as_str()));
        assert(r@.skip("sshtun_"@.len() as int) =~= suffix@);
        r
    }

    /// The identifier with the given text.
    pub fn of(value: &str) -> (r: Self)
        ensures
            r@ == value@,
    {
        SshTunnelId(value.to_owned())
    }

    /// Reads an identifier, which is not blank.
    pub fn parse(value: &str) -> (r: Result<Self, &'static str>)
        ensures
            match r {
                Ok(id) => !is_blank(value@) && id@ == value@,
                Err(e) => is_blank(value@) && e@ == "ssh tunnel id cannot be empty"@,
            },
    {
        if blank(value) {
            Err("ssh tunnel id cannot be empty")
        } else {
            Ok(SshTunnelId(value.to_owned()))
        }
    }

    /// The text of the identifier.
    pub fn as_str(&self) -> (r: &str)
        ensures
            r@ == self@,
    {
        self.0.as_str()
    }

    /// Whether two identifiers are the same.
    pub fn same_as(&self, other: &Self) -> (r: bool)
        ensures
            r == (self@ == other@),
    {
        same(self.0.as_str(), other.0.as_str())
    }
}

/// Where a connection leads.
#[derive(Debug, PartialEq, Eq)]
pub struct SshTarget {
    pub host_alias: Option<String>,
    pub host: String,
    pub user: Option<String>,
    pub port: Option<u16>,
}

/// The content of a target.
pub struct TargetText {
    pub host_alias: Option<Seq<char>>,
    pub host: Seq<char>,
    pub user: Option<Seq<char>>,
    pub port: Option<u16>,
}

impl Clone for SshTarget {
    fn clone(&self) -> (r: Self)
        ensures
            r == *self,
    {
        SshTarget {
            host_alias: clone_opt(&self.host_alias),
            host: self.host.clone(),
            user: clone_opt(&self.user),
            port: self.port,
        }
    }
}

/// How a target is named to people: the user where there is one, the alias or
/// else the host, and the port where there is one.
pub open spec fn target_summary(t: TargetText) -> Seq<char> {
    let host = match t.host_alias {
        Some(alias) => alias,
        None => t.host,
    };
    let authority = match t.user {
        Some(user) => if user.len() > 0 {
            user + "@"@ + host
        } else {
            host
        },
        None => host,
    };
    match t.port {
        Some(port) => authority + ":"@ + decimal_text(port as nat),
        None => authority,
    }
}

impl SshTarget {
    /// What the target holds.
    pub open spec fn view(&self) -> TargetText {
        TargetText {
            host_alias: opt_text(self.host_alias),
            host: self.host@,
            user: opt_text(self.user),
            port: self.port,
        }
    }

    /// How the target is named to people.
    pub fn summary(&self) -> (r: String)
        ensures
            r@ == target_summary(self@),
    {
        let host = match &self.host_alias {
            Some(alias) => alias.as_str(),
            None => self.host.as_str(),
        };
        let authority = match &self.user {
            Some(user) => if user.as_str().is_empty() {
                host.to_owned()
            } else {
                cat3(user.as_str(), "@", host)
            },
            None => host.to_owned(),
        };
        match self.port {
            Some(port) => {
                let port_text = decimal(port as u64);
                cat3(authority.as_str(), ":", port_text.as_str())
            },
            None => authority,
        }
    }

    /// Whether two targets are the same.
    pub fn same_as(&self, other: &SshTarget) -> (r: bool)
        ensures
            r == (self@ == other@),
    {
        let same_port = match (self.port, other.port) {
            (Some(a), Some(b)) => a == b,
            (None, None) => true,
            _ => false,
        };
        same_opt(&self.host_alias, &other.host_alias) && same(
            self.host.as_str(),
            other.host.as_str(),
        ) && same_opt(&self.user, &other.user) && same_port
    }
}

/// How a connection is authenticated.
#[derive(Debug, Clone, Copy, PartialEq, Eq, Structural)]
pub enum SshAuthKind {
    SshAgent,
    IdentityFile,
    ConfigAlias,
}

/// The written form of an authentication kind.
pub open spec fn auth_kind_text(kind: SshAuthKind) -> Seq<char> {
    match kind {
        SshAuthKind::SshAgent => "ssh_agent"@,
        SshAuthKind::IdentityFile => "identity_file"@,
        SshAuthKind::ConfigAlias => "config_alias"@,
    }
}

impl SshAuthKind {
    /// The written form of the kind.
    pub fn as_str(&self) -> (r: &'static str)
        ensures
            r@ == auth_kind_text(*self),
    {
        match self {
            SshAuthKind::SshAgent => "ssh_agent",
            SshAuthKind::IdentityFile => "identity_file",
            SshAuthKind::ConfigAlias => "config_alias",
        }
    }
}

/// Where a connection stands in its life.
#[derive(Debug, Clone, Copy, PartialEq, Eq, Structural)]
pub enum SshConnectionStatus {
    Connecting,
    Ready,
    Degraded,
    Disconnecting,
    Disconnected,
    Failed,
}

/// The name of a connection status.
pub open spec fn connection_status_name(status: SshConnectionStatus) -> Seq<char> {
    match status {
        SshConnectionStatus::Connecting => "Connecting"@,
        SshConnectionStatus::Ready => "Ready"@,
        SshConnectionStatus::Degraded => "Degraded"@,
        SshConnectionStatus::Disconnecting => "Disconnecting"@,
        SshConnectionStatus::Disconnected => "Disconnected"@,
        SshConnectionStatus::Failed => "Failed"@,
    }
}

impl SshConnectionStatus {
    /// The name of the status.
    pub fn name(&self) -> (r: &'static str)
        ensures
            r@ == connection_status_name(*self),
    {
        match self {
            SshConnectionStatus::Connecting => "Connecting",
            SshConnectionStatus::Ready => "Ready",
            SshConnectionStatus::Degraded => "Degraded",
            SshConnectionStatus::Disconnecting => "Disconnecting",
            SshConnectionStatus::Disconnected => "Disconnected",
            SshConnectionStatus::Failed => "Failed",
        }
    }
}

/// Where a mount stands in its life.
#[derive(Debug, Clone, Copy, PartialEq, Eq, Structural)]
pub enum SshMountStatus {
    Mounting,
    Mounted,
    Unmounting,
    Unmounted,
    Failed,
}

/// What carries a mount.
#[derive(Debug, Clone, Copy, PartialEq, Eq, Structural)]
pub enum SshMountBackend {
    Sshfs,
}

/// What a tunnel forwards.
#[derive(Debug, Clone, Copy, PartialEq, Eq, Structural)]
pub enum SshTunnelKind {
    LocalForward,
}

/// Where a tunnel stands in its life.
#[derive(Debug, Clone, Copy, PartialEq, Eq, Structural)]
pub enum SshTunnelStatus {
    Opening,
    Active,
    Closing,
    Closed,
    Failed,
}

/// What is known of a program on this host.
#[derive(Debug, PartialEq, Eq)]
pub struct SshBinaryCapability {
    pub available: bool,
    pub path: Option<String>,
    pub version: Option<String>,
}

impl Default for SshBinaryCapability {
    fn default() -> (r: Self)
        ensures
            r == (SshBinaryCapability { available: false, path: None, version: None }),
    {
        SshBinaryCapability { available: false, path: None, version: None }
    }
}

impl Clone for SshBinaryCapability {
    fn clone(&self) -> (r: Self)
        ensures
            r == *self,
    {
        SshBinaryCapability {
            available: self.available,
            path: clone_opt(&self.path),
            version: clone_opt(&self.version),
        }
    }
}

/// What is known of the FUSE provider on this host.
#[derive(Debug, PartialEq, Eq)]
pub struct MacFuseCapability {
    pub available: bool,
    pub provider: Option<String>,
    pub version: Option<String>,
}

impl Default for MacFuseCapability {
    fn default() -> (r: Self)
        ensures
            r == (MacFuseCapability { available: false, provider: None, version: None }),
    {
        MacFuseCapability { available: false, provider: None, version: None }
    }
}

impl Clone for MacFuseCapability {
    fn clone(&self) -> (r: Self)
        ensures
            r == *self,
    {
        MacFuseCapability {
            available: self.available,
            provider: clone_opt(&self.provider),
            version: clone_opt(&self.version),
        }
    }
}

/// What this host can do with SSH.
#[derive(Debug, PartialEq, Eq)]
pub struct SshCapabilityView {
    pub platform: String,
    pub ssh: SshBinaryCapability,
    pub sshfs: SshBinaryCapability,
    pub unmount: SshBinaryCapability,
    pub diskutil: Option<SshBinaryCapability>,
    pub macfuse: Option<MacFuseCapability>,
}

impl Clone for SshCapabilityView {
    fn clone(&self) -> (r: Self)
        ensures
            r == *self,
    {
        SshCapabilityView {
            platform: self.platform.clone(),
            ssh: self.ssh.clone(),
            sshfs: self.sshfs.clone(),
            unmount: self.unmount.clone(),
            diskutil: match &self.diskutil {
                Some(d) => Some(d.clone()),
                None => None,
            },
            macfuse: match &self.macfuse {
                Some(m) => Some(m.clone()),
                None => None,
            },
        }
    }
}

/// `true` or `false`.
pub open spec fn bool_text(b: bool) -> Seq<char> {
    if b {
        "true"@
    } else {
        "false"@
    }
}

/// `true` or `false`.
pub fn bool_str(b: bool) -> (r: &'static str)
    ensures
        r@ == bool_text(b),
{
    if b {
        "true"
    } else {
        "false"
    }
}

/// The debugging form of an optional text.
pub open spec fn debug_opt(o: Option<Seq<char>>) -> Seq<char> {
    match o {
        Some(s) => "Some("@ + debug_quoted(s) + ")"@,
        None => "None"@,
    }
}

/// The debugging form of an optional text.
pub fn debug_option(o: Option<&str>) -> (r: String)
    ensures
        r@ == debug_opt(
            match o {
                Some(s) => Some(s@),
                None => None,
            },
        ),
{
    match o {
        Some(s) => {
            let quoted = quote_debug(s);
            cat3("Some(", quoted.as_str(), ")")
        },
        None => "None".to_owned(),
    }
}

/// The optional string as a slice.
pub fn opt_str(o: &Option<String>) -> (r: Option<&str>)
    ensures
        match r {
            Some(s) => *o is Some && s@ == (*o)->0@,
            None => *o is None,
        },
{
    match o {
        Some(s) => Some(s.as_str()),
        None => None,
    }
}

/// The debugging form of what is known of a program.
pub open spec fn binary_debug(b: SshBinaryCapability) -> Seq<char> {
    "SshBinaryCapability { available: "@ + bool_text(b.available) + ", path: "@ + debug_opt(
        opt_text(b.path),
    ) + (", version: "@ + debug_opt(opt_text(b.version)) + " }"@)
}

/// The debugging form of what is known of the FUSE provider.
pub open spec fn macfuse_debug(m: MacFuseCapability) -> Seq<char> {
    "MacFuseCapability { available: "@ + bool_text(m.available) + ", provider: "@ + debug_opt(
        opt_text(m.provider),
    ) + (", version: "@ + debug_opt(opt_text(m.version)) + " }"@)
}

/// The debugging form of what this host can do.
pub open spec fn capability_debug(c: SshCapabilityView) -> Seq<char> {
    let diskutil = match c.diskutil {
        Some(d) => "Some("@ + binary_debug(d) + ")"@,
        None => "None"@,
    };
    let macfuse = match c.macfuse {
        Some(m) => "Some("@ + macfuse_debug(m) + ")"@,
        None => "None"@,
    };
    ("SshCapabilityView { platform: "@ + debug_quoted(c.platform@) + ", ssh: "@ + binary_debug(
        c.ssh,
    )) + (", sshfs: "@ + binary_debug(c.sshfs) + ", unmount: "@ + binary_debug(c.unmount)) + (
    ", diskutil: "@ + diskutil + ", macfuse: "@ + macfuse) + " }"@
}

impl SshBinaryCapability {
    fn debug_text(&self) -> (r: String)
        ensures
            r@ == binary_debug(*self),
    {
        let path = debug_option(opt_str(&self.path));
        let version = debug_option(opt_str(&self.version));
        let head = cat4(
            "SshBinaryCapability { available: ",
            bool_str(self.available),
            ", path: ",
            path.as_str(),
        );
        let tail = cat3(", version: ", version.as_str(), " }");
        cat2(head.as_str(), tail.as_str())
    }
}

impl MacFuseCapability {
    fn debug_text(&self) -> (r: String)
        ensures
            r@ == macfuse_debug(*self),
    {
        let provider = debug_option(opt_str(&self.provider));
        let version = debug_option(opt_str(&self.version));
        let head = cat4(
            "MacFuseCapability { available: ",
            bool_str(self.available),
            ", provider: ",
            provider.as_str(),
        );
        let tail = cat3(", version: ", version.as_str(), " }");
        cat2(head.as_str(), tail.as_str())
    }
}

impl SshCapabilityView {
    /// The debugging form of what this host can do.
    pub fn debug_text(&self) -> (r: String)
        ensures
            r@ == capability_debug(*self),
    {
        let platform = quote_debug(self.platform.as_str());
        let ssh = self.ssh.debug_text();
        let sshfs = self.sshfs.debug_text();
        let unmount = self.unmount.debug_text();
        let diskutil = match &self.diskutil {
            Some(d) => {
                let inner = d.debug_text();
                cat3("Some(", inner.as_str(), ")")
            },
            None => "None".to_owned(),
        };
        let macfuse = match &self.macfuse {
            Some(m) => {
                let inner = m.debug_text();
                cat3("Some(", inner.as_str(), ")")
            },
            None => "None".to_owned(),
        };
        let a = cat4("SshCapabilityView { platform: ", platform.as_str(), ", ssh: ", ssh.as_str());
        let b = cat4(", sshfs: ", sshfs.as_str(), ", unmount: ", unmount.as_str());
        let c = cat4(", diskutil: ", diskutil.as_str(), ", macfuse: ", macfuse.as_str());
        cat4(a.as_str(), b.as_str(), c.as_str(), " }")
    }
}

/// What is known of a connection. The metadata is the written form of a
/// structured object, empty where there is none.
#[derive(Debug, PartialEq, Eq)]
pub struct SshConnectionSummary {
    pub connection_id: SshConnectionId,
    pub title: Option<String>,
    pub description: Option<String>,
    pub status: SshConnectionStatus,
    pub target: SshTarget,
    pub target_summary: String,
    pub auth_kind: Option<SshAuthKind>,
    pub started_at: Timestamp,
    pub last_used_at: Option<Timestamp>,
    pub active_session_count: usize,
    pub active_mount_count: usize,
    pub metadata: String,
}

impl Clone for SshConnectionSummary {
    fn clone(&self) -> (r: Self)
        ensures
            r == *self,
    {
        SshConnectionSummary {
            connection_id: self.connection_id.clone(),
            title: clone_opt(&self.title),
            description: clone_opt(&self.description),
            status: self.status,
            target: self.target.clone(),
            target_summary: self.target_summary.clone(),
            auth_kind: self.auth_kind,
            started_at: self.started_at,
            last_used_at: self.last_used_at,
            active_session_count: self.active_session_count,
            active_mount_count: self.active_mount_count,
            metadata: self.metadata.clone(),
        }
    }
}

/// What is known of a mount.
#[derive(Debug, PartialEq, Eq)]
pub struct SshMountSummary {
    pub mount_id: SshMountId,
    pub title: Option<String>,
    pub description: Option<String>,
    pub connection_id: SshConnectionId,
    pub target_summary: String,
    pub status: SshMountStatus,
    pub backend: SshMountBackend,
    pub local_path: String,
    pub remote_path: String,
    pub read_only: bool,
    pub mounted_at: Timestamp,
    pub last_error: Option<String>,
}

impl Clone for SshMountSummary {
    fn clone(&self) -> (r: Self)
        ensures
            r == *self,
    {
        SshMountSummary {
            mount_id: self.mount_id.clone(),
            title: clone_opt(&self.title),
            description: clone_opt(&self.description),
            connection_id: self.connection_id.clone(),
            target_summary: self.target_summary.clone(),
            status: self.status,
            backend: self.backend,
            local_path: self.local_path.clone(),
            remote_path: self.remote_path.clone(),
            read_only: self.read_only,
            mounted_at: self.mounted_at,
            last_error: clone_opt(&self.last_error),
        }
    }
}

/// What is known of a tunnel.
#[derive(Debug, PartialEq, Eq)]
pub struct SshTunnelSummary {
    pub tunnel_id: SshTunnelId,
    pub title: Option<String>,
    pub description: Option<String>,
    pub connection_id: SshConnectionId,
    pub target_summary: String,
    pub kind: SshTunnelKind,
    pub status: SshTunnelStatus,
    pub bind_host: String,
    pub local_port: u16,
    pub remote_host: String,
    pub remote_port: u16,
    pub started_at: Timestamp,
    pub last_error: Option<String>,
    pub pid: Option<u32>,
}

impl Clone for SshTunnelSummary {
    fn clone(&self) -> (r: Self)
        ensures
            r == *self,
    {
        SshTunnelSummary {
            tunnel_id: self.tunnel_id.clone(),
            title: clone_opt(&self.title),
            description: clone_opt(&self.description),
            connection_id: self.connection_id.clone(),
            target_summary: self.target_summary.clone(),
            kind: self.kind,
            status: self.status,
            bind_host: self.bind_host.clone(),
            local_port: self.local_port,
            remote_host: self.remote_host.clone(),
            remote_port: self.remote_port,
            started_at: self.started_at,
            last_error: clone_opt(&self.last_error),
            pid: self.pid,
        }
    }
}

/// A target is named by its alias, or else by its host, behind the user and `@` where a
/// user is named, and before a colon and the port where one is.
pub proof fn law_targets_are_named_by_their_parts(t: TargetText)
    ensures
        ({
            let has_user = t.user is Some && t.user->0.len() > 0;
            let host = if t.host_alias is Some {
                t.host_alias->0
            } else {
                t.host
            };
            &&& has_user && t.port is Some ==> target_summary(t) == t.user->0 + "@"@ + host + ":"@
                + decimal_text(t.port->0 as nat)
            &&& has_user && t.port is None ==> target_summary(t) == t.user->0 + "@"@ + host
            &&& !has_user && t.port is Some ==> target_summary(t) == host + ":"@ + decimal_text(
                t.port->0 as nat,
            )
            &&& !has_user && t.port is None ==> target_summary(t) == host
        }),
{
}

/// A truth value is written as the word for it.
pub proof fn law_truth_has_two_words(b: bool)
    ensures
        bool_text(b) == "true"@ <==> b,
        bool_text(b) == "false"@ <==> !b,
{
    reveal_strlit("true");
    reveal_strlit("false");
    assert("true"@.len() == 4 && "false"@.len() == 5);
}

} // verus!
