//! The configuration: its defaults, what the environment sets, and where programs
//! are found.
use crate::path::{contains_path, join_path, joined_path, same_path};
use crate::text::{
    blank, cat4, clone_opt, clone_strings, decimal, decimal_text, is_blank,
    law_lower_case_unites_cases, lemma_unsigned_value_bound, lowercase, lowered, opt_text,
    parse_unsigned, same, same_but_case, split, split_on, texts, trim, trimmed, unsigned_value,
    IntParseError,
};
use vstd::prelude::*;

verus! {

/// What is known of the files of this host: its platform, which of the asked
/// paths are files, and the directories of the search path, where there is one.
#[derive(Debug, PartialEq, Eq)]
pub struct HostFiles {
    pub platform: String,
    pub files: Vec<String>,
    pub path_dirs: Option<Vec<String>>,
}

/// Whether a path is known to be a file.
pub open spec fn is_known_file(host: HostFiles, path: Seq<char>) -> bool {
    texts(host.files@).contains(path)
}

impl HostFiles {
    /// Whether a path is known to be a file.
    pub fn is_file(&self, path: &str) -> (r: bool)
        ensures
            r == is_known_file(*self, path@),
    {
        let mut i: usize = 0;
        while i < self.files.len()
            invariant
                i <= self.files@.len(),
                forall|k: int| 0 <= k < i ==> texts(self.files@)[k] != path@,
            decreases self.files@.len() - i,
        {
            if same(self.files[i].as_str(), path) {
                assert(texts(self.files@)[i as int] == path@);
                return true;
            }
            i = i + 1;
        }
        false
    }

    /// Whether this is a macOS host.
    pub fn is_macos(&self) -> (r: bool)
        ensures
            r == (self.platform@ == "macos"@),
    {
        same(self.platform.as_str(), "macos")
    }
}

/// Programs that the configuration knows of.
#[derive(Debug, Clone, Copy, PartialEq, Eq, Structural)]
pub enum Program {
    Ssh,
    Sshfs,
    Umount,
    Diskutil,
}

/// The name of a program.
pub open spec fn program_name(p: Program) -> Seq<char> {
    match p {
        Program::Ssh => "ssh"@,
        Program::Sshfs => "sshfs"@,
        Program::Umount => "umount"@,
        Program::Diskutil => "diskutil"@,
    }
}

/// Where a program is looked for first, in order.
pub open spec fn default_paths(p: Program, macos: bool) -> Seq<Seq<char>> {
    match p {
        Program::Ssh => if macos {
            seq!["/usr/bin/ssh"@, "/opt/homebrew/bin/ssh"@, "/usr/local/bin/ssh"@]
        } else {
            seq!["/usr/bin/ssh"@, "/usr/local/bin/ssh"@]
        },
        Program::Sshfs => if macos {
            seq!["/opt/homebrew/bin/sshfs"@, "/usr/local/bin/sshfs"@, "/usr/bin/sshfs"@]
        } else {
            seq!["/usr/bin/sshfs"@, "/usr/local/bin/sshfs"@]
        },
        Program::Umount => if macos {
            seq!["/sbin/umount"@, "/usr/sbin/umount"@, "/usr/bin/umount"@]
        } else {
            seq!["/usr/bin/umount"@, "/bin/umount"@, "/usr/local/bin/umount"@]
        },
        Program::Diskutil => if macos {
            seq!["/usr/sbin/diskutil"@, "/usr/bin/diskutil"@]
        } else {
            seq![]
        },
    }
}

/// The paths at which the search path would have a program.
pub open spec fn search_paths(dirs: Seq<Seq<char>>, name: Seq<char>) -> Seq<Seq<char>> {
    dirs.map_values(|d: Seq<char>| joined_path(d, name))
}

/// The first of the paths that is a file.
pub open spec fn first_file(paths: Seq<Seq<char>>, host: HostFiles) -> Option<Seq<char>>
    decreases paths.len(),
{
    if paths.len() == 0 {
        None
    } else if is_known_file(host, paths[0]) {
        Some(paths[0])
    } else {
        first_file(paths.drop_first(), host)
    }
}

/// Where a program is: where it was said to be, or at the first of its usual
/// places, or else in the first directory of the search path that has it.
pub open spec fn located(explicit: Option<Seq<char>>, p: Program, host: HostFiles) -> Option<
    Seq<char>,
> {
    if explicit is Some && !is_blank(explicit->0) {
        Some(trimmed(explicit->0))
    } else {
        match first_file(default_paths(p, host.platform@ == "macos"@), host) {
            Some(path) => Some(path),
            None => match host.path_dirs {
                Some(dirs) => first_file(search_paths(texts(dirs@), program_name(p)), host),
                None => None,
            },
        }
    }
}

impl Program {
    /// The name of the program.
    pub fn name(&self) -> (r: &'static str)
        ensures
            r@ == program_name(*self),
    {
        match self {
            Program::Ssh => "ssh",
            Program::Sshfs => "sshfs",
            Program::Umount => "umount",
            Program::Diskutil => "diskutil",
        }
    }

    /// Where the program is looked for first, in order.
    pub fn usual_paths(&self, macos: bool) -> (r: Vec<String>)
        ensures
            texts(r@) == default_paths(*self, macos),
    {
        let mut r: Vec<String> = Vec::new();
        match self {
            Program::Ssh => {
                r.push("/usr/bin/ssh".to_owned());
                if macos {
                    r.push("/opt/homebrew/bin/ssh".to_owned());
                }
                r.push("/usr/local/bin/ssh".to_owned());
            },
            Program::Sshfs => {
                if macos {
                    r.push("/opt/homebrew/bin/sshfs".to_owned());
                    r.push("/usr/local/bin/sshfs".to_owned());
                    r.push("/usr/bin/sshfs".to_owned());
                } else {
                    r.push("/usr/bin/sshfs".to_owned());
                    r.push("/usr/local/bin/sshfs".to_owned());
                }
            },
            Program::Umount => {
                if macos {
                    r.push("/sbin/umount".to_owned());
                    r.push("/usr/sbin/umount".to_owned());
                    r.push("/usr/bin/umount".to_owned());
                } else {
                    r.push("/usr/bin/umount".to_owned());
                    r.push("/bin/umount".to_owned());
                    r.push("/usr/local/bin/umount".to_owned());
                }
            },
            Program::Diskutil => {
                if macos {
                    r.push("/usr/sbin/diskutil".to_owned());
                    r.push("/usr/bin/diskutil".to_owned());
                }
            },
        }
        assert(texts(r@) =~= default_paths(*self, macos));
        r
    }
}

fn paths_in(dirs: &Vec<String>, name: &str) -> (r: Vec<String>)
    ensures
        texts(r@) == search_paths(texts(dirs@), name@),
{
    let mut r: Vec<String> = Vec::new();
    let mut i: usize = 0;
    while i < dirs.len()
        invariant
            i <= dirs@.len(),
            texts(r@) == search_paths(texts(dirs@), name@).take(i as int),
        decreases dirs@.len() - i,
    {
        let ghost before = r@;
        let p = join_path(dirs[i].as_str(), name);
        r.push(p);
        i = i + 1;
        proof {
            assert(texts(r@) =~= texts(before).push(p@));
            let all = search_paths(texts(dirs@), name@);
            assert(all[i - 1] == p@);
            assert(all.take(i as int) =~= all.take(i - 1).push(p@));
        }
    }
    assert(search_paths(texts(dirs@), name@).take(i as int) =~= search_paths(texts(dirs@), name@));
    r
}

fn first_known_file(paths: &Vec<String>, host: &HostFiles) -> (r: Option<String>)
    ensures
        opt_text(r) == first_file(texts(paths@), *host),
{
    let mut i: usize = 0;
    assert(texts(paths@).skip(0) =~= texts(paths@));
    while i < paths.len()
        invariant
            i <= paths@.len(),
            first_file(texts(paths@), *host) == first_file(texts(paths@).skip(i as int), *host),
        decreases paths@.len() - i,
    {
        let ghost rest = texts(paths@).skip(i as int);
        assert(rest[0] == paths@[i as int]@);
        if host.is_file(paths[i].as_str()) {
            return Some(paths[i].clone());
        }
        assert(rest.drop_first() =~= texts(paths@).skip(i + 1));
        i = i + 1;
    }
    None
}

/// Where a program is.
pub fn resolve_bin_path(explicit: &Option<String>, program: Program, host: &HostFiles) -> (r: Option<
    String,
>)
    ensures
        opt_text(r) == located(opt_text(*explicit), program, *host),
{
    match explicit {
        Some(path) => {
            let t = trim(path.as_str());
            if !t.is_empty() {
                return Some(t.to_owned());
            }
        },
        None => {},
    }
    let usual = program.usual_paths(host.is_macos());
    match first_known_file(&usual, host) {
        Some(path) => {
            return Some(path);
        },
        None => {},
    }
    match &host.path_dirs {
        None => None,
        Some(dirs) => {
            let found = paths_in(dirs, program.name());
            first_known_file(&found, host)
        },
    }
}

/// All paths at which a program may be found: its usual places, then those of
/// the search path. What `HostFiles` is asked of a program is among them.
pub fn candidate_paths(program: Program, macos: bool, path_dirs: &Vec<String>) -> (r: Vec<String>)
    ensures
        texts(r@) == default_paths(program, macos) + search_paths(
            texts(path_dirs@),
            program_name(program),
        ),
{
    let mut r = program.usual_paths(macos);
    let mut more = paths_in(path_dirs, program.name());
    let ghost a = r@;
    let ghost b = more@;
    r.append(&mut more);
    assert(texts(r@) =~= texts(a) + texts(b));
    r
}

/// Where the programs are.
#[derive(Debug, PartialEq, Eq)]
pub struct SshResolvedBinPaths {
    pub ssh: Option<String>,
    pub sshfs: Option<String>,
    pub umount: Option<String>,
    pub diskutil: Option<String>,
}

/// The part of the configuration that is about SSH.
#[derive(Debug, PartialEq, Eq)]
pub struct SshConfig {
    pub ssh_bin_path: Option<String>,
    pub sshfs_bin_path: Option<String>,
    pub umount_bin_path: Option<String>,
    pub diskutil_bin_path: Option<String>,
    pub managed_mount_root: Option<String>,
    pub allowed_hosts: Vec<String>,
    pub denied_hosts: Vec<String>,
    pub allowed_users: Vec<String>,
    pub allowed_auth_kinds: Vec<String>,
    pub allow_explicit_mount_paths: bool,
    pub allowed_mount_roots: Vec<String>,
    pub port_min: u16,
    pub port_max: u16,
}

/// The content of the part about SSH.
pub struct SshConfigText {
    pub ssh_bin_path: Option<Seq<char>>,
    pub sshfs_bin_path: Option<Seq<char>>,
    pub umount_bin_path: Option<Seq<char>>,
    pub diskutil_bin_path: Option<Seq<char>>,
    pub managed_mount_root: Option<Seq<char>>,
    pub allowed_hosts: Seq<Seq<char>>,
    pub denied_hosts: Seq<Seq<char>>,
    pub allowed_users: Seq<Seq<char>>,
    pub allowed_auth_kinds: Seq<Seq<char>>,
    pub allow_explicit_mount_paths: bool,
    pub allowed_mount_roots: Seq<Seq<char>>,
    pub port_min: u16,
    pub port_max: u16,
}

/// What the part about SSH says where nothing is set.
pub open spec fn ssh_defaults(host: HostFiles) -> SshConfigText {
    SshConfigText {
        ssh_bin_path: located(None, Program::Ssh, host),
        sshfs_bin_path: located(None, Program::Sshfs, host),
        umount_bin_path: located(None, Program::Umount, host),
        diskutil_bin_path: located(None, Program::Diskutil, host),
        managed_mount_root: None,
        allowed_hosts: seq![],
        denied_hosts: seq![],
        allowed_users: seq![],
        allowed_auth_kinds: seq![],
        allow_explicit_mount_paths: true,
        allowed_mount_roots: seq![],
        port_min: 1,
        port_max: u16::MAX,
    }
}

impl SshConfig {
    /// What the part about SSH says.
    pub open spec fn view(&self) -> SshConfigText {
        SshConfigText {
            ssh_bin_path: opt_text(self.ssh_bin_path),
            sshfs_bin_path: opt_text(self.sshfs_bin_path),
            umount_bin_path: opt_text(self.umount_bin_path),
            diskutil_bin_path: opt_text(self.diskutil_bin_path),
            managed_mount_root: opt_text(self.managed_mount_root),
            allowed_hosts: texts(self.allowed_hosts@),
            denied_hosts: texts(self.denied_hosts@),
            allowed_users: texts(self.allowed_users@),
            allowed_auth_kinds: texts(self.allowed_auth_kinds@),
            allow_explicit_mount_paths: self.allow_explicit_mount_paths,
            allowed_mount_roots: texts(self.allowed_mount_roots@),
            port_min: self.port_min,
            port_max: self.port_max,
        }
    }

    /// The part about SSH where nothing is set.
    pub fn default_for(host: &HostFiles) -> (r: Self)
        ensures
            r@ == ssh_defaults(*host),
    {
        let r = SshConfig {
            ssh_bin_path: resolve_bin_path(&None, Program::Ssh, host),
            sshfs_bin_path: resolve_bin_path(&None, Program::Sshfs, host),
            umount_bin_path: resolve_bin_path(&None, Program::Umount, host),
            diskutil_bin_path: resolve_bin_path(&None, Program::Diskutil, host),
            managed_mount_root: None,
            allowed_hosts: Vec::new(),
            denied_hosts: Vec::new(),
            allowed_users: Vec::new(),
            allowed_auth_kinds: Vec::new(),
            allow_explicit_mount_paths: true,
            allowed_mount_roots: Vec::new(),
            port_min: 1,
            port_max: u16::MAX,
        };
        assert(texts(r.allowed_hosts@) =~= seq![]);
        assert(texts(r.denied_hosts@) =~= seq![]);
        assert(texts(r.allowed_users@) =~= seq![]);
        assert(texts(r.allowed_auth_kinds@) =~= seq![]);
        assert(texts(r.allowed_mount_roots@) =~= seq![]);
        r
    }

    /// A copy that says the same.
    pub fn copied(&self) -> (r: Self)
        ensures
            r@ == self@,
    {
        SshConfig {
            ssh_bin_path: clone_opt(&self.ssh_bin_path),
            sshfs_bin_path: clone_opt(&self.sshfs_bin_path),
            umount_bin_path: clone_opt(&self.umount_bin_path),
            diskutil_bin_path: clone_opt(&self.diskutil_bin_path),
            managed_mount_root: clone_opt(&self.managed_mount_root),
            allowed_hosts: clone_strings(&self.allowed_hosts),
            denied_hosts: clone_strings(&self.denied_hosts),
            allowed_users: clone_strings(&self.allowed_users),
            allowed_auth_kinds: clone_strings(&self.allowed_auth_kinds),
            allow_explicit_mount_paths: self.allow_explicit_mount_paths,
            allowed_mount_roots: clone_strings(&self.allowed_mount_roots),
            port_min: self.port_min,
            port_max: self.port_max,
        }
    }

    /// Where `ssh` is.
    pub fn resolved_ssh_bin_path(&self, host: &HostFiles) -> (r: Option<String>)
        ensures
            opt_text(r) == located(self@.ssh_bin_path, Program::Ssh, *host),
    {
        resolve_bin_path(&self.ssh_bin_path, Program::Ssh, host)
    }

    /// Where `sshfs` is.
    pub fn resolved_sshfs_bin_path(&self, host: &HostFiles) -> (r: Option<String>)
        ensures
            opt_text(r) == located(self@.sshfs_bin_path, Program::Sshfs, *host),
    {
        resolve_bin_path(&self.sshfs_bin_path, Program::Sshfs, host)
    }

    /// Where `umount` is.
    pub fn resolved_umount_bin_path(&self, host: &HostFiles) -> (r: Option<String>)
        ensures
            opt_text(r) == located(self@.umount_bin_path, Program::Umount, *host),
    {
        resolve_bin_path(&self.umount_bin_path, Program::Umount, host)
    }

    /// Where `diskutil` is.
    pub fn resolved_diskutil_bin_path(&self, host: &HostFiles) -> (r: Option<String>)
        ensures
            opt_text(r) == located(self@.diskutil_bin_path, Program::Diskutil, *host),
    {
        resolve_bin_path(&self.diskutil_bin_path, Program::Diskutil, host)
    }

    /// Where the programs are.
    pub fn resolved_bin_paths(&self, host: &HostFiles) -> (r: SshResolvedBinPaths)
        ensures
            opt_text(r.ssh) == located(self@.ssh_bin_path, Program::Ssh, *host),
            opt_text(r.sshfs) == located(self@.sshfs_bin_path, Program::Sshfs, *host),
            opt_text(r.umount) == located(self@.umount_bin_path, Program::Umount, *host),
            opt_text(r.diskutil) == located(self@.diskutil_bin_path, Program::Diskutil, *host),
    {
        SshResolvedBinPaths {
            ssh: self.resolved_ssh_bin_path(host),
            sshfs: self.resolved_sshfs_bin_path(host),
            umount: self.resolved_umount_bin_path(host),
            diskutil: self.resolved_diskutil_bin_path(host),
        }
    }
}

/// The configuration.
#[derive(Debug, PartialEq, Eq)]
pub struct Config {
    pub session_limit: usize,
    pub default_read_limit: usize,
    pub max_buffer_lines: usize,
    pub allowed_cwd_roots: Vec<String>,
    pub allowed_commands: Vec<String>,
    pub denied_commands: Vec<String>,
    pub allowed_env_vars: Vec<String>,
    pub denied_env_vars: Vec<String>,
    pub ssh: SshConfig,
}

/// The content of the configuration.
pub struct ConfigText {
    pub session_limit: usize,
    pub default_read_limit: usize,
    pub max_buffer_lines: usize,
    pub allowed_cwd_roots: Seq<Seq<char>>,
    pub allowed_commands: Seq<Seq<char>>,
    pub denied_commands: Seq<Seq<char>>,
    pub allowed_env_vars: Seq<Seq<char>>,
    pub denied_env_vars: Seq<Seq<char>>,
    pub ssh: SshConfigText,
}

/// What the configuration says where nothing is set.
pub open spec fn config_defaults(host: HostFiles, current_dir: Seq<char>) -> ConfigText {
    ConfigText {
        session_limit: 32,
        default_read_limit: 200,
        max_buffer_lines: 50_000,
        allowed_cwd_roots: seq![current_dir],
        allowed_commands: seq![],
        denied_commands: seq![],
        allowed_env_vars: seq![],
        denied_env_vars: seq![
            "LD_PRELOAD"@,
            "LD_LIBRARY_PATH"@,
            "DYLD_INSERT_LIBRARIES"@,
            "DYLD_LIBRARY_PATH"@,
        ],
        ssh: ssh_defaults(host),
    }
}

/// Why the environment holds no valid configuration.
#[derive(Debug, PartialEq, Eq)]
pub enum ConfigError {
    InvalidUsize { key: &'static str, value: String, source: IntParseError },
    InvalidU16 { key: &'static str, value: String, source: IntParseError },
    InvalidPortRange { min: u16, max: u16 },
    InvalidBool { key: &'static str, value: String },
    InvalidAuthKind { key: &'static str, value: String },
}

/// The content of a configuration error.
pub enum ConfigFault {
    InvalidUsize { key: Seq<char>, value: Seq<char>, source: IntParseError },
    InvalidU16 { key: Seq<char>, value: Seq<char>, source: IntParseError },
    InvalidPortRange { min: u16, max: u16 },
    InvalidBool { key: Seq<char>, value: Seq<char> },
    InvalidAuthKind { key: Seq<char>, value: Seq<char> },
}

/// The message of a configuration error.
pub open spec fn fault_message(f: ConfigFault) -> Seq<char> {
    match f {
        ConfigFault::InvalidUsize { key, value, source } => "invalid usize for "@ + key + ": "@
            + value,
        ConfigFault::InvalidU16 { key, value, source } => "invalid u16 for "@ + key + ": "@ + value,
        ConfigFault::InvalidPortRange { min, max } => "invalid SSH port range: min="@
            + decimal_text(min as nat) + ", max="@ + decimal_text(max as nat),
        ConfigFault::InvalidBool { key, value } => "invalid bool for "@ + key + ": "@ + value,
        ConfigFault::InvalidAuthKind { key, value } => "invalid ssh auth kind for "@ + key + ": "@
            + value,
    }
}

impl ConfigError {
    /// What the error says.
    pub open spec fn view(&self) -> ConfigFault {
        match *self {
            ConfigError::InvalidUsize { key, value, source } => ConfigFault::InvalidUsize {
                key: key@,
                value: value@,
                source,
            },
            ConfigError::InvalidU16 { key, value, source } => ConfigFault::InvalidU16 {
                key: key@,
                value: value@,
                source,
            },
            ConfigError::InvalidPortRange { min, max } => ConfigFault::InvalidPortRange { min, max },
            ConfigError::InvalidBool { key, value } => ConfigFault::InvalidBool {
                key: key@,
                value: value@,
            },
            ConfigError::InvalidAuthKind { key, value } => ConfigFault::InvalidAuthKind {
                key: key@,
                value: value@,
            },
        }
    }

    /// The message of the error.
    pub fn message(&self) -> (r: String)
        ensures
            r@ == fault_message(self@),
    {
        match self {
            ConfigError::InvalidUsize { key, value, source } => cat4(
                "invalid usize for ",
                key,
                ": ",
                value.as_str(),
            ),
            ConfigError::InvalidU16 { key, value, source } => cat4(
                "invalid u16 for ",
                key,
                ": ",
                value.as_str(),
            ),
            ConfigError::InvalidPortRange { min, max } => {
                let low = decimal(*min as u64);
                let high = decimal(*max as u64);
                cat4("invalid SSH port range: min=", low.as_str(), ", max=", high.as_str())
            },
            ConfigError::InvalidBool { key, value } => cat4(
                "invalid bool for ",
                key,
                ": ",
                value.as_str(),
            ),
            ConfigError::InvalidAuthKind { key, value } => cat4(
                "invalid ssh auth kind for ",
                key,
                ": ",
                value.as_str(),
            ),
        }
    }
}

/// The variables of the environment.
#[derive(Debug, PartialEq, Eq)]
pub struct EnvVars {
    pub entries: Vec<(String, String)>,
}

/// The value of a variable, if it is set: that of the first entry under its name.
pub open spec fn env_value(entries: Seq<(String, String)>, key: Seq<char>) -> Option<Seq<char>>
    decreases entries.len(),
{
    if entries.len() == 0 {
        None
    } else if entries[0].0@ == key {
        Some(entries[0].1@)
    } else {
        env_value(entries.drop_first(), key)
    }
}

impl EnvVars {
    /// The value of a variable, if it is set.
    pub open spec fn value(&self, key: Seq<char>) -> Option<Seq<char>> {
        env_value(self.entries@, key)
    }

    /// The value of a variable, if it is set.
    pub fn var(&self, key: &str) -> (r: Option<&str>)
        ensures
            match r {
                Some(v) => self.value(key@) == Some(v@),
                None => self.value(key@) is None,
            },
    {
        let mut i: usize = 0;
        assert(self.entries@.skip(0) =~= self.entries@);
        while i < self.entries.len()
            invariant
                i <= self.entries@.len(),
                env_value(self.entries@, key@) == env_value(self.entries@.skip(i as int), key@),
            decreases self.entries@.len() - i,
        {
            let e = &self.entries[i];
            if same(e.0.as_str(), key) {
                return Some(e.1.as_str());
            }
            assert(self.entries@.skip(i as int).drop_first() =~= self.entries@.skip(i + 1));
            i = i + 1;
        }
        None
    }
}

/// The pieces of a list, trimmed, without the empty ones.
pub open spec fn list_items(s: Seq<char>, sep: char) -> Seq<Seq<char>> {
    split_on(s, sep).map_values(|p: Seq<char>| trimmed(p)).filter(|p: Seq<char>| p.len() > 0)
}

/// The pieces of a list, as they are, without the blank ones.
pub open spec fn root_items(s: Seq<char>) -> Seq<Seq<char>> {
    split_on(s, ':').filter(|p: Seq<char>| !is_blank(p))
}

fn parse_list(value: &str, sep: char) -> (r: Vec<String>)
    ensures
        texts(r@) == list_items(value@, sep),
{
    let ghost keep = |p: Seq<char>| p.len() > 0;
    let pieces = split(value, sep);
    let ghost all = split_on(value@, sep).map_values(|p: Seq<char>| trimmed(p));
    let mut r: Vec<String> = Vec::new();
    let mut i: usize = 0;
    proof {
        reveal(Seq::filter);
        assert(texts(r@) =~= all.take(0).filter(keep));
    }
    while i < pieces.len()
        invariant
            i <= pieces@.len(),
            texts(pieces@) == split_on(value@, sep),
            all == split_on(value@, sep).map_values(|p: Seq<char>| trimmed(p)),
            keep == (|p: Seq<char>| p.len() > 0),
            texts(r@) == all.take(i as int).filter(keep),
        decreases pieces@.len() - i,
    {
        let ghost before = r@;
        let t = trim(pieces[i].as_str());
        proof {
            assert(all[i as int] == t@) by {
                assert(texts(pieces@)[i as int] == pieces@[i as int]@);
            }
            assert(all.take(i + 1) =~= all.take(i as int).push(t@));
            all.take(i as int).lemma_filter_push(t@, keep);
        }
        if !t.is_empty() {
            r.push(t.to_owned());
            assert(texts(r@) =~= texts(before).push(t@));
        }
        i = i + 1;
    }
    assert(all.take(i as int) =~= all);
    r
}

/// The items of a list that is separated by commas.
pub fn parse_csv(value: &str) -> (r: Vec<String>)
    ensures
        texts(r@) == list_items(value@, ','),
{
    parse_list(value, ',')
}

/// The items of a list of paths that is separated by colons.
pub fn parse_path_list(value: &str) -> (r: Vec<String>)
    ensures
        texts(r@) == list_items(value@, ':'),
{
    parse_list(value, ':')
}

fn parse_roots(value: &str) -> (r: Vec<String>)
    ensures
        texts(r@) == root_items(value@),
{
    let ghost keep = |p: Seq<char>| !is_blank(p);
    let pieces = split(value, ':');
    let ghost all = texts(pieces@);
    let mut r: Vec<String> = Vec::new();
    let mut i: usize = 0;
    proof {
        reveal(Seq::filter);
        assert(texts(r@) =~= all.take(0).filter(keep));
    }
    while i < pieces.len()
        invariant
            i <= pieces@.len(),
            all == texts(pieces@),
            keep == (|p: Seq<char>| !is_blank(p)),
            texts(r@) == all.take(i as int).filter(keep),
        decreases pieces@.len() - i,
    {
        let ghost before = r@;
        let ghost piece = all[i as int];
        proof {
            assert(all.take(i + 1) =~= all.take(i as int).push(piece));
            all.take(i as int).lemma_filter_push(piece, keep);
        }
        if !blank(pieces[i].as_str()) {
            r.push(pieces[i].clone());
            assert(texts(r@) =~= texts(before).push(piece));
        }
        i = i + 1;
    }
    assert(all.take(i as int) =~= all);
    r
}

/// The usual name of an authentication kind, which has two names.
pub open spec fn auth_kind_name(value: Seq<char>) -> Option<Seq<char>> {
    let v = lowered(trimmed(value));
    if v == "host_alias"@ || v == "config_alias"@ {
        Some("host_alias"@)
    } else if v == "ssh_agent"@ || v == "agent"@ {
        Some("ssh_agent"@)
    } else if v == "identity_path"@ || v == "identity_file"@ {
        Some("identity_path"@)
    } else {
        None
    }
}

/// The usual names of a list of authentication kinds, each once, or the first
/// item that is none.
pub open spec fn auth_kind_names(items: Seq<Seq<char>>) -> Result<Seq<Seq<char>>, Seq<char>>
    decreases items.len(),
{
    if items.len() == 0 {
        Ok(seq![])
    } else {
        match auth_kind_names(items.drop_last()) {
            Err(bad) => Err(bad),
            Ok(list) => match auth_kind_name(items.last()) {
                None => Err(items.last()),
                Some(name) => if list.contains(name) {
                    Ok(list)
                } else {
                    Ok(list.push(name))
                },
            },
        }
    }
}

/// The usual name of an authentication kind.
pub fn normalize_auth_kind(value: &str) -> (r: Option<String>)
    ensures
        opt_text(r) == auth_kind_name(value@),
{
    let v = lowercase(trim(value));
    let s = v.as_str();
    if same(s, "host_alias") || same(s, "config_alias") {
        Some("host_alias".to_owned())
    } else if same(s, "ssh_agent") || same(s, "agent") {
        Some("ssh_agent".to_owned())
    } else if same(s, "identity_path") || same(s, "identity_file") {
        Some("identity_path".to_owned())
    } else {
        None
    }
}

/// Whether a text stands in a list.
pub fn list_contains(list: &Vec<String>, s: &str) -> (r: bool)
    ensures
        r == texts(list@).contains(s@),
{
    let mut i: usize = 0;
    while i < list.len()
        invariant
            i <= list@.len(),
            forall|k: int| 0 <= k < i ==> texts(list@)[k] != s@,
        decreases list@.len() - i,
    {
        if same(list[i].as_str(), s) {
            assert(texts(list@)[i as int] == s@);
            return true;
        }
        i = i + 1;
    }
    false
}

proof fn lemma_auth_kinds_stop(items: Seq<Seq<char>>, i: int)
    requires
        0 <= i <= items.len(),
    ensures
        auth_kind_names(items.take(i)) is Err ==> auth_kind_names(items) == auth_kind_names(
            items.take(i),
        ),
    decreases items.len(),
{
    if i < items.len() {
        lemma_auth_kinds_stop(items.drop_last(), i);
        assert(items.drop_last().take(i) =~= items.take(i));
    } else {
        assert(items.take(i) =~= items);
    }
}

/// Reads a list of authentication kinds.
pub fn parse_auth_kinds(key: &'static str, value: &str) -> (r: Result<Vec<String>, ConfigError>)
    ensures
        match r {
            Ok(list) => auth_kind_names(list_items(value@, ',')) == Ok::<
                Seq<Seq<char>>,
                Seq<char>,
            >(texts(list@)),
            Err(e) => auth_kind_names(list_items(value@, ',')) matches Err(bad) && e@
                == (ConfigFault::InvalidAuthKind { key: key@, value: bad }),
        },
{
    let items = parse_csv(value);
    let mut r: Vec<String> = Vec::new();
    let mut i: usize = 0;
    proof {
        assert(texts(items@).take(0) =~= Seq::<Seq<char>>::empty());
        assert(texts(r@) =~= Seq::<Seq<char>>::empty());
    }
    while i < items.len()
        invariant
            i <= items@.len(),
            texts(items@) == list_items(value@, ','),
            auth_kind_names(texts(items@).take(i as int)) == Ok::<Seq<Seq<char>>, Seq<char>>(
                texts(r@),
            ),
        decreases items@.len() - i,
    {
        let ghost before = r@;
        proof {
            let t = texts(items@).take(i + 1);
            assert(t.drop_last() =~= texts(items@).take(i as int));
            assert(t.last() == items@[i as int]@);
            lemma_auth_kinds_stop(texts(items@), i + 1);
        }
        match normalize_auth_kind(items[i].as_str()) {
            None => {
                return Err(ConfigError::InvalidAuthKind { key, value: items[i].clone() });
            },
            Some(name) => {
                if !list_contains(&r, name.as_str()) {
                    r.push(name);
                    assert(texts(r@) =~= texts(before).push(name@));
                }
            },
        }
        i = i + 1;
    }
    assert(texts(items@).take(i as int) =~= texts(items@));
    Ok(r)
}

/// Reads a number.
pub fn parse_usize(key: &'static str, value: &str) -> (r: Result<usize, ConfigError>)
    ensures
        match r {
            Ok(n) => unsigned_value(value@, usize::MAX as nat) == Ok::<nat, IntParseError>(
                n as nat,
            ),
            Err(e) => unsigned_value(value@, usize::MAX as nat) matches Err(source) && e@
                == (ConfigFault::InvalidUsize { key: key@, value: value@, source }),
        },
{
    match parse_unsigned(value, usize::MAX as u64) {
        Ok(n) => {
            proof {
                crate::text::lemma_unsigned_value_bound(value@, usize::MAX as nat);
            }
            Ok(n as usize)
        },
        Err(source) => Err(ConfigError::InvalidUsize { key, value: value.to_owned(), source }),
    }
}

/// Reads a number of sixteen bits.
pub fn parse_u16(key: &'static str, value: &str) -> (r: Result<u16, ConfigError>)
    ensures
        match r {
            Ok(n) => unsigned_value(value@, u16::MAX as nat) == Ok::<nat, IntParseError>(n as nat),
            Err(e) => unsigned_value(value@, u16::MAX as nat) matches Err(source) && e@
                == (ConfigFault::InvalidU16 { key: key@, value: value@, source }),
        },
{
    match parse_unsigned(value, u16::MAX as u64) {
        Ok(n) => {
            proof {
                crate::text::lemma_unsigned_value_bound(value@, u16::MAX as nat);
            }
            Ok(n as u16)
        },
        Err(source) => Err(ConfigError::InvalidU16 { key, value: value.to_owned(), source }),
    }
}

/// What a written yes or no means.
pub open spec fn bool_value(value: Seq<char>) -> Option<bool> {
    let v = lowered(trimmed(value));
    if v == "1"@ || v == "true"@ || v == "yes"@ || v == "on"@ {
        Some(true)
    } else if v == "0"@ || v == "false"@ || v == "no"@ || v == "off"@ {
        Some(false)
    } else {
        None
    }
}

/// Reads a yes or no.
pub fn parse_bool(key: &'static str, value: &str) -> (r: Result<bool, ConfigError>)
    ensures
        match r {
            Ok(b) => bool_value(value@) == Some(b),
            Err(e) => bool_value(value@) is None && e@ == (ConfigFault::InvalidBool {
                key: key@,
                value: value@,
            }),
        },
{
    let v = lowercase(trim(value));
    let s = v.as_str();
    if same(s, "1") || same(s, "true") || same(s, "yes") || same(s, "on") {
        Ok(true)
    } else if same(s, "0") || same(s, "false") || same(s, "no") || same(s, "off") {
        Ok(false)
    } else {
        Err(ConfigError::InvalidBool { key, value: value.to_owned() })
    }
}

/// What is wrong with a number that a variable is to hold, if anything is.
pub open spec fn usize_fault(vars: EnvVars, key: Seq<char>) -> Option<ConfigFault> {
    match vars.value(key) {
        Some(v) => match unsigned_value(v, usize::MAX as nat) {
            Ok(_) => None,
            Err(source) => Some(ConfigFault::InvalidUsize { key, value: v, source }),
        },
        None => None,
    }
}

/// What is wrong with a number of sixteen bits that a variable is to hold, if
/// anything is.
pub open spec fn u16_fault(vars: EnvVars, key: Seq<char>) -> Option<ConfigFault> {
    match vars.value(key) {
        Some(v) => match unsigned_value(v, u16::MAX as nat) {
            Ok(_) => None,
            Err(source) => Some(ConfigFault::InvalidU16 { key, value: v, source }),
        },
        None => None,
    }
}

/// What is wrong with a list of authentication kinds, if anything is.
pub open spec fn auth_fault(vars: EnvVars, key: Seq<char>) -> Option<ConfigFault> {
    match vars.value(key) {
        Some(v) => match auth_kind_names(list_items(v, ',')) {
            Ok(_) => None,
            Err(bad) => Some(ConfigFault::InvalidAuthKind { key, value: bad }),
        },
        None => None,
    }
}

/// What is wrong with a yes or no, if anything is.
pub open spec fn bool_fault(vars: EnvVars, key: Seq<char>) -> Option<ConfigFault> {
    match vars.value(key) {
        Some(v) => match bool_value(v) {
            Some(_) => None,
            None => Some(ConfigFault::InvalidBool { key, value: v }),
        },
        None => None,
    }
}

/// The number that a variable holds, or else the default.
pub open spec fn number_or(vars: EnvVars, key: Seq<char>, max: nat, default: nat) -> nat {
    match vars.value(key) {
        Some(v) => match unsigned_value(v, max) {
            Ok(n) => n,
            Err(_) => default,
        },
        None => default,
    }
}

/// The list that a variable holds, or else the default.
pub open spec fn list_or(vars: EnvVars, key: Seq<char>, sep: char, default: Seq<Seq<char>>) -> Seq<
    Seq<char>,
> {
    match vars.value(key) {
        Some(v) => list_items(v, sep),
        None => default,
    }
}

/// Where a program is, given the variable that may say so.
pub open spec fn bin_or(
    vars: EnvVars,
    key: Seq<char>,
    p: Program,
    host: HostFiles,
    default: Option<Seq<char>>,
) -> Option<Seq<char>> {
    match vars.value(key) {
        Some(v) => located(Some(v), p, host),
        None => default,
    }
}

/// The root of managed mounts, where the variable sets one.
pub open spec fn managed_root(vars: EnvVars) -> Option<Seq<char>> {
    match vars.value("PTY_MCP_SSH_MANAGED_MOUNT_ROOT"@) {
        Some(v) => if is_blank(v) {
            None
        } else {
            Some(trimmed(v))
        },
        None => None,
    }
}

/// Whether a path stands in a list of paths.
pub open spec fn has_path(list: Seq<Seq<char>>, path: Seq<char>) -> bool {
    exists|i: int| 0 <= i < list.len() && same_path(#[trigger] list[i], path)
}

/// A list of paths with one more, unless it is there already.
pub open spec fn with_path(list: Seq<Seq<char>>, path: Seq<char>) -> Seq<Seq<char>> {
    if has_path(list, path) {
        list
    } else {
        list.push(path)
    }
}

/// The directories in which sessions may start.
pub open spec fn cwd_roots(vars: EnvVars, default: Seq<Seq<char>>) -> Seq<Seq<char>> {
    let set = match vars.value("PTY_MCP_ALLOWED_CWD_ROOTS"@) {
        Some(v) => root_items(v),
        None => default,
    };
    match managed_root(vars) {
        Some(root) => with_path(set, root),
        None => set,
    }
}

/// What is wrong with the environment: the first fault, in the order in which
/// the variables are read.
pub open spec fn env_fault(vars: EnvVars, default: ConfigText) -> Option<ConfigFault> {
    if usize_fault(vars, "PTY_MCP_SESSION_LIMIT"@) is Some {
        usize_fault(vars, "PTY_MCP_SESSION_LIMIT"@)
    } else if usize_fault(vars, "PTY_MCP_DEFAULT_READ_LIMIT"@) is Some {
        usize_fault(vars, "PTY_MCP_DEFAULT_READ_LIMIT"@)
    } else if usize_fault(vars, "PTY_MCP_MAX_BUFFER_LINES"@) is Some {
        usize_fault(vars, "PTY_MCP_MAX_BUFFER_LINES"@)
    } else if auth_fault(vars, "PTY_MCP_SSH_ALLOWED_AUTH_KINDS"@) is Some {
        auth_fault(vars, "PTY_MCP_SSH_ALLOWED_AUTH_KINDS"@)
    } else if bool_fault(vars, "PTY_MCP_SSH_ALLOW_EXPLICIT_MOUNT_PATHS"@) is Some {
        bool_fault(vars, "PTY_MCP_SSH_ALLOW_EXPLICIT_MOUNT_PATHS"@)
    } else if u16_fault(vars, "PTY_MCP_SSH_PORT_MIN"@) is Some {
        u16_fault(vars, "PTY_MCP_SSH_PORT_MIN"@)
    } else if u16_fault(vars, "PTY_MCP_SSH_PORT_MAX"@) is Some {
        u16_fault(vars, "PTY_MCP_SSH_PORT_MAX"@)
    } else {
        let min = port_or(vars, "PTY_MCP_SSH_PORT_MIN"@, default.ssh.port_min);
        let max = port_or(vars, "PTY_MCP_SSH_PORT_MAX"@, default.ssh.port_max);
        if min > max {
            Some(ConfigFault::InvalidPortRange { min, max })
        } else {
            None
        }
    }
}

/// The port that a variable holds, or else the default.
pub open spec fn port_or(vars: EnvVars, key: Seq<char>, default: u16) -> u16 {
    number_or(vars, key, u16::MAX as nat, default as nat) as u16
}

/// The part about SSH that the environment sets.
pub open spec fn ssh_from_env(vars: EnvVars, host: HostFiles, default: ConfigText) -> SshConfigText {
    let d = default.ssh;
    let mounts = list_or(vars, "PTY_MCP_SSH_ALLOWED_MOUNT_ROOTS"@, ':', d.allowed_mount_roots);
    SshConfigText {
        ssh_bin_path: bin_or(vars, "PTY_MCP_SSH_BIN_PATH"@, Program::Ssh, host, d.ssh_bin_path),
        sshfs_bin_path: bin_or(
            vars,
            "PTY_MCP_SSHFS_BIN_PATH"@,
            Program::Sshfs,
            host,
            d.sshfs_bin_path,
        ),
        umount_bin_path: bin_or(
            vars,
            "PTY_MCP_UMOUNT_BIN_PATH"@,
            Program::Umount,
            host,
            d.umount_bin_path,
        ),
        diskutil_bin_path: bin_or(
            vars,
            "PTY_MCP_DISKUTIL_BIN_PATH"@,
            Program::Diskutil,
            host,
            d.diskutil_bin_path,
        ),
        managed_mount_root: match managed_root(vars) {
            Some(root) => Some(root),
            None => d.managed_mount_root,
        },
        allowed_hosts: list_or(vars, "PTY_MCP_SSH_ALLOWED_HOSTS"@, ',', d.allowed_hosts),
        denied_hosts: list_or(vars, "PTY_MCP_SSH_DENIED_HOSTS"@, ',', d.denied_hosts),
        allowed_users: list_or(vars, "PTY_MCP_SSH_ALLOWED_USERS"@, ',', d.allowed_users),
        allowed_auth_kinds: match vars.value("PTY_MCP_SSH_ALLOWED_AUTH_KINDS"@) {
            Some(v) => auth_kind_names(list_items(v, ','))->Ok_0,
            None => d.allowed_auth_kinds,
        },
        allow_explicit_mount_paths: match vars.value("PTY_MCP_SSH_ALLOW_EXPLICIT_MOUNT_PATHS"@) {
            Some(v) => bool_value(v)->0,
            None => d.allow_explicit_mount_paths,
        },
        allowed_mount_roots: if mounts.len() == 0 {
            cwd_roots(vars, default.allowed_cwd_roots)
        } else {
            mounts
        },
        port_min: port_or(vars, "PTY_MCP_SSH_PORT_MIN"@, d.port_min),
        port_max: port_or(vars, "PTY_MCP_SSH_PORT_MAX"@, d.port_max),
    }
}

/// The configuration that the environment sets.
pub open spec fn config_from_env(vars: EnvVars, host: HostFiles, d: ConfigText) -> ConfigText {
    ConfigText {
        session_limit: number_or(
            vars,
            "PTY_MCP_SESSION_LIMIT"@,
            usize::MAX as nat,
            d.session_limit as nat,
        ) as usize,
        default_read_limit: number_or(
            vars,
            "PTY_MCP_DEFAULT_READ_LIMIT"@,
            usize::MAX as nat,
            d.default_read_limit as nat,
        ) as usize,
        max_buffer_lines: number_or(
            vars,
            "PTY_MCP_MAX_BUFFER_LINES"@,
            usize::MAX as nat,
            d.max_buffer_lines as nat,
        ) as usize,
        allowed_cwd_roots: cwd_roots(vars, d.allowed_cwd_roots),
        allowed_commands: list_or(vars, "PTY_MCP_ALLOWED_COMMANDS"@, ',', d.allowed_commands),
        denied_commands: list_or(vars, "PTY_MCP_DENIED_COMMANDS"@, ',', d.denied_commands),
        allowed_env_vars: list_or(vars, "PTY_MCP_ALLOWED_ENV_VARS"@, ',', d.allowed_env_vars),
        denied_env_vars: list_or(vars, "PTY_MCP_DENIED_ENV_VARS"@, ',', d.denied_env_vars),
        ssh: ssh_from_env(vars, host, d),
    }
}

fn usize_var(vars: &EnvVars, key: &'static str, default: usize) -> (r: Result<usize, ConfigError>)
    ensures
        match r {
            Ok(n) => {
                &&& usize_fault(*vars, key@) is None
                &&& n == number_or(*vars, key@, usize::MAX as nat, default as nat)
            },
            Err(e) => usize_fault(*vars, key@) == Some(e@),
        },
{
    match vars.var(key) {
        Some(v) => parse_usize(key, v),
        None => Ok(default),
    }
}

fn u16_var(vars: &EnvVars, key: &'static str, default: u16) -> (r: Result<u16, ConfigError>)
    ensures
        match r {
            Ok(n) => u16_fault(*vars, key@) is None && n == port_or(*vars, key@, default),
            Err(e) => u16_fault(*vars, key@) == Some(e@),
        },
{
    match vars.var(key) {
        Some(v) => parse_u16(key, v),
        None => Ok(default),
    }
}

fn list_var(vars: &EnvVars, key: &'static str, default: Vec<String>) -> (r: Vec<String>)
    ensures
        texts(r@) == list_or(*vars, key@, ',', texts(default@)),
{
    match vars.var(key) {
        Some(v) => parse_csv(v),
        None => default,
    }
}

fn bin_var(
    vars: &EnvVars,
    key: &'static str,
    program: Program,
    host: &HostFiles,
    default: Option<String>,
) -> (r: Option<String>)
    ensures
        opt_text(r) == bin_or(*vars, key@, program, *host, opt_text(default)),
{
    match vars.var(key) {
        Some(v) => {
            let explicit = Some(v.to_owned());
            resolve_bin_path(&explicit, program, host)
        },
        None => default,
    }
}

/// Adds a path to a list, unless it is there already.
pub fn add_path(list: &mut Vec<String>, path: &str)
    ensures
        texts(final(list)@) == with_path(texts(old(list)@), path@),
{
    let ghost before = list@;
    proof {
        assert(has_path(texts(before), path@) == exists|i: int|
            0 <= i < before.len() && same_path(#[trigger] before[i]@, path@)) by {
            if has_path(texts(before), path@) {
                let i = choose|i: int|
                    0 <= i < texts(before).len() && same_path(#[trigger] texts(before)[i], path@);
                assert(same_path(before[i]@, path@));
            }
            if exists|i: int| 0 <= i < before.len() && same_path(#[trigger] before[i]@, path@) {
                let i = choose|i: int|
                    0 <= i < before.len() && same_path(#[trigger] before[i]@, path@);
                assert(same_path(texts(before)[i], path@));
            }
        }
    }
    if !contains_path(list, path) {
        list.push(path.to_owned());
        assert(texts(list@) =~= texts(before).push(path@));
    }
}

impl Config {
    /// What the configuration says.
    pub open spec fn view(&self) -> ConfigText {
        ConfigText {
            session_limit: self.session_limit,
            default_read_limit: self.default_read_limit,
            max_buffer_lines: self.max_buffer_lines,
            allowed_cwd_roots: texts(self.allowed_cwd_roots@),
            allowed_commands: texts(self.allowed_commands@),
            denied_commands: texts(self.denied_commands@),
            allowed_env_vars: texts(self.allowed_env_vars@),
            denied_env_vars: texts(self.denied_env_vars@),
            ssh: self.ssh@,
        }
    }

    /// The configuration where nothing is set.
    pub fn default_for(host: &HostFiles, current_dir: &str) -> (r: Self)
        ensures
            r@ == config_defaults(*host, current_dir@),
    {
        let mut roots: Vec<String> = Vec::new();
        roots.push(current_dir.to_owned());
        let mut denied: Vec<String> = Vec::new();
        denied.push("LD_PRELOAD".to_owned());
        denied.push("LD_LIBRARY_PATH".to_owned());
        denied.push("DYLD_INSERT_LIBRARIES".to_owned());
        denied.push("DYLD_LIBRARY_PATH".to_owned());
        let r = Config {
            session_limit: 32,
            default_read_limit: 200,
            max_buffer_lines: 50_000,
            allowed_cwd_roots: roots,
            allowed_commands: Vec::new(),
            denied_commands: Vec::new(),
            allowed_env_vars: Vec::new(),
            denied_env_vars: denied,
            ssh: SshConfig::default_for(host),
        };
        proof {
            let d = config_defaults(*host, current_dir@);
            assert(r@.allowed_cwd_roots =~= d.allowed_cwd_roots);
            assert(r@.allowed_commands =~= d.allowed_commands);
            assert(r@.denied_commands =~= d.denied_commands);
            assert(r@.allowed_env_vars =~= d.allowed_env_vars);
            assert(r@.denied_env_vars =~= d.denied_env_vars);
        }
        r
    }

    /// The configuration that the environment sets, from the defaults of this
    /// host.
    pub fn from_env(vars: &EnvVars, host: &HostFiles, current_dir: &str) -> (r: Result<
        Self,
        ConfigError,
    >)
        ensures
            match r {
                Ok(config) => {
                    &&& env_fault(*vars, config_defaults(*host, current_dir@)) is None
                    &&& config@ == config_from_env(
                        *vars,
                        *host,
                        config_defaults(*host, current_dir@),
                    )
                },
                Err(e) => env_fault(*vars, config_defaults(*host, current_dir@)) == Some(e@),
            },
    {
        Config::default_for(host, current_dir).with_env(vars, host)
    }

    /// This configuration with what the environment sets in its place.
    pub fn with_env(self, vars: &EnvVars, host: &HostFiles) -> (r: Result<Self, ConfigError>)
        ensures
            match r {
                Ok(config) => {
                    &&& env_fault(*vars, self@) is None
                    &&& config@ == config_from_env(*vars, *host, self@)
                },
                Err(e) => env_fault(*vars, self@) == Some(e@),
            },
    {
        let mut config = self;
        config.session_limit = match usize_var(vars, "PTY_MCP_SESSION_LIMIT", config.session_limit) {
            Ok(n) => n,
            Err(e) => {
                return Err(e);
            },
        };
        config.default_read_limit = match usize_var(
            vars,
            "PTY_MCP_DEFAULT_READ_LIMIT",
            config.default_read_limit,
        ) {
            Ok(n) => n,
            Err(e) => {
                return Err(e);
            },
        };
        config.max_buffer_lines = match usize_var(
            vars,
            "PTY_MCP_MAX_BUFFER_LINES",
            config.max_buffer_lines,
        ) {
            Ok(n) => n,
            Err(e) => {
                return Err(e);
            },
        };
        if let Some(value) = vars.var("PTY_MCP_ALLOWED_CWD_ROOTS") {
            config.allowed_cwd_roots = parse_roots(value);
        }
        config.allowed_commands = list_var(
            vars,
            "PTY_MCP_ALLOWED_COMMANDS",
            config.allowed_commands,
        );
        config.denied_commands = list_var(vars, "PTY_MCP_DENIED_COMMANDS", config.denied_commands);
        config.allowed_env_vars = list_var(
            vars,
            "PTY_MCP_ALLOWED_ENV_VARS",
            config.allowed_env_vars,
        );
        config.denied_env_vars = list_var(vars, "PTY_MCP_DENIED_ENV_VARS", config.denied_env_vars);
        let mut ssh = config.ssh;
        ssh.ssh_bin_path = bin_var(
            vars,
            "PTY_MCP_SSH_BIN_PATH",
            Program::Ssh,
            host,
            ssh.ssh_bin_path,
        );
        ssh.sshfs_bin_path = bin_var(
            vars,
            "PTY_MCP_SSHFS_BIN_PATH",
            Program::Sshfs,
            host,
            ssh.sshfs_bin_path,
        );
        ssh.umount_bin_path = bin_var(
            vars,
            "PTY_MCP_UMOUNT_BIN_PATH",
            Program::Umount,
            host,
            ssh.umount_bin_path,
        );
        ssh.diskutil_bin_path = bin_var(
            vars,
            "PTY_MCP_DISKUTIL_BIN_PATH",
            Program::Diskutil,
            host,
            ssh.diskutil_bin_path,
        );
        if let Some(value) = vars.var("PTY_MCP_SSH_MANAGED_MOUNT_ROOT") {
            let root = trim(value);
            if !root.is_empty() {
                add_path(&mut config.allowed_cwd_roots, root);
                ssh.managed_mount_root = Some(root.to_owned());
            }
        }
        ssh.allowed_hosts = list_var(vars, "PTY_MCP_SSH_ALLOWED_HOSTS", ssh.allowed_hosts);
        ssh.denied_hosts = list_var(vars, "PTY_MCP_SSH_DENIED_HOSTS", ssh.denied_hosts);
        ssh.allowed_users = list_var(vars, "PTY_MCP_SSH_ALLOWED_USERS", ssh.allowed_users);
        if let Some(value) = vars.var("PTY_MCP_SSH_ALLOWED_AUTH_KINDS") {
            ssh.allowed_auth_kinds = match parse_auth_kinds(
                "PTY_MCP_SSH_ALLOWED_AUTH_KINDS",
                value,
            ) {
                Ok(kinds) => kinds,
                Err(e) => {
                    return Err(e);
                },
            };
        }
        if let Some(value) = vars.var("PTY_MCP_SSH_ALLOW_EXPLICIT_MOUNT_PATHS") {
            ssh.allow_explicit_mount_paths = match parse_bool(
                "PTY_MCP_SSH_ALLOW_EXPLICIT_MOUNT_PATHS",
                value,
            ) {
                Ok(b) => b,
                Err(e) => {
                    return Err(e);
                },
            };
        }
        if let Some(value) = vars.var("PTY_MCP_SSH_ALLOWED_MOUNT_ROOTS") {
            ssh.allowed_mount_roots = parse_path_list(value);
        }
        ssh.port_min = match u16_var(vars, "PTY_MCP_SSH_PORT_MIN", ssh.port_min) {
            Ok(n) => n,
            Err(e) => {
                return Err(e);
            },
        };
        ssh.port_max = match u16_var(vars, "PTY_MCP_SSH_PORT_MAX", ssh.port_max) {
            Ok(n) => n,
            Err(e) => {
                return Err(e);
            },
        };
        if ssh.port_min > ssh.port_max {
            return Err(ConfigError::InvalidPortRange { min: ssh.port_min, max: ssh.port_max });
        }
        if ssh.allowed_mount_roots.len() == 0 {
            ssh.allowed_mount_roots = clone_strings(&config.allowed_cwd_roots);
        }
        config.ssh = ssh;
        Ok(config)
    }
}

/// A configuration that the environment sets has a sensible range of ports, and
/// mounts are allowed somewhere wherever sessions may start somewhere.
pub proof fn law_valid_environment_is_consistent(vars: EnvVars, host: HostFiles, d: ConfigText)
    requires
        env_fault(vars, d) is None,
    ensures
        config_from_env(vars, host, d).ssh.port_min <= config_from_env(vars, host, d).ssh.port_max,
        config_from_env(vars, host, d).allowed_cwd_roots.len() > 0 ==> config_from_env(
            vars,
            host,
            d,
        ).ssh.allowed_mount_roots.len() > 0,
        managed_root(vars) matches Some(root) ==> has_path(
            config_from_env(vars, host, d).allowed_cwd_roots,
            root,
        ),
{
    if managed_root(vars) is Some {
        let root = managed_root(vars)->0;
        let after = config_from_env(vars, host, d).allowed_cwd_roots;
        let set = match vars.value("PTY_MCP_ALLOWED_CWD_ROOTS"@) {
            Some(v) => root_items(v),
            None => d.allowed_cwd_roots,
        };
        if !has_path(set, root) {
            assert(same_path(after[after.len() - 1], root));
        }
    }
}

/// An environment that sets nothing leaves the defaults as they are, and mounts are
/// then allowed where sessions may start.
pub proof fn law_empty_environment_keeps_the_defaults(
    vars: EnvVars,
    host: HostFiles,
    current_dir: Seq<char>,
)
    requires
        vars.entries@.len() == 0,
    ensures
        env_fault(vars, config_defaults(host, current_dir)) is None,
        ({
            let d = config_defaults(host, current_dir);
            config_from_env(vars, host, d) == (ConfigText {
                ssh: SshConfigText { allowed_mount_roots: d.allowed_cwd_roots, ..d.ssh },
                ..d
            })
        }),
{
    assert forall|key: Seq<char>| #[trigger] vars.value(key) is None by {}
}

/// A variable has the value of the first entry under its name.
pub proof fn law_first_entry_counts(
    entries: Seq<(String, String)>,
    key: Seq<char>,
    at: int,
)
    ensures
        env_value(entries, key) is Some <==> exists|i: int|
            0 <= i < entries.len() && (#[trigger] entries[i]).0@ == key,
        0 <= at < entries.len() && entries[at].0@ == key && (forall|j: int|
            0 <= j < at ==> (#[trigger] entries[j]).0@ != key) ==> env_value(entries, key) == Some(
            entries[at].1@,
        ),
    decreases entries.len(),
{
    if entries.len() > 0 {
        let rest = entries.drop_first();
        law_first_entry_counts(rest, key, at - 1);
        if entries[0].0@ != key {
            if env_value(entries, key) is Some {
                let i = choose|i: int| 0 <= i < rest.len() && (#[trigger] rest[i]).0@ == key;
                assert(entries[i + 1].0@ == key);
            }
            if exists|i: int| 0 <= i < entries.len() && (#[trigger] entries[i]).0@ == key {
                let i = choose|i: int|
                    0 <= i < entries.len() && (#[trigger] entries[i]).0@ == key;
                assert(rest[i - 1].0@ == key);
            }
            if 0 <= at < entries.len() && entries[at].0@ == key && (forall|j: int|
                0 <= j < at ==> (#[trigger] entries[j]).0@ != key) {
                assert(rest[at - 1] == entries[at]);
                assert forall|j: int| 0 <= j < at - 1 implies (#[trigger] rest[j]).0@ != key by {
                    assert(rest[j] == entries[j + 1]);
                }
            }
        } else {
            assert(entries[0].0@ == key);
        }
    }
}

/// Four words mean yes, four mean no, in whatever case and with white space around them,
/// and nothing else means either.
pub proof fn law_yes_and_no(value: Seq<char>)
    ensures
        bool_value(value) == Some(true) <==> {
            let t = trimmed(value);
            t == "1"@ || same_but_case(t, "true"@) || same_but_case(t, "yes"@) || same_but_case(
                t,
                "on"@,
            )
        },
        bool_value(value) == Some(false) <==> {
            let t = trimmed(value);
            t == "0"@ || same_but_case(t, "false"@) || same_but_case(t, "no"@) || same_but_case(
                t,
                "off"@,
            )
        },
{
    let t = trimmed(value);
    reveal_strlit("1");
    reveal_strlit("true");
    reveal_strlit("yes");
    reveal_strlit("on");
    reveal_strlit("0");
    reveal_strlit("false");
    reveal_strlit("no");
    reveal_strlit("off");
    assert(lowered("1"@) =~= "1"@);
    assert(lowered("true"@) =~= "true"@);
    assert(lowered("yes"@) =~= "yes"@);
    assert(lowered("on"@) =~= "on"@);
    assert(lowered("0"@) =~= "0"@);
    assert(lowered("false"@) =~= "false"@);
    assert(lowered("no"@) =~= "no"@);
    assert(lowered("off"@) =~= "off"@);
    law_lower_case_unites_cases(t, "1"@);
    law_lower_case_unites_cases(t, "true"@);
    law_lower_case_unites_cases(t, "yes"@);
    law_lower_case_unites_cases(t, "on"@);
    law_lower_case_unites_cases(t, "0"@);
    law_lower_case_unites_cases(t, "false"@);
    law_lower_case_unites_cases(t, "no"@);
    law_lower_case_unites_cases(t, "off"@);
    if same_but_case(t, "1"@) {
        assert(t[0] == "1"@[0]);
        assert(t =~= "1"@);
    }
    if same_but_case(t, "0"@) {
        assert(t[0] == "0"@[0]);
        assert(t =~= "0"@);
    }
    if t == "1"@ {
        assert(same_but_case(t, "1"@));
    }
    if t == "0"@ {
        assert(same_but_case(t, "0"@));
    }
    let v = lowered(t);
    if v.len() > 0 {
        assert("1"@[0] == '1' && "true"@[0] == 't' && "yes"@[0] == 'y' && "on"@[1] == 'n');
        assert("0"@[0] == '0' && "false"@[0] == 'f' && "no"@[0] == 'n' && "off"@[1] == 'f');
        assert("on"@[0] == 'o' && "off"@[0] == 'o');
    }
}

/// Each way of authentication has two names, in whatever case and with white space around
/// them, and is known by one of them.
pub proof fn law_ways_of_authentication_have_two_names(value: Seq<char>)
    ensures
        ({
            let v = lowered(trimmed(value));
            &&& v == "host_alias"@ || v == "config_alias"@ ==> auth_kind_name(value) == Some(
                "host_alias"@,
            )
            &&& v == "ssh_agent"@ || v == "agent"@ ==> auth_kind_name(value) == Some("ssh_agent"@)
            &&& v == "identity_path"@ || v == "identity_file"@ ==> auth_kind_name(value) == Some(
                "identity_path"@,
            )
            &&& auth_kind_name(value) is Some ==> v == "host_alias"@ || v == "config_alias"@ || v
                == "ssh_agent"@ || v == "agent"@ || v == "identity_path"@ || v == "identity_file"@
        }),
{
    reveal_strlit("host_alias");
    reveal_strlit("config_alias");
    reveal_strlit("ssh_agent");
    reveal_strlit("agent");
    reveal_strlit("identity_path");
    reveal_strlit("identity_file");
    assert("host_alias"@[0] == 'h' && "config_alias"@[0] == 'c' && "ssh_agent"@[0] == 's');
    assert("agent"@[0] == 'a' && "identity_path"@[0] == 'i' && "identity_file"@[0] == 'i');
}

/// A program is where it was said to be, without white space around that; or else at the
/// first of its usual places that is a file; or else in the first directory of the search
/// path that has it.
pub proof fn law_programs_are_found_in_order(
    explicit: Option<Seq<char>>,
    p: Program,
    host: HostFiles,
    k: int,
)
    ensures
        ({
            let usual = default_paths(p, host.platform@ == "macos"@);
            let dirs = texts(host.path_dirs->0@);
            let said = explicit is Some && trimmed(explicit->0).len() > 0;
            let found = located(explicit, p, host);
            &&& said ==> found == Some(trimmed(explicit->0))
            &&& !said && is_first_file(usual, k, host) ==> found == Some(usual[k])
            &&& !said && (forall|i: int|
                0 <= i < usual.len() ==> !texts(host.files@).contains(#[trigger] usual[i]))
                && host.path_dirs is None ==> found is None
            &&& !said && (forall|i: int|
                0 <= i < usual.len() ==> !texts(host.files@).contains(#[trigger] usual[i]))
                && host.path_dirs is Some && is_first_file(
                search_paths(dirs, program_name(p)),
                k,
                host,
            ) ==> found == Some(joined_path(dirs[k], program_name(p)))
            &&& found is Some && !said ==> texts(host.files@).contains(found->0)
        }),
{
    let usual = default_paths(p, host.platform@ == "macos"@);
    lemma_first_file(usual, k, host);
    if host.path_dirs is Some {
        lemma_first_file(search_paths(texts(host.path_dirs->0@), program_name(p)), k, host);
    }
}

/// Whether the first path of a list that is a file is the one at a place.
pub open spec fn is_first_file(paths: Seq<Seq<char>>, k: int, host: HostFiles) -> bool {
    &&& 0 <= k < paths.len()
    &&& texts(host.files@).contains(paths[k])
    &&& forall|i: int| 0 <= i < k ==> !texts(host.files@).contains(#[trigger] paths[i])
}

proof fn lemma_first_file(paths: Seq<Seq<char>>, k: int, host: HostFiles)
    ensures
        is_first_file(paths, k, host) ==> first_file(paths, host) == Some(paths[k]),
        (forall|i: int| 0 <= i < paths.len() ==> !texts(host.files@).contains(#[trigger] paths[i]))
            ==> first_file(paths, host) is None,
        first_file(paths, host) is Some ==> texts(host.files@).contains(
            first_file(paths, host)->0,
        ),
    decreases paths.len(),
{
    if paths.len() > 0 {
        let rest = paths.drop_first();
        lemma_first_file(rest, k - 1, host);
        if is_first_file(paths, k, host) && k > 0 {
            assert(!texts(host.files@).contains(paths[0]));
            assert(rest[k - 1] == paths[k]);
            assert forall|i: int| 0 <= i < k - 1 implies !texts(host.files@).contains(
                #[trigger] rest[i],
            ) by {
                assert(rest[i] == paths[i + 1]);
            }
        }
        if forall|i: int|
            0 <= i < paths.len() ==> !texts(host.files@).contains(#[trigger] paths[i]) {
            assert(!texts(host.files@).contains(paths[0]));
            assert forall|i: int| 0 <= i < rest.len() implies !texts(host.files@).contains(
                #[trigger] rest[i],
            ) by {
                assert(rest[i] == paths[i + 1]);
            }
        }
    }
}

/// Where nothing is set there may be 32 sessions, a read shows 200 lines, 50000 lines are
/// kept, sessions start in the current directory, the variables that load code into
/// programs are denied, any host, user and port is allowed, and explicit mount paths are.
pub proof fn law_defaults(host: HostFiles, current_dir: Seq<char>)
    ensures
        ({
            let d = config_defaults(host, current_dir);
            &&& d.session_limit == 32
            &&& d.default_read_limit == 200
            &&& d.max_buffer_lines == 50_000
            &&& d.allowed_cwd_roots == seq![current_dir]
            &&& d.allowed_commands.len() == 0
            &&& d.denied_commands.len() == 0
            &&& d.allowed_env_vars.len() == 0
            &&& d.denied_env_vars.len() == 4
            &&& d.denied_env_vars.contains("LD_PRELOAD"@)
            &&& d.denied_env_vars.contains("LD_LIBRARY_PATH"@)
            &&& d.denied_env_vars.contains("DYLD_INSERT_LIBRARIES"@)
            &&& d.denied_env_vars.contains("DYLD_LIBRARY_PATH"@)
            &&& d.ssh.managed_mount_root is None
            &&& d.ssh.allowed_hosts.len() == 0
            &&& d.ssh.denied_hosts.len() == 0
            &&& d.ssh.allowed_users.len() == 0
            &&& d.ssh.allowed_auth_kinds.len() == 0
            &&& d.ssh.allow_explicit_mount_paths
            &&& d.ssh.allowed_mount_roots.len() == 0
            &&& d.ssh.port_min == 1
            &&& d.ssh.port_max == 65535
            &&& d.ssh.ssh_bin_path == located(None, Program::Ssh, host)
            &&& d.ssh.sshfs_bin_path == located(None, Program::Sshfs, host)
            &&& d.ssh.umount_bin_path == located(None, Program::Umount, host)
            &&& d.ssh.diskutil_bin_path == located(None, Program::Diskutil, host)
        }),
{
    let list = config_defaults(host, current_dir).denied_env_vars;
    assert(list[0] == "LD_PRELOAD"@);
    assert(list[1] == "LD_LIBRARY_PATH"@);
    assert(list[2] == "DYLD_INSERT_LIBRARIES"@);
    assert(list[3] == "DYLD_LIBRARY_PATH"@);
}

/// Whether a setting is the number that a variable holds, or else its default.
pub open spec fn is_number_set(setting: int, vars: EnvVars, key: Seq<char>, max: nat, usual: int) -> bool {
    &&& vars.value(key) is Some ==> unsigned_value(vars.value(key)->0, max) == Ok::<
        nat,
        IntParseError,
    >(setting as nat) && setting >= 0
    &&& vars.value(key) is None ==> setting == usual
}

/// Whether a setting is the list that a variable holds, or else its default.
pub open spec fn is_list_set(
    setting: Seq<Seq<char>>,
    vars: EnvVars,
    key: Seq<char>,
    sep: char,
    usual: Seq<Seq<char>>,
) -> bool {
    &&& vars.value(key) is Some ==> setting == split_on(vars.value(key)->0, sep).map_values(
        |p: Seq<char>| trimmed(p),
    ).filter(|p: Seq<char>| p.len() > 0)
    &&& vars.value(key) is None ==> setting == usual
}

/// Whether a setting is the program that a variable names, or the one that is found where
/// the variable is blank, or else the default.
pub open spec fn is_program_set(
    setting: Option<Seq<char>>,
    vars: EnvVars,
    key: Seq<char>,
    p: Program,
    host: HostFiles,
    usual: Option<Seq<char>>,
) -> bool {
    &&& vars.value(key) is Some && trimmed(vars.value(key)->0).len() > 0 ==> setting == Some(
        trimmed(vars.value(key)->0),
    )
    &&& vars.value(key) is Some && trimmed(vars.value(key)->0).len() == 0 ==> setting == located(
        None,
        p,
        host,
    )
    &&& vars.value(key) is None ==> setting == usual
}

/// Each variable of the environment sets the setting that it is named after, and what is
/// not set stays as it was.
pub proof fn law_each_variable_sets_its_setting(vars: EnvVars, host: HostFiles, d: ConfigText)
    requires
        env_fault(vars, d) is None,
    ensures
        ({
            let c = config_from_env(vars, host, d);
            let n = usize::MAX as nat;
            &&& is_number_set(
                c.session_limit as int,
                vars,
                "PTY_MCP_SESSION_LIMIT"@,
                n,
                d.session_limit as int,
            )
            &&& is_number_set(
                c.default_read_limit as int,
                vars,
                "PTY_MCP_DEFAULT_READ_LIMIT"@,
                n,
                d.default_read_limit as int,
            )
            &&& is_number_set(
                c.max_buffer_lines as int,
                vars,
                "PTY_MCP_MAX_BUFFER_LINES"@,
                n,
                d.max_buffer_lines as int,
            )
            &&& is_list_set(
                c.allowed_commands,
                vars,
                "PTY_MCP_ALLOWED_COMMANDS"@,
                ',',
                d.allowed_commands,
            )
            &&& is_list_set(
                c.denied_commands,
                vars,
                "PTY_MCP_DENIED_COMMANDS"@,
                ',',
                d.denied_commands,
            )
            &&& is_list_set(
                c.allowed_env_vars,
                vars,
                "PTY_MCP_ALLOWED_ENV_VARS"@,
                ',',
                d.allowed_env_vars,
            )
            &&& is_list_set(
                c.denied_env_vars,
                vars,
                "PTY_MCP_DENIED_ENV_VARS"@,
                ',',
                d.denied_env_vars,
            )
        }),
{
    lemma_unsigned_values(vars);
}

proof fn lemma_unsigned_values(vars: EnvVars)
    ensures
        forall|key: Seq<char>, max: nat|
            #![trigger unsigned_value(vars.value(key)->0, max)]
            unsigned_value(vars.value(key)->0, max) matches Ok(n) ==> n <= max,
{
    assert forall|key: Seq<char>, max: nat|
        #![trigger unsigned_value(vars.value(key)->0, max)]
        (unsigned_value(vars.value(key)->0, max) matches Ok(n) ==> n <= max) by {
        lemma_unsigned_value_bound(vars.value(key)->0, max);
    }
}

/// Each variable about SSH sets the setting that it is named after, and what is not set
/// stays as it was; mounts are allowed where sessions may start where nothing else is
/// said.
pub proof fn law_each_ssh_variable_sets_its_setting(vars: EnvVars, host: HostFiles, d: ConfigText)
    requires
        env_fault(vars, d) is None,
    ensures
        ({
            let c = config_from_env(vars, host, d);
            let kinds = "PTY_MCP_SSH_ALLOWED_AUTH_KINDS"@;
            let explicit = "PTY_MCP_SSH_ALLOW_EXPLICIT_MOUNT_PATHS"@;
            let managed = vars.value("PTY_MCP_SSH_MANAGED_MOUNT_ROOT"@);
            let roots = "PTY_MCP_SSH_ALLOWED_MOUNT_ROOTS"@;
            &&& is_program_set(
                c.ssh.ssh_bin_path,
                vars,
                "PTY_MCP_SSH_BIN_PATH"@,
                Program::Ssh,
                host,
                d.ssh.ssh_bin_path,
            )
            &&& is_program_set(
                c.ssh.sshfs_bin_path,
                vars,
                "PTY_MCP_SSHFS_BIN_PATH"@,
                Program::Sshfs,
                host,
                d.ssh.sshfs_bin_path,
            )
            &&& is_program_set(
                c.ssh.umount_bin_path,
                vars,
                "PTY_MCP_UMOUNT_BIN_PATH"@,
                Program::Umount,
                host,
                d.ssh.umount_bin_path,
            )
            &&& is_program_set(
                c.ssh.diskutil_bin_path,
                vars,
                "PTY_MCP_DISKUTIL_BIN_PATH"@,
                Program::Diskutil,
                host,
                d.ssh.diskutil_bin_path,
            )
            &&& is_list_set(
                c.ssh.allowed_hosts,
                vars,
                "PTY_MCP_SSH_ALLOWED_HOSTS"@,
                ',',
                d.ssh.allowed_hosts,
            )
            &&& is_list_set(
                c.ssh.denied_hosts,
                vars,
                "PTY_MCP_SSH_DENIED_HOSTS"@,
                ',',
                d.ssh.denied_hosts,
            )
            &&& is_list_set(
                c.ssh.allowed_users,
                vars,
                "PTY_MCP_SSH_ALLOWED_USERS"@,
                ',',
                d.ssh.allowed_users,
            )
            &&& vars.value(kinds) is Some ==> auth_kind_names(
                list_items(vars.value(kinds)->0, ','),
            ) == Ok::<Seq<Seq<char>>, Seq<char>>(c.ssh.allowed_auth_kinds)
            &&& vars.value(kinds) is None ==> c.ssh.allowed_auth_kinds == d.ssh.allowed_auth_kinds
            &&& vars.value(explicit) is Some ==> bool_value(vars.value(explicit)->0) == Some(
                c.ssh.allow_explicit_mount_paths,
            )
            &&& vars.value(explicit) is None ==> c.ssh.allow_explicit_mount_paths
                == d.ssh.allow_explicit_mount_paths
            &&& managed is Some && trimmed(managed->0).len() > 0 ==> c.ssh.managed_mount_root
                == Some(trimmed(managed->0))
            &&& !(managed is Some && trimmed(managed->0).len() > 0) ==> c.ssh.managed_mount_root
                == d.ssh.managed_mount_root
            &&& is_number_set(
                c.ssh.port_min as int,
                vars,
                "PTY_MCP_SSH_PORT_MIN"@,
                65535,
                d.ssh.port_min as int,
            )
            &&& is_number_set(
                c.ssh.port_max as int,
                vars,
                "PTY_MCP_SSH_PORT_MAX"@,
                65535,
                d.ssh.port_max as int,
            )
            &&& is_list_set(
                c.ssh.allowed_mount_roots,
                vars,
                roots,
                ':',
                d.ssh.allowed_mount_roots,
            ) || (c.ssh.allowed_mount_roots == c.allowed_cwd_roots && is_list_set(
                seq![],
                vars,
                roots,
                ':',
                d.ssh.allowed_mount_roots,
            ))
        }),
{
    lemma_unsigned_values(vars);
    let roots = "PTY_MCP_SSH_ALLOWED_MOUNT_ROOTS"@;
    let mounts = list_or(vars, roots, ':', d.ssh.allowed_mount_roots);
    assert(is_list_set(mounts, vars, roots, ':', d.ssh.allowed_mount_roots));
    if mounts.len() == 0 {
        assert(mounts =~= seq![]);
    }
}

/// Sessions may start in the directories that the variable names, as they are written and
/// without blank ones, or else where they might before; and in the managed root too where
/// one is set.
pub proof fn law_sessions_start_where_the_variable_says(
    vars: EnvVars,
    host: HostFiles,
    d: ConfigText,
)
    ensures
        ({
            let c = config_from_env(vars, host, d);
            let named = vars.value("PTY_MCP_ALLOWED_CWD_ROOTS"@);
            let managed = vars.value("PTY_MCP_SSH_MANAGED_MOUNT_ROOT"@);
            let base = if named is Some {
                split_on(named->0, ':').filter(|p: Seq<char>| trimmed(p).len() > 0)
            } else {
                d.allowed_cwd_roots
            };
            let has_root = managed is Some && trimmed(managed->0).len() > 0;
            &&& !has_root ==> c.allowed_cwd_roots == base
            &&& has_root && has_path(base, trimmed(managed->0)) ==> c.allowed_cwd_roots == base
            &&& has_root && !has_path(base, trimmed(managed->0)) ==> c.allowed_cwd_roots
                == base.push(trimmed(managed->0))
        }),
{
    let named = vars.value("PTY_MCP_ALLOWED_CWD_ROOTS"@);
    if named is Some {
        assert((|p: Seq<char>| trimmed(p).len() > 0) =~= (|p: Seq<char>| !is_blank(p)));
    }
}

/// A path stands in a list where an entry has the same components.
pub proof fn law_lists_of_paths(list: Seq<Seq<char>>, path: Seq<char>)
    ensures
        has_path(list, path) <==> exists|i: int|
            0 <= i < list.len() && same_path(#[trigger] list[i], path),
        has_path(with_path(list, path), path),
{
    if !has_path(list, path) {
        assert(same_path(with_path(list, path)[list.len() as int], path));
    }
}

/// The environment is at fault exactly where a variable that is set cannot be read as what
/// it is to hold, or the lowest port is above the highest.
pub proof fn law_environment_is_at_fault_for_cause(vars: EnvVars, d: ConfigText)
    ensures
        env_fault(vars, d) is None <==> {
            let sessions = vars.value("PTY_MCP_SESSION_LIMIT"@);
            let reads = vars.value("PTY_MCP_DEFAULT_READ_LIMIT"@);
            let lines = vars.value("PTY_MCP_MAX_BUFFER_LINES"@);
            let kinds = vars.value("PTY_MCP_SSH_ALLOWED_AUTH_KINDS"@);
            let explicit = vars.value("PTY_MCP_SSH_ALLOW_EXPLICIT_MOUNT_PATHS"@);
            let low = vars.value("PTY_MCP_SSH_PORT_MIN"@);
            let high = vars.value("PTY_MCP_SSH_PORT_MAX"@);
            let n = usize::MAX as nat;
            let min: int = if low is Some {
                unsigned_value(low->0, 65535)->Ok_0 as int
            } else {
                d.ssh.port_min as int
            };
            let max: int = if high is Some {
                unsigned_value(high->0, 65535)->Ok_0 as int
            } else {
                d.ssh.port_max as int
            };
            &&& sessions is Some ==> unsigned_value(sessions->0, n) is Ok
            &&& reads is Some ==> unsigned_value(reads->0, n) is Ok
            &&& lines is Some ==> unsigned_value(lines->0, n) is Ok
            &&& kinds is Some ==> auth_kind_names(list_items(kinds->0, ',')) is Ok
            &&& explicit is Some ==> bool_value(explicit->0) is Some
            &&& low is Some ==> unsigned_value(low->0, 65535) is Ok
            &&& high is Some ==> unsigned_value(high->0, 65535) is Ok
            &&& min <= max
        },
{
    lemma_unsigned_values(vars);
}

/// A list of ways of authentication is read exactly where each of its entries is one, and
/// then holds the name of each of them once.
pub proof fn law_ways_of_authentication_are_listed_once(items: Seq<Seq<char>>, name: Seq<char>)
    ensures
        auth_kind_names(items) is Ok <==> forall|i: int|
            0 <= i < items.len() ==> auth_kind_name(#[trigger] items[i]) is Some,
        auth_kind_names(items) matches Ok(list) ==> {
            &&& list.no_duplicates()
            &&& list.contains(name) <==> exists|i: int|
                0 <= i < items.len() && auth_kind_name(#[trigger] items[i]) == Some(name)
        },
    decreases items.len(),
{
    if items.len() > 0 {
        let front = items.drop_last();
        law_ways_of_authentication_are_listed_once(front, name);
        let all = forall|i: int|
            0 <= i < items.len() ==> auth_kind_name(#[trigger] items[i]) is Some;
        if auth_kind_names(items) is Ok {
            assert forall|i: int| 0 <= i < items.len() implies auth_kind_name(
                #[trigger] items[i],
            ) is Some by {
                if i < front.len() {
                    assert(front[i] == items[i]);
                }
            }
            let list = auth_kind_names(front)->Ok_0;
            let all_of = auth_kind_names(items)->Ok_0;
            let last = auth_kind_name(items.last())->0;
            if !list.contains(last) {
                assert(all_of =~= list.push(last));
                assert(all_of[list.len() as int] == last);
                assert(list.contains(name) ==> all_of.contains(name)) by {
                    if list.contains(name) {
                        let k = list.index_of(name);
                        assert(all_of[k] == name);
                    }
                }
            }
            if all_of.contains(name) {
                if name == last {
                    assert(auth_kind_name(items[items.len() - 1]) == Some(name));
                } else {
                    let k = all_of.index_of(name);
                    assert(list[k] == name);
                    assert(list.contains(name));
                    let i = choose|i: int|
                        0 <= i < front.len() && auth_kind_name(#[trigger] front[i]) == Some(name);
                    assert(auth_kind_name(items[i]) == Some(name));
                }
            }
            if exists|i: int|
                0 <= i < items.len() && auth_kind_name(#[trigger] items[i]) == Some(name) {
                let i = choose|i: int|
                    0 <= i < items.len() && auth_kind_name(#[trigger] items[i]) == Some(name);
                if i < front.len() {
                    assert(auth_kind_name(front[i]) == Some(name));
                }
            }
        } else if all {
            assert forall|i: int| 0 <= i < front.len() implies auth_kind_name(
                #[trigger] front[i],
            ) is Some by {
                assert(front[i] == items[i]);
            }
            assert(auth_kind_name(items[items.len() - 1]) is Some);
        }
    }
}

/// Where programs are looked for first: in the places of the system and those of Homebrew
/// on macOS, where alone there is a `diskutil`.
pub proof fn law_programs_have_usual_places()
    ensures
        default_paths(Program::Ssh, true) == seq![
            "/usr/bin/ssh"@,
            "/opt/homebrew/bin/ssh"@,
            "/usr/local/bin/ssh"@,
        ],
        default_paths(Program::Ssh, false) == seq!["/usr/bin/ssh"@, "/usr/local/bin/ssh"@],
        default_paths(Program::Sshfs, true) == seq![
            "/opt/homebrew/bin/sshfs"@,
            "/usr/local/bin/sshfs"@,
            "/usr/bin/sshfs"@,
        ],
        default_paths(Program::Sshfs, false) == seq!["/usr/bin/sshfs"@, "/usr/local/bin/sshfs"@],
        default_paths(Program::Umount, true) == seq![
            "/sbin/umount"@,
            "/usr/sbin/umount"@,
            "/usr/bin/umount"@,
        ],
        default_paths(Program::Umount, false) == seq![
            "/usr/bin/umount"@,
            "/bin/umount"@,
            "/usr/local/bin/umount"@,
        ],
        default_paths(Program::Diskutil, true) == seq![
            "/usr/sbin/diskutil"@,
            "/usr/bin/diskutil"@,
        ],
        default_paths(Program::Diskutil, false).len() == 0,
{
}

} // verus!
