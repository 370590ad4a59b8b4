//! What this host can do with SSH, judged by the programs it has.
use super::model::{MacFuseCapability, SshBinaryCapability, SshCapabilityView};
use crate::config::{is_known_file, located, HostFiles, Program, SshConfig, SshConfigText};
use crate::outside::{decode_lossy, utf8_lossy};
use crate::text::{
    chars_of, contains, contains_char, find, find_from, first_chars, has_part, is_space,
    lowercase, lowered, opt_text, space_char, split, split_on, take_chars, texts, trim, trimmed,
};
use vstd::prelude::*;
use vstd::string::*;

verus! {

/// What a program printed when it was asked for its version. A program that could
/// not be started has printed nothing, without success.
#[derive(Debug, PartialEq, Eq)]
pub struct VersionOutput {
    pub success: bool,
    pub stdout: Vec<u8>,
    pub stderr: Vec<u8>,
}

/// What the programs printed when they were asked for their versions, in the
/// order of the arguments that were tried, and whether a FUSE provider is
/// installed in one of its known places.
#[derive(Debug, PartialEq, Eq)]
pub struct ProbeOutputs {
    pub ssh: Vec<VersionOutput>,
    pub sshfs: Vec<VersionOutput>,
    pub unmount: Vec<VersionOutput>,
    pub diskutil: Vec<VersionOutput>,
    pub provider_installed: bool,
}

/// Longest part of a line that is kept as a version.
pub const VERSION_CHARS: usize = 256;

/// The first of the lines that is not blank, trimmed and cut.
pub open spec fn first_line(lines: Seq<Seq<char>>) -> Option<Seq<char>>
    decreases lines.len(),
{
    if lines.len() == 0 {
        None
    } else if trimmed(lines[0]).len() > 0 {
        Some(first_chars(trimmed(lines[0]), VERSION_CHARS as nat))
    } else {
        first_line(lines.drop_first())
    }
}

/// The first line of a program's output that is not blank.
pub open spec fn first_output_line(bytes: Seq<u8>) -> Option<Seq<char>> {
    first_line(split_on(utf8_lossy(bytes), '\n'))
}

/// The version that a program printed: on its standard output, or else on its
/// standard error.
pub open spec fn printed_version(o: VersionOutput) -> Option<Seq<char>> {
    if !o.success {
        None
    } else if first_output_line(o.stdout@) is Some {
        first_output_line(o.stdout@)
    } else {
        first_output_line(o.stderr@)
    }
}

/// The first version among what was printed.
pub open spec fn first_version(outputs: Seq<VersionOutput>) -> Option<Seq<char>>
    decreases outputs.len(),
{
    if outputs.len() == 0 {
        None
    } else if printed_version(outputs[0]) is Some {
        printed_version(outputs[0])
    } else {
        first_version(outputs.drop_first())
    }
}

/// Whether a capability says what is known of a program.
pub open spec fn describes_binary(
    c: SshBinaryCapability,
    path: Option<Seq<char>>,
    is_file: bool,
    outputs: Seq<VersionOutput>,
) -> bool {
    &&& opt_text(c.path) == path
    &&& c.available == (path is Some && is_file)
    &&& opt_text(c.version) == if path is Some && is_file {
        first_version(outputs)
    } else {
        None
    }
}

/// Whether a character is trimmed: it is in the set, or it is white space and
/// white space is trimmed too.
pub open spec fn is_trimmed(c: char, set: Seq<char>, spaces: bool) -> bool {
    set.contains(c) || (spaces && is_space(c))
}

/// `s` without the leading characters that are trimmed.
pub open spec fn set_trimmed_start(s: Seq<char>, set: Seq<char>, spaces: bool) -> Seq<char>
    decreases s.len(),
{
    if s.len() > 0 && is_trimmed(s[0], set, spaces) {
        set_trimmed_start(s.drop_first(), set, spaces)
    } else {
        s
    }
}

/// `s` without the trailing characters that are trimmed.
pub open spec fn set_trimmed_end(s: Seq<char>, set: Seq<char>, spaces: bool) -> Seq<char>
    decreases s.len(),
{
    if s.len() > 0 && is_trimmed(s.last(), set, spaces) {
        set_trimmed_end(s.drop_last(), set, spaces)
    } else {
        s
    }
}

/// `s` without the outer characters that are trimmed.
pub open spec fn set_trimmed(s: Seq<char>, set: Seq<char>, spaces: bool) -> Seq<char> {
    set_trimmed_end(set_trimmed_start(s, set, spaces), set, spaces)
}

/// What stands before the first white space.
pub open spec fn until_space(s: Seq<char>) -> Seq<char>
    decreases s.len(),
{
    if s.len() == 0 || is_space(s[0]) {
        Seq::empty()
    } else {
        seq![s[0]] + until_space(s.drop_first())
    }
}

/// The version that stands behind a keyword.
pub open spec fn provider_version(raw: Seq<char>, keyword: Seq<char>) -> Option<Seq<char>> {
    match find_from(lowered(raw), keyword, 0) {
        None => None,
        Some(at) => {
            let suffix = raw.skip(at + keyword.len());
            let word = until_space(set_trimmed(suffix, ":-/"@, true));
            let token = set_trimmed(word, "(),"@, false);
            if token.len() == 0 {
                None
            } else {
                Some(token)
            }
        },
    }
}

/// What is known of the FUSE provider from what `sshfs` printed, or from where
/// providers are installed.
pub open spec fn describes_macfuse(
    c: MacFuseCapability,
    sshfs_version: Option<Seq<char>>,
    installed: bool,
) -> bool {
    if sshfs_version is Some && has_part(lowered(sshfs_version->0), "macfuse"@) {
        &&& c.available
        &&& opt_text(c.provider) == Some("macFUSE"@)
        &&& opt_text(c.version) == provider_version(sshfs_version->0, "macfuse"@)
    } else if sshfs_version is Some && has_part(lowered(sshfs_version->0), "osxfuse"@) {
        &&& c.available
        &&& opt_text(c.provider) == Some("osxfuse"@)
        &&& opt_text(c.version) == provider_version(sshfs_version->0, "osxfuse"@)
    } else {
        &&& c.available == installed
        &&& opt_text(c.provider) == if installed {
            Some("macFUSE"@)
        } else {
            None
        }
        &&& c.version is None
    }
}

/// Whether a path that may be known is a file.
pub open spec fn path_is_file(host: HostFiles, path: Option<Seq<char>>) -> bool {
    path is Some && is_known_file(host, path->0)
}

/// Whether a view says what is known of this host.
pub open spec fn describes_host(
    v: SshCapabilityView,
    config: SshConfigText,
    host: HostFiles,
    seen: ProbeOutputs,
) -> bool {
    let ssh = located(config.ssh_bin_path, Program::Ssh, host);
    let sshfs = located(config.sshfs_bin_path, Program::Sshfs, host);
    let unmount = located(config.umount_bin_path, Program::Umount, host);
    let diskutil = located(config.diskutil_bin_path, Program::Diskutil, host);
    let macos = host.platform@ == "macos"@;
    &&& v.platform@ == host.platform@
    &&& describes_binary(v.ssh, ssh, path_is_file(host, ssh), seen.ssh@)
    &&& describes_binary(v.sshfs, sshfs, path_is_file(host, sshfs), seen.sshfs@)
    &&& describes_binary(v.unmount, unmount, path_is_file(host, unmount), seen.unmount@)
    &&& if macos && diskutil is Some {
        &&& v.diskutil is Some
        &&& describes_binary(
            v.diskutil->0,
            diskutil,
            path_is_file(host, diskutil),
            seen.diskutil@,
        )
    } else {
        v.diskutil is None
    }
    &&& if macos {
        &&& v.macfuse is Some
        &&& describes_macfuse(v.macfuse->0, opt_text(v.sshfs.version), seen.provider_installed)
    } else {
        v.macfuse is None
    }
}

/// The arguments with which a program is asked for its version, in the order in
/// which they are tried.
pub fn version_args(program: Program) -> (r: Vec<String>)
    ensures
        texts(r@) == match program {
            Program::Ssh => seq!["-V"@],
            Program::Sshfs => seq!["--version"@, "-V"@],
            Program::Umount => seq!["--version"@, "-V"@],
            Program::Diskutil => seq!["-version"@, "version"@],
        },
{
    let mut r: Vec<String> = Vec::new();
    match program {
        Program::Ssh => {
            r.push("-V".to_owned());
            assert(texts(r@) =~= seq!["-V"@]);
        },
        Program::Sshfs | Program::Umount => {
            r.push("--version".to_owned());
            r.push("-V".to_owned());
            assert(texts(r@) =~= seq!["--version"@, "-V"@]);
        },
        Program::Diskutil => {
            r.push("-version".to_owned());
            r.push("version".to_owned());
            assert(texts(r@) =~= seq!["-version"@, "version"@]);
        },
    }
    r
}

/// Finds out what this host can do with SSH.
#[derive(Debug, Clone, Copy, PartialEq, Eq, Structural)]
pub struct SshCapabilityProbe;

impl SshCapabilityProbe {
    /// A probe.
    pub fn new() -> (r: Self)
        ensures
            r == SshCapabilityProbe,
    {
        SshCapabilityProbe
    }

    /// What this host can do, from what its programs printed.
    pub fn probe(&self, config: &SshConfig, host: &HostFiles, seen: &ProbeOutputs) -> (r:
        SshCapabilityView)
        ensures
            describes_host(r, config@, *host, *seen),
    {
        let paths = config.resolved_bin_paths(host);
        let ssh = probe_binary(&paths.ssh, host, &seen.ssh);
        let sshfs = probe_binary(&paths.sshfs, host, &seen.sshfs);
        let unmount = probe_binary(&paths.umount, host, &seen.unmount);
        let macos = host.is_macos();
        let diskutil = if macos && paths.diskutil.is_some() {
            Some(probe_binary(&paths.diskutil, host, &seen.diskutil))
        } else {
            None
        };
        let macfuse = if macos {
            Some(detect_macfuse(&sshfs, seen.provider_installed))
        } else {
            None
        };
        SshCapabilityView {
            platform: host.platform.clone(),
            ssh,
            sshfs,
            unmount,
            diskutil,
            macfuse,
        }
    }

    /// The same as `probe`.
    pub fn probe_with_config(&self, config: &SshConfig, host: &HostFiles, seen: &ProbeOutputs) -> (r:
        SshCapabilityView)
        ensures
            describes_host(r, config@, *host, *seen),
    {
        self.probe(config, host, seen)
    }
}

fn probe_binary(path: &Option<String>, host: &HostFiles, outputs: &Vec<VersionOutput>) -> (r:
    SshBinaryCapability)
    ensures
        describes_binary(
            r,
            opt_text(*path),
            path_is_file(*host, opt_text(*path)),
            outputs@,
        ),
{
    match path {
        None => SshBinaryCapability::default(),
        Some(p) => {
            if host.is_file(p.as_str()) {
                SshBinaryCapability {
                    available: true,
                    path: Some(p.clone()),
                    version: find_version(outputs),
                }
            } else {
                SshBinaryCapability { available: false, path: Some(p.clone()), version: None }
            }
        },
    }
}

fn find_version(outputs: &Vec<VersionOutput>) -> (r: Option<String>)
    ensures
        opt_text(r) == first_version(outputs@),
{
    let mut i: usize = 0;
    assert(outputs@.skip(0) =~= outputs@);
    while i < outputs.len()
        invariant
            i <= outputs@.len(),
            first_version(outputs@) == first_version(outputs@.skip(i as int)),
        decreases outputs@.len() - i,
    {
        match parse_version(&outputs[i]) {
            Some(v) => {
                return Some(v);
            },
            None => {},
        }
        assert(outputs@.skip(i as int).drop_first() =~= outputs@.skip(i + 1));
        i = i + 1;
    }
    None
}

/// The version that a program printed.
pub fn parse_version(output: &VersionOutput) -> (r: Option<String>)
    ensures
        opt_text(r) == printed_version(*output),
{
    if !output.success {
        return None;
    }
    match first_non_empty_line(output.stdout.as_slice()) {
        Some(v) => Some(v),
        None => first_non_empty_line(output.stderr.as_slice()),
    }
}

/// The first line of a program's output that is not blank, trimmed and cut.
pub fn first_non_empty_line(bytes: &[u8]) -> (r: Option<String>)
    ensures
        opt_text(r) == first_output_line(bytes@),
{
    let text = decode_lossy(bytes);
    let lines = split(text.as_str(), '\n');
    let mut i: usize = 0;
    assert(texts(lines@).skip(0) =~= texts(lines@));
    while i < lines.len()
        invariant
            i <= lines@.len(),
            texts(lines@) == split_on(utf8_lossy(bytes@), '\n'),
            first_line(texts(lines@)) == first_line(texts(lines@).skip(i as int)),
        decreases lines@.len() - i,
    {
        let line = trim(lines[i].as_str());
        assert(texts(lines@).skip(i as int)[0] == lines@[i as int]@);
        if !line.is_empty() {
            return Some(take_chars(line, VERSION_CHARS));
        }
        assert(texts(lines@).skip(i as int).drop_first() =~= texts(lines@).skip(i + 1));
        i = i + 1;
    }
    None
}

fn detect_macfuse(sshfs: &SshBinaryCapability, installed: bool) -> (r: MacFuseCapability)
    ensures
        describes_macfuse(r, opt_text(sshfs.version), installed),
{
    match &sshfs.version {
        Some(version) => {
            let lower = lowercase(version.as_str());
            if contains(lower.as_str(), "macfuse") {
                return MacFuseCapability {
                    available: true,
                    provider: Some("macFUSE".to_owned()),
                    version: extract_provider_version(version.as_str(), "macfuse"),
                };
            }
            if contains(lower.as_str(), "osxfuse") {
                return MacFuseCapability {
                    available: true,
                    provider: Some("osxfuse".to_owned()),
                    version: extract_provider_version(version.as_str(), "osxfuse"),
                };
            }
        },
        None => {},
    }
    if installed {
        MacFuseCapability {
            available: true,
            provider: Some("macFUSE".to_owned()),
            version: None,
        }
    } else {
        MacFuseCapability { available: false, provider: None, version: None }
    }
}

proof fn lemma_set_trim_start(s: Seq<char>, set: Seq<char>, spaces: bool, i: int)
    requires
        0 <= i <= s.len(),
        forall|k: int| 0 <= k < i ==> is_trimmed(#[trigger] s[k], set, spaces),
        i < s.len() ==> !is_trimmed(s[i], set, spaces),
    ensures
        set_trimmed_start(s, set, spaces) == s.skip(i),
    decreases s.len(),
{
    if i > 0 {
        let t = s.drop_first();
        assert forall|k: int| 0 <= k < i - 1 implies is_trimmed(#[trigger] t[k], set, spaces) by {
            assert(t[k] == s[k + 1]);
        }
        assert(is_trimmed(s[0], set, spaces));
        lemma_set_trim_start(t, set, spaces, i - 1);
        assert(t.skip(i - 1) =~= s.skip(i));
    } else {
        assert(s.skip(0) =~= s);
    }
}

proof fn lemma_set_trim_end(s: Seq<char>, set: Seq<char>, spaces: bool, j: int)
    requires
        0 <= j <= s.len(),
        forall|k: int| j <= k < s.len() ==> is_trimmed(#[trigger] s[k], set, spaces),
        j > 0 ==> !is_trimmed(s[j - 1], set, spaces),
    ensures
        set_trimmed_end(s, set, spaces) == s.take(j),
    decreases s.len(),
{
    if j < s.len() {
        let t = s.drop_last();
        assert forall|k: int| j <= k < t.len() implies is_trimmed(#[trigger] t[k], set, spaces) by {
            assert(t[k] == s[k]);
        }
        assert(is_trimmed(s[s.len() - 1], set, spaces));
        lemma_set_trim_end(t, set, spaces, j);
        assert(t.take(j) =~= s.take(j));
    } else {
        assert(s.take(j) =~= s);
    }
}

fn trim_set<'a>(s: &'a str, set: &str, spaces: bool) -> (r: &'a str)
    ensures
        r@ == set_trimmed(s@, set@, spaces),
{
    let v = chars_of(s);
    let n: usize = v.len();
    let mut i: usize = 0;
    while i < n && (contains_char(set, v[i]) || (spaces && space_char(v[i])))
        invariant
            i <= n == v@.len(),
            forall|k: int| 0 <= k < i ==> is_trimmed(#[trigger] v@[k], set@, spaces),
        decreases n - i,
    {
        i = i + 1;
    }
    let mut j: usize = n;
    while j > i && (contains_char(set, v[j - 1]) || (spaces && space_char(v[j - 1])))
        invariant
            i <= j <= n == v@.len(),
            forall|k: int| j <= k < n ==> is_trimmed(#[trigger] v@[k], set@, spaces),
        decreases j,
    {
        j = j - 1;
    }
    proof {
        lemma_set_trim_start(s@, set@, spaces, i as int);
        let t = s@.skip(i as int);
        assert forall|k: int| j - i <= k < t.len() implies is_trimmed(
            #[trigger] t[k],
            set@,
            spaces,
        ) by {
            assert(t[k] == s@[k + i]);
        }
        lemma_set_trim_end(t, set@, spaces, j - i);
        assert(t.take(j - i) =~= s@.subrange(i as int, j as int));
    }
    s.substring_char(i, j)
}

proof fn lemma_until_space(s: Seq<char>, i: int)
    requires
        0 <= i <= s.len(),
        forall|k: int| 0 <= k < i ==> !is_space(#[trigger] s[k]),
        i < s.len() ==> is_space(s[i]),
    ensures
        until_space(s) == s.take(i),
    decreases s.len(),
{
    if i > 0 {
        let t = s.drop_first();
        assert forall|k: int| 0 <= k < i - 1 implies !is_space(#[trigger] t[k]) by {
            assert(t[k] == s[k + 1]);
        }
        assert(!is_space(s[0]));
        lemma_until_space(t, i - 1);
        assert(seq![s[0]] + t.take(i - 1) =~= s.take(i));
    } else {
        assert(s.take(0) =~= Seq::<char>::empty());
    }
}

fn first_word<'a>(s: &'a str) -> (r: &'a str)
    ensures
        r@ == until_space(s@),
{
    let v = chars_of(s);
    let mut i: usize = 0;
    while i < v.len() && !space_char(v[i])
        invariant
            i <= v@.len(),
            forall|k: int| 0 <= k < i ==> !is_space(#[trigger] v@[k]),
        decreases v@.len() - i,
    {
        i = i + 1;
    }
    proof {
        lemma_until_space(s@, i as int);
        assert(s@.subrange(0, i as int) =~= s@.take(i as int));
    }
    s.substring_char(0, i)
}

/// The version that stands behind a keyword.
pub fn extract_provider_version(raw: &str, keyword: &str) -> (r: Option<String>)
    ensures
        opt_text(r) == provider_version(raw@, keyword@),
{
    let lower = lowercase(raw);
    let at: usize = match find(lower.as_str(), keyword) {
        Some(at) => at,
        None => {
            return None;
        },
    };
    let n: usize = raw.unicode_len();
    let suffix = raw.substring_char(at + keyword.unicode_len(), n);
    assert(suffix@ =~= raw@.skip(at + keyword@.len()));
    let token = trim_set(first_word(trim_set(suffix, ":-/", true)), "(),", false);
    if token.is_empty() {
        None
    } else {
        Some(token.to_owned())
    }
}

/// What is told of the programs of this host is so: one is available exactly where it is
/// found and is a file, and only then has a version; `diskutil` and the FUSE provider are
/// told of on macOS alone.
pub proof fn law_programs_are_told_as_they_are(
    v: SshCapabilityView,
    config: SshConfigText,
    host: HostFiles,
    seen: ProbeOutputs,
)
    requires
        describes_host(v, config, host, seen),
    ensures
        ({
            let ssh = located(config.ssh_bin_path, Program::Ssh, host);
            let sshfs = located(config.sshfs_bin_path, Program::Sshfs, host);
            let umount = located(config.umount_bin_path, Program::Umount, host);
            let diskutil = located(config.diskutil_bin_path, Program::Diskutil, host);
            let macos = host.platform@ == "macos"@;
            &&& v.platform@ == host.platform@
            &&& v.ssh.available <==> ssh is Some && texts(host.files@).contains(ssh->0)
            &&& v.sshfs.available <==> sshfs is Some && texts(host.files@).contains(sshfs->0)
            &&& v.unmount.available <==> umount is Some && texts(host.files@).contains(umount->0)
            &&& opt_text(v.ssh.path) == ssh
            &&& opt_text(v.sshfs.path) == sshfs
            &&& opt_text(v.unmount.path) == umount
            &&& !v.ssh.available ==> v.ssh.version is None
            &&& !v.sshfs.available ==> v.sshfs.version is None
            &&& !v.unmount.available ==> v.unmount.version is None
            &&& v.diskutil is Some <==> macos && diskutil is Some
            &&& v.diskutil is Some ==> (v.diskutil->0.available <==> texts(host.files@).contains(
                diskutil->0,
            ))
            &&& v.macfuse is Some <==> macos
        }),
{
}

/// The version of a program is the first line with something on it that it has printed,
/// without white space around it and at most 256 characters long; standard output goes
/// before standard error, and a program that has failed has none.
pub proof fn law_version_is_the_first_line(
    o: VersionOutput,
    rest: Seq<VersionOutput>,
    line: Seq<char>,
    lines: Seq<Seq<char>>,
)
    ensures
        !o.success ==> printed_version(o) is None,
        o.success && first_output_line(o.stdout@) is Some ==> printed_version(o)
            == first_output_line(o.stdout@),
        o.success && first_output_line(o.stdout@) is None ==> printed_version(o)
            == first_output_line(o.stderr@),
        trimmed(line).len() == 0 ==> first_line(seq![line] + lines) == first_line(lines),
        0 < trimmed(line).len() <= 256 ==> first_line(seq![line] + lines) == Some(trimmed(line)),
        trimmed(line).len() > 256 ==> first_line(seq![line] + lines) == Some(
            trimmed(line).take(256),
        ),
        first_line(seq![]) is None,
        printed_version(o) is Some ==> first_version(seq![o] + rest) == printed_version(o),
        printed_version(o) is None ==> first_version(seq![o] + rest) == first_version(rest),
        first_version(seq![]) is None,
{
    assert((seq![line] + lines).drop_first() =~= lines);
    assert((seq![o] + rest).drop_first() =~= rest);
}

/// The FUSE provider is the one that `sshfs` names, in whatever case, or else macFUSE
/// where a provider is installed.
pub proof fn law_fuse_provider_is_the_named_one(
    c: MacFuseCapability,
    sshfs_version: Option<Seq<char>>,
    installed: bool,
)
    requires
        describes_macfuse(c, sshfs_version, installed),
    ensures
        ({
            let said = sshfs_version is Some;
            let mac = said && has_part(lowered(sshfs_version->0), "macfuse"@);
            let osx = said && has_part(lowered(sshfs_version->0), "osxfuse"@);
            &&& c.available <==> mac || osx || installed
            &&& mac ==> opt_text(c.provider) == Some("macFUSE"@)
            &&& !mac && osx ==> opt_text(c.provider) == Some("osxfuse"@)
            &&& !mac && !osx && installed ==> opt_text(c.provider) == Some("macFUSE"@)
                && c.version is None
            &&& !c.available ==> c.provider is None && c.version is None
        }),
{
}

/// The version of a provider is the word behind its name.
pub proof fn law_provider_version_stands_behind_the_name(
    head: Seq<char>,
    keyword: Seq<char>,
    word: Seq<char>,
)
    requires
        find_from(lowered(head + keyword + seq![' '] + word), keyword, 0) == Some(
            head.len() as int,
        ),
        word.len() > 0,
        forall|i: int|
            0 <= i < word.len() ==> {
                let c = #[trigger] word[i];
                !is_space(c) && c != ':' && c != '-' && c != '/' && c != '(' && c != ')' && c
                    != ','
            },
    ensures
        provider_version(head + keyword + seq![' '] + word, keyword) == Some(word),
{
    let raw = head + keyword + seq![' '] + word;
    let suffix = seq![' '] + word;
    assert(raw.skip((head.len() + keyword.len()) as int) =~= suffix);
    reveal_strlit(":-/");
    reveal_strlit("(),");
    let outer = ":-/"@;
    let inner = "(),"@;
    assert forall|i: int| 0 <= i < word.len() implies !is_trimmed(
        #[trigger] word[i],
        outer,
        true,
    ) && !is_trimmed(word[i], inner, false) by {
        if outer.contains(word[i]) {
            let k = outer.index_of(word[i]);
            assert(outer[k] == word[i]);
        }
        if inner.contains(word[i]) {
            let k = inner.index_of(word[i]);
            assert(inner[k] == word[i]);
        }
    }
    assert(is_space(' '));
    assert(is_trimmed(suffix[0], outer, true));
    assert(suffix[1] == word[0]);
    lemma_set_trim_start(suffix, outer, true, 1);
    assert(suffix.skip(1) =~= word);
    assert(!is_trimmed(word[word.len() - 1], outer, true));
    lemma_set_trim_end(word, outer, true, word.len() as int);
    assert(word.take(word.len() as int) =~= word);
    lemma_until_space(word, word.len() as int);
    assert(!is_trimmed(word[0], inner, false));
    lemma_set_trim_start(word, inner, false, 0);
    assert(word.skip(0) =~= word);
    assert(!is_trimmed(word[word.len() - 1], inner, false));
    lemma_set_trim_end(word, inner, false, word.len() as int);
}

} // verus!
