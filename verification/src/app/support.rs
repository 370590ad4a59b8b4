//! Checks and messages that several services share.
use crate::config::{add_path, has_path, with_path, Config, ConfigText};
use crate::error::Failure;
use crate::json::{scalar_text, JsonValue};
use crate::ordered::{map_texts, OrderedMap};
use crate::outside::{decode_lossy, utf8_lossy};
use crate::path::same_path;
use crate::ssh::model::{debug_opt, debug_option, SshConnectionId};
use crate::ssh::runtime::{code_debug, debug_code, given, preview, stderr_preview, CommandOutput};
use crate::text::{
    cat2, cat4, cat6, clone_strings, contains_char, decimal_text, find, find_from, has_part,
    is_blank, is_space, law_decimal_form_reads_back, law_search_finds_the_first, occurs_at,
    opt_text, parse_unsigned, same, split, split_on, starts_with, texts, trim, trimmed,
    unsigned_value,
};
use vstd::prelude::*;
use vstd::string::*;
use vstd::utf8::encode_utf8;

verus! {

/// The configuration as the application uses it: the root of managed mounts is
/// allowed for sessions and for mounts, and mounts are allowed where sessions are
/// where nothing else is said.
pub open spec fn normalized_config(c: ConfigText) -> ConfigText {
    let cwd = match c.ssh.managed_mount_root {
        Some(root) => with_path(c.allowed_cwd_roots, root),
        None => c.allowed_cwd_roots,
    };
    let mounts = match c.ssh.managed_mount_root {
        Some(root) => with_path(c.ssh.allowed_mount_roots, root),
        None => c.ssh.allowed_mount_roots,
    };
    ConfigText {
        allowed_cwd_roots: cwd,
        ssh: crate::config::SshConfigText {
            allowed_mount_roots: if mounts.len() == 0 {
                cwd
            } else {
                mounts
            },
            ..c.ssh
        },
        ..c
    }
}

/// Brings a configuration into the form that the application uses.
pub fn normalize_ssh_config(config: Config) -> (r: Config)
    ensures
        r@ == normalized_config(config@),
{
    let mut config = config;
    match &config.ssh.managed_mount_root {
        Some(root) => {
            let root = root.clone();
            add_path(&mut config.allowed_cwd_roots, root.as_str());
            add_path(&mut config.ssh.allowed_mount_roots, root.as_str());
        },
        None => {},
    }
    if config.ssh.allowed_mount_roots.len() == 0 {
        config.ssh.allowed_mount_roots = clone_strings(&config.allowed_cwd_roots);
    }
    config
}

/// Whether a remote working directory has a form that is understood.
pub open spec fn good_remote_cwd(cwd: Seq<char>) -> bool {
    "/"@.is_prefix_of(cwd) || cwd == "~"@ || "~/"@.is_prefix_of(cwd)
}

/// Whether a remote working directory has a form that is understood.
pub fn is_valid_remote_cwd(cwd: &str) -> (r: bool)
    ensures
        r == good_remote_cwd(cwd@),
{
    starts_with(cwd, "/") || same(cwd, "~") || starts_with(cwd, "~/")
}

/// Why a remote variable is refused, if it is.
pub open spec fn remote_variable_refusal(key: Seq<char>, value: JsonValue) -> Option<Seq<char>> {
    if key.len() == 0 {
        Some("remote env key cannot be empty"@)
    } else if scalar_text(value) is Some {
        None
    } else if value is Null {
        Some("remote env value cannot be null: env_key="@ + key)
    } else {
        Some("remote env value must be a scalar: env_key="@ + key)
    }
}

/// The environment that remote variables make, the later ones prevailing, or why
/// the first refused one of them is refused.
pub open spec fn remote_env(env: Seq<(String, JsonValue)>) -> Result<
    Map<Seq<char>, Seq<char>>,
    Seq<char>,
>
    decreases env.len(),
{
    if env.len() == 0 {
        Ok(Map::empty())
    } else {
        match remote_env(env.drop_last()) {
            Err(why) => Err(why),
            Ok(map) => {
                let key = trimmed(env.last().0@);
                match remote_variable_refusal(key, env.last().1) {
                    Some(why) => Err(why),
                    None => Ok(map.insert(key, scalar_text(env.last().1)->0)),
                }
            },
        }
    }
}

/// The environment of a request, which may have none.
pub open spec fn remote_env_opt(env: Option<Vec<(String, JsonValue)>>) -> Result<
    Map<Seq<char>, Seq<char>>,
    Seq<char>,
> {
    match env {
        Some(v) => remote_env(v@),
        None => Ok(Map::empty()),
    }
}

proof fn lemma_remote_env_stops(env: Seq<(String, JsonValue)>, i: int)
    requires
        0 <= i <= env.len(),
    ensures
        remote_env(env.take(i)) is Err ==> remote_env(env) == remote_env(env.take(i)),
    decreases env.len(),
{
    if i < env.len() {
        lemma_remote_env_stops(env.drop_last(), i);
        assert(env.drop_last().take(i) =~= env.take(i));
    } else {
        assert(env.take(i) =~= env);
    }
}

/// The environment that remote variables make.
pub fn normalize_remote_env_preview(env: &Option<Vec<(String, JsonValue)>>) -> (r: Result<
    OrderedMap<String>,
    Failure,
>)
    ensures
        match r {
            Ok(map) => map.wf() && remote_env_opt(*env) == Ok::<
                Map<Seq<char>, Seq<char>>,
                Seq<char>,
            >(map_texts(map@)),
            Err(e) => remote_env_opt(*env) == Err::<Map<Seq<char>, Seq<char>>, Seq<char>>(e@),
        },
{
    let mut map: OrderedMap<String> = OrderedMap::new();
    assert(map_texts(map@) =~= Map::<Seq<char>, Seq<char>>::empty());
    let list = match env {
        Some(list) => list,
        None => {
            return Ok(map);
        },
    };
    let mut i: usize = 0;
    assert(list@.take(0) =~= Seq::<(String, JsonValue)>::empty());
    while i < list.len()
        invariant
            i <= list@.len(),
            map.wf(),
            remote_env_opt(*env) == remote_env(list@),
            remote_env(list@.take(i as int)) == Ok::<Map<Seq<char>, Seq<char>>, Seq<char>>(
                map_texts(map@),
            ),
        decreases list@.len() - i,
    {
        let ghost before = map@;
        let entry = &list[i];
        let key = trim(entry.0.as_str());
        proof {
            let t = list@.take(i + 1);
            assert(t.drop_last() =~= list@.take(i as int));
            assert(t.last() == list@[i as int]);
            lemma_remote_env_stops(list@, i + 1);
        }
        if key.is_empty() {
            return Err(Failure::new("remote env key cannot be empty".to_owned()));
        }
        match entry.1.scalar() {
            Some(value) => {
                let _ = map.insert(key.to_owned(), value);
                assert(map_texts(map@) =~= map_texts(before).insert(key@, value@));
            },
            None => {
                if entry.1.is_null() {
                    return Err(
                        Failure::new(cat2("remote env value cannot be null: env_key=", key)),
                    );
                }
                return Err(
                    Failure::new(cat2("remote env value must be a scalar: env_key=", key)),
                );
            },
        }
        i = i + 1;
    }
    assert(list@.take(i as int) =~= list@);
    Ok(map)
}

/// What a line says of the size of a file that is too large.
pub open spec fn marked_size(line: Seq<char>) -> Option<nat> {
    match find_from(line, "__PTY_MCP_FILE_TOO_LARGE__:"@, 0) {
        None => None,
        Some(at) => match unsigned_value(
            trimmed(line.skip(at + "__PTY_MCP_FILE_TOO_LARGE__:"@.len())),
            usize::MAX as nat,
        ) {
            Ok(n) => Some(n),
            Err(_) => None,
        },
    }
}

/// What the first line that says it says of the size of a file that is too large.
pub open spec fn first_marked_size(lines: Seq<Seq<char>>) -> Option<nat>
    decreases lines.len(),
{
    if lines.len() == 0 {
        None
    } else if marked_size(lines[0]) is Some {
        marked_size(lines[0])
    } else {
        first_marked_size(lines.drop_first())
    }
}

fn line_marked_size(line: &str) -> (r: Option<usize>)
    ensures
        match r {
            Some(n) => marked_size(line@) == Some(n as nat),
            None => marked_size(line@) is None,
        },
{
    let marker = "__PTY_MCP_FILE_TOO_LARGE__:";
    let at: usize = match find(line, marker) {
        Some(at) => at,
        None => {
            return None;
        },
    };
    let n: usize = line.unicode_len();
    let rest = line.substring_char(at + marker.unicode_len(), n);
    assert(rest@ =~= line@.skip(at + marker@.len()));
    match parse_unsigned(trim(rest), usize::MAX as u64) {
        Ok(size) => {
            proof {
                crate::text::lemma_unsigned_value_bound(trimmed(rest@), usize::MAX as nat);
            }
            Some(size as usize)
        },
        Err(_) => None,
    }
}

/// The size of a file that is too large, where the remote side has said so.
pub fn parse_file_too_large_marker(stderr: &str) -> (r: Option<usize>)
    ensures
        match r {
            Some(n) => first_marked_size(split_on(stderr@, '\n')) == Some(n as nat),
            None => first_marked_size(split_on(stderr@, '\n')) is None,
        },
{
    let lines = split(stderr, '\n');
    let mut i: usize = 0;
    assert(texts(lines@).skip(0) =~= texts(lines@));
    while i < lines.len()
        invariant
            i <= lines@.len(),
            texts(lines@) == split_on(stderr@, '\n'),
            first_marked_size(texts(lines@)) == first_marked_size(texts(lines@).skip(i as int)),
        decreases lines@.len() - i,
    {
        assert(texts(lines@).skip(i as int)[0] == lines@[i as int]@);
        match line_marked_size(lines[i].as_str()) {
            Some(n) => {
                return Some(n);
            },
            None => {},
        }
        assert(texts(lines@).skip(i as int).drop_first() =~= texts(lines@).skip(i + 1));
        i = i + 1;
    }
    None
}

/// Says that a remote command failed.
pub open spec fn remote_failure_text(
    message: Seq<char>,
    connection: Seq<char>,
    path: Option<Seq<char>>,
    o: CommandOutput,
) -> Seq<char> {
    message + ": connection_id="@ + connection + " path="@ + debug_opt(path) + " exit_code="@ + (
    code_debug(o.exit_code) + " stderr_preview="@ + preview(utf8_lossy(o.stderr@))
        + " stdout_preview="@ + preview(utf8_lossy(o.stdout@)))
}

/// The failure of a remote command.
pub fn remote_command_failed(
    message: &str,
    connection_id: &SshConnectionId,
    path: Option<&str>,
    output: &CommandOutput,
) -> (r: Failure)
    ensures
        r@ == remote_failure_text(
            message@,
            connection_id@,
            match path {
                Some(p) => Some(p@),
                None => None,
            },
            *output,
        ),
{
    let stderr = decode_lossy(output.stderr.as_slice());
    let stdout = decode_lossy(output.stdout.as_slice());
    let path_text = debug_option(path);
    let code = debug_code(output.exit_code);
    let err = stderr_preview(stderr.as_str());
    let out = stderr_preview(stdout.as_str());
    let head = cat6(
        message,
        ": connection_id=",
        connection_id.as_str(),
        " path=",
        path_text.as_str(),
        " exit_code=",
    );
    let tail = cat4(code.as_str(), " stderr_preview=", err.as_str(), " stdout_preview=");
    let tail = cat2(tail.as_str(), out.as_str());
    Failure::new(cat2(head.as_str(), tail.as_str()))
}

/// Why a remote path is refused, if it is.
pub open spec fn path_refusal(path: Seq<char>, field: Seq<char>) -> Option<Seq<char>> {
    if is_blank(path) {
        Some(field + " cannot be empty"@)
    } else if trimmed(path).contains('\0') {
        Some(field + " cannot contain NUL bytes"@)
    } else {
        None
    }
}

/// A remote path, trimmed.
pub fn validate_remote_path<'a>(path: &'a str, field: &str) -> (r: Result<&'a str, Failure>)
    ensures
        match r {
            Ok(p) => path_refusal(path@, field@) is None && p@ == trimmed(path@),
            Err(e) => path_refusal(path@, field@) == Some(e@),
        },
{
    let path = trim(path);
    if path.is_empty() {
        return Err(Failure::new(cat2(field, " cannot be empty")));
    }
    if contains_char(path, '\0') {
        return Err(Failure::new(cat2(field, " cannot contain NUL bytes")));
    }
    Ok(path)
}

/// The most that may be read of a remote file.
pub const MAX_READ_BYTES: usize = 524_288;

/// The most that may be written to a remote file at once.
pub const MAX_WRITE_BYTES: usize = 262_144;

/// Why a limit on reading is refused, if it is.
pub open spec fn max_bytes_refusal(max_bytes: usize) -> Option<Seq<char>> {
    if max_bytes == 0 {
        Some("ssh_read_file max_bytes must be greater than zero"@)
    } else if max_bytes > MAX_READ_BYTES {
        Some("ssh_read_file max_bytes must be at most 524288"@)
    } else {
        None
    }
}

/// A limit on reading.
pub fn validate_remote_max_bytes(max_bytes: usize) -> (r: Result<usize, Failure>)
    ensures
        match r {
            Ok(n) => max_bytes_refusal(max_bytes) is None && n == max_bytes,
            Err(e) => max_bytes_refusal(max_bytes) == Some(e@),
        },
{
    if max_bytes == 0 {
        return Err(Failure::new("ssh_read_file max_bytes must be greater than zero".to_owned()));
    }
    if max_bytes > MAX_READ_BYTES {
        return Err(Failure::new("ssh_read_file max_bytes must be at most 524288".to_owned()));
    }
    Ok(max_bytes)
}

/// Checks how much is to be written, in bytes.
pub fn validate_remote_write_size(content: &str) -> (r: Result<(), Failure>)
    ensures
        match r {
            Ok(_) => encode_utf8(content@).len() <= MAX_WRITE_BYTES,
            Err(e) => {
                &&& encode_utf8(content@).len() > MAX_WRITE_BYTES
                &&& e@ == "ssh_write_file content must be at most 262144 bytes"@
            },
        },
{
    let bytes = content.as_bytes();
    if bytes.len() > MAX_WRITE_BYTES {
        return Err(Failure::new("ssh_write_file content must be at most 262144 bytes".to_owned()));
    }
    Ok(())
}

/// A description: the given one, trimmed, or the usual one where it is blank.
pub open spec fn described(description: Option<Seq<char>>, usual: Seq<char>) -> Seq<char> {
    match given(description) {
        Some(d) => d,
        None => usual,
    }
}

/// A description: the given one, trimmed, or the usual one where it is blank.
pub fn describe(description: &Option<String>, usual: String) -> (r: String)
    ensures
        r@ == described(opt_text(*description), usual@),
{
    match crate::ssh::runtime::given_str(description) {
        Some(d) => d.to_owned(),
        None => usual,
    }
}

/// How a request is taken: by a service, which tidies descriptions and words failures
/// in its own way, or directly, which leaves them as they are.
#[derive(Debug, Clone, Copy, PartialEq, Eq, Structural)]
pub enum Manner {
    Service,
    Direct,
}

/// A description in a manner: a direct request keeps the given one as it is.
pub open spec fn described_in(
    manner: Manner,
    description: Option<Seq<char>>,
    usual: Seq<char>,
) -> Seq<char> {
    match (manner, description) {
        (Manner::Direct, Some(d)) => d,
        _ => described(description, usual),
    }
}

/// A description in a manner: a direct request keeps the given one as it is.
pub fn describe_in(manner: Manner, description: &Option<String>, usual: String) -> (r: String)
    ensures
        r@ == described_in(manner, opt_text(*description), usual@),
{
    match (manner, description) {
        (Manner::Direct, Some(d)) => d.clone(),
        _ => describe(description, usual),
    }
}

/// Remote variables are taken exactly where each of them has a name and a string, a
/// number or a truth value. Then those that are named are set and no others, each to
/// the value that it is given last.
pub proof fn law_remote_variables_are_taken_as_given(
    env: Seq<(String, JsonValue)>,
    k: Seq<char>,
    last: int,
)
    ensures
        remote_env(env) is Ok <==> forall|i: int|
            0 <= i < env.len() ==> trimmed((#[trigger] env[i]).0@).len() > 0 && (env[i].1 is Text
                || env[i].1 is Number || env[i].1 is Bool),
        remote_env(env) matches Ok(map) ==> (map.contains_key(k) <==> exists|i: int|
            0 <= i < env.len() && trimmed((#[trigger] env[i]).0@) == k),
        remote_env(env) matches Ok(map) ==> (0 <= last < env.len() && trimmed(env[last].0@) == k
            && (forall|j: int|
            last < j < env.len() ==> trimmed((#[trigger] env[j]).0@) != k)) ==> map[k]
            == scalar_text(env[last].1)->0,
    decreases env.len(),
{
    if env.len() > 0 {
        let front = env.drop_last();
        law_remote_variables_are_taken_as_given(front, k, last);
        let all = forall|i: int|
            0 <= i < env.len() ==> trimmed((#[trigger] env[i]).0@).len() > 0 && (env[i].1 is Text
                || env[i].1 is Number || env[i].1 is Bool);
        if remote_env(env) is Ok {
            assert forall|i: int| 0 <= i < env.len() implies trimmed((#[trigger] env[i]).0@).len()
                > 0 && (env[i].1 is Text || env[i].1 is Number || env[i].1 is Bool) by {
                if i < front.len() {
                    assert(front[i] == env[i]);
                }
            }
            let map = remote_env(env)->Ok_0;
            if map.contains_key(k) {
                if trimmed(env.last().0@) == k {
                    assert(trimmed(env[env.len() - 1].0@) == k);
                } else {
                    let i = choose|i: int|
                        0 <= i < front.len() && trimmed((#[trigger] front[i]).0@) == k;
                    assert(trimmed(env[i].0@) == k);
                }
            }
            if exists|i: int| 0 <= i < env.len() && trimmed((#[trigger] env[i]).0@) == k {
                let i = choose|i: int| 0 <= i < env.len() && trimmed((#[trigger] env[i]).0@) == k;
                if i < front.len() {
                    assert(trimmed(front[i].0@) == k);
                }
            }
            if 0 <= last < env.len() && trimmed(env[last].0@) == k && (forall|j: int|
                last < j < env.len() ==> trimmed((#[trigger] env[j]).0@) != k) {
                if last < front.len() {
                    assert(front[last] == env[last]);
                    assert forall|j: int| last < j < front.len() implies trimmed(
                        (#[trigger] front[j]).0@,
                    ) != k by {
                        assert(front[j] == env[j]);
                    }
                    assert(trimmed(env[env.len() - 1].0@) != k);
                }
            }
        } else if all {
            assert forall|i: int| 0 <= i < front.len() implies trimmed(
                (#[trigger] front[i]).0@,
            ).len() > 0 && (front[i].1 is Text || front[i].1 is Number || front[i].1 is Bool) by {
                assert(front[i] == env[i]);
            }
            assert(trimmed(env[env.len() - 1].0@).len() > 0);
        }
    }
}

/// A remote directory is the remote home, something below it, or an absolute path.
pub proof fn law_remote_directories(cwd: Seq<char>)
    ensures
        good_remote_cwd(cwd) <==> cwd.len() > 0 && (cwd[0] == '/' || (cwd[0] == '~' && (cwd.len()
            == 1 || cwd[1] == '/'))),
{
    reveal_strlit("/");
    reveal_strlit("~");
    reveal_strlit("~/");
    if cwd.len() > 0 && cwd[0] == '/' {
        assert("/"@ =~= cwd.take(1));
    }
    if cwd.len() == 1 && cwd[0] == '~' {
        assert(cwd =~= "~"@);
    }
    if cwd.len() > 1 && cwd[0] == '~' && cwd[1] == '/' {
        assert("~/"@ =~= cwd.take(2));
    }
    if "/"@.is_prefix_of(cwd) {
        assert(cwd[0] == "/"@[0]);
    }
    if "~/"@.is_prefix_of(cwd) {
        assert(cwd[0] == "~/"@[0] && cwd[1] == "~/"@[1]);
    }
}

/// A remote path is taken exactly where something is left of it without white space
/// around it and that holds no zero character.
pub proof fn law_remote_paths(path: Seq<char>, field: Seq<char>)
    ensures
        path_refusal(path, field) is None <==> trimmed(path).len() > 0 && forall|i: int|
            0 <= i < trimmed(path).len() ==> #[trigger] trimmed(path)[i] != '\0',
{
    let t = trimmed(path);
    if t.contains('\0') {
        let i = t.index_of('\0');
        assert(t[i] == '\0');
    }
}

/// At least one byte and at most half a mebibyte of a remote file is read; a quarter of
/// one is written at most.
pub proof fn law_size_limits(max_bytes: usize)
    ensures
        max_bytes_refusal(max_bytes) is None <==> 1 <= max_bytes <= 524_288,
        MAX_WRITE_BYTES == 262_144,
{
}

/// The size that the remote side names behind the mark is the one that is read, and
/// without the mark none is.
pub proof fn law_marked_size_is_read(line: Seq<char>, n: nat)
    ensures
        n <= usize::MAX ==> marked_size("__PTY_MCP_FILE_TOO_LARGE__:"@ + decimal_text(n)) == Some(
            n,
        ),
        !has_part(line, "__PTY_MCP_FILE_TOO_LARGE__:"@) ==> marked_size(line) is None,
{
    let mark = "__PTY_MCP_FILE_TOO_LARGE__:"@;
    law_search_finds_the_first(line, mark, 0);
    if n <= usize::MAX {
        let digits = decimal_text(n);
        let all = mark + digits;
        law_decimal_form_reads_back(n, usize::MAX as nat);
        assert(all.subrange(0, mark.len() as int) =~= mark);
        assert(occurs_at(all, mark, 0));
        law_search_finds_the_first(all, mark, 0);
        assert(find_from(all, mark, 0) == Some(0int));
        assert(all.skip(mark.len() as int) =~= digits);
        assert(!is_space(digits[0]));
        assert(!is_space(digits[digits.len() - 1]));
        assert(trimmed(digits) =~= digits);
        assert(digits[0] != '+');
    }
}

/// A description is the given one without white space around it, or the usual one where
/// nothing is left; a direct request keeps the given one as it is.
pub proof fn law_descriptions(
    manner: Manner,
    description: Option<Seq<char>>,
    usual: Seq<char>,
)
    ensures
        ({
            let r = described_in(manner, description, usual);
            &&& manner == Manner::Direct && description is Some ==> r == description->0
            &&& manner == Manner::Service && description is Some && trimmed(description->0).len()
                > 0 ==> r == trimmed(description->0)
            &&& manner == Manner::Service && description is Some && trimmed(description->0).len()
                == 0 ==> r == usual
            &&& description is None ==> r == usual
        }),
{
}

/// The application allows the managed root for sessions and for mounts, and mounts where
/// sessions may start where nothing else is said; everything else stays as configured.
pub proof fn law_managed_root_is_allowed(c: ConfigText)
    ensures
        ({
            let r = normalized_config(c);
            let root = c.ssh.managed_mount_root;
            &&& root is None ==> r.allowed_cwd_roots == c.allowed_cwd_roots
            &&& root is Some ==> r.allowed_cwd_roots == with_path(c.allowed_cwd_roots, root->0)
            &&& root is Some ==> has_path(r.allowed_cwd_roots, root->0)
            &&& root is Some ==> has_path(r.ssh.allowed_mount_roots, root->0)
            &&& root is None && c.ssh.allowed_mount_roots.len() > 0 ==> r.ssh.allowed_mount_roots
                == c.ssh.allowed_mount_roots
            &&& root is None && c.ssh.allowed_mount_roots.len() == 0 ==> r.ssh.allowed_mount_roots
                == c.allowed_cwd_roots
            &&& c.ssh.allowed_mount_roots.is_prefix_of(r.ssh.allowed_mount_roots)
            &&& c.allowed_cwd_roots.is_prefix_of(r.allowed_cwd_roots)
            &&& r.session_limit == c.session_limit
            &&& r.default_read_limit == c.default_read_limit
            &&& r.max_buffer_lines == c.max_buffer_lines
            &&& r.allowed_commands == c.allowed_commands
            &&& r.denied_commands == c.denied_commands
            &&& r.allowed_env_vars == c.allowed_env_vars
            &&& r.denied_env_vars == c.denied_env_vars
            &&& r.ssh.ssh_bin_path == c.ssh.ssh_bin_path
            &&& r.ssh.sshfs_bin_path == c.ssh.sshfs_bin_path
            &&& r.ssh.umount_bin_path == c.ssh.umount_bin_path
            &&& r.ssh.diskutil_bin_path == c.ssh.diskutil_bin_path
            &&& r.ssh.managed_mount_root == c.ssh.managed_mount_root
            &&& r.ssh.allowed_hosts == c.ssh.allowed_hosts
            &&& r.ssh.denied_hosts == c.ssh.denied_hosts
            &&& r.ssh.allowed_users == c.ssh.allowed_users
            &&& r.ssh.allowed_auth_kinds == c.ssh.allowed_auth_kinds
            &&& r.ssh.allow_explicit_mount_paths == c.ssh.allow_explicit_mount_paths
            &&& r.ssh.port_min == c.ssh.port_min
            &&& r.ssh.port_max == c.ssh.port_max
        }),
{
    let r = normalized_config(c);
    if c.ssh.managed_mount_root is Some {
        let root = c.ssh.managed_mount_root->0;
        lemma_with_path(c.allowed_cwd_roots, root);
        lemma_with_path(c.ssh.allowed_mount_roots, root);
    }
    if c.ssh.allowed_mount_roots.len() == 0 {
        assert(c.ssh.allowed_mount_roots =~= r.ssh.allowed_mount_roots.subrange(0, 0));
    }
    assert(c.ssh.allowed_mount_roots.subrange(0, c.ssh.allowed_mount_roots.len() as int)
        =~= c.ssh.allowed_mount_roots);
    assert(c.allowed_cwd_roots.subrange(0, c.allowed_cwd_roots.len() as int)
        =~= c.allowed_cwd_roots);
}

proof fn lemma_with_path(list: Seq<Seq<char>>, path: Seq<char>)
    ensures
        has_path(with_path(list, path), path),
        list.is_prefix_of(with_path(list, path)),
        with_path(list, path).len() > 0,
{
    let r = with_path(list, path);
    if !has_path(list, path) {
        assert(same_path(r[list.len() as int], path));
    }
    assert(list =~= r.subrange(0, list.len() as int));
}

/// The size that is read is that of the first line which says one; where no line does,
/// none is read.
pub proof fn law_first_marked_line_counts(lines: Seq<Seq<char>>, i: int)
    ensures
        0 <= i < lines.len() && marked_size(lines[i]) is Some && (forall|j: int|
            0 <= j < i ==> marked_size(#[trigger] lines[j]) is None) ==> first_marked_size(lines)
            == marked_size(lines[i]),
        first_marked_size(lines) is None <==> forall|j: int|
            0 <= j < lines.len() ==> marked_size(#[trigger] lines[j]) is None,
    decreases lines.len(),
{
    if lines.len() > 0 {
        let rest = lines.drop_first();
        law_first_marked_line_counts(rest, i - 1);
        assert forall|j: int| 0 <= j < rest.len() implies #[trigger] rest[j] == lines[j + 1] by {}
        if marked_size(lines[0]) is None {
            if 0 < i < lines.len() && (forall|j: int|
                0 <= j < i ==> marked_size(#[trigger] lines[j]) is None) {
                assert forall|j: int| 0 <= j < i - 1 implies marked_size(
                    #[trigger] rest[j],
                ) is None by {
                    assert(rest[j] == lines[j + 1]);
                }
            }
            if forall|j: int| 0 <= j < rest.len() ==> marked_size(#[trigger] rest[j]) is None {
                assert forall|j: int| 0 <= j < lines.len() implies marked_size(
                    #[trigger] lines[j],
                ) is None by {
                    if j > 0 {
                        assert(rest[j - 1] == lines[j]);
                    }
                }
            }
            if forall|j: int| 0 <= j < lines.len() ==> marked_size(#[trigger] lines[j]) is None {
                assert forall|j: int| 0 <= j < rest.len() implies marked_size(
                    #[trigger] rest[j],
                ) is None by {
                    assert(rest[j] == lines[j + 1]);
                }
            }
        }
    }
}

} // verus!
