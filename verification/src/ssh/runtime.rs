//! The commands that SSH is driven with, and what their outcomes mean.
use super::model::{SshAuthKind, SshConnectionSummary, SshMountSummary, SshTarget, SshTunnelSummary, TargetText, target_summary};
use super::shell::{shell_escape, shell_quoted};
use crate::error::Failure;
use crate::ordered::{lemma_listing_unique, lists_in_order, map_texts, OrderedMap};
use crate::outside::{decode_lossy, utf8_lossy};
use crate::text::{
    blank, cat2, cat3, cat4, cat5, chars_of, contains, contains_char, decimal, decimal_text,
    first_chars, has_part, is_blank, join, joined, opt_text, same, signed_decimal, signed_text,
    strip_prefix, take_chars, texts, trim, trimmed,
};
use vstd::prelude::*;

verus! {

pub const DEFAULT_CONNECT_TIMEOUT_SECS: u64 = 8;

pub const DEFAULT_MOUNT_TIMEOUT_MS: u64 = 15_000;

pub const DEFAULT_UNMOUNT_TIMEOUT_MS: u64 = 10_000;

pub const DEFAULT_CAPTURE_TIMEOUT_MS: u64 = 20_000;

/// How many characters of a command's output a message quotes at most.
pub const PREVIEW_CHARS: usize = 512;

/// A request to find out whether a target can be reached.
#[derive(Debug, PartialEq, Eq)]
pub struct SshConnectVerificationRequest {
    pub ssh_bin_path: Option<String>,
    pub target: SshTarget,
    pub auth_kind: SshAuthKind,
    pub identity_path: Option<String>,
    pub verify_host_key: bool,
    pub connect_timeout_secs: Option<u64>,
}

/// A request for a remote session.
#[derive(Debug, PartialEq, Eq)]
pub struct SshSessionSpawnPlanRequest {
    pub ssh_bin_path: Option<String>,
    pub target: SshTarget,
    pub auth_kind: SshAuthKind,
    pub identity_path: Option<String>,
    pub verify_host_key: bool,
    pub command: Option<String>,
    pub args: Vec<String>,
    pub cwd: Option<String>,
    pub env: OrderedMap<String>,
    pub shell: Option<String>,
    pub interactive: bool,
    pub login: bool,
}

/// A request to run a remote script.
#[derive(Debug, PartialEq, Eq)]
pub struct SshExecPlanRequest {
    pub ssh_bin_path: Option<String>,
    pub target: SshTarget,
    pub auth_kind: SshAuthKind,
    pub identity_path: Option<String>,
    pub verify_host_key: bool,
    pub script: String,
    pub cwd: Option<String>,
    pub env: OrderedMap<String>,
    pub shell: Option<String>,
    pub login: bool,
}

/// A request for a mount.
#[derive(Debug, PartialEq, Eq)]
pub struct SshMountPlanRequest {
    pub mount: SshMountSummary,
    pub connection: SshConnectionSummary,
    pub auth_kind: SshAuthKind,
    pub identity_path: Option<String>,
    pub verify_host_key: bool,
    pub sshfs_bin_path: Option<String>,
}

/// A request to take a mount away.
#[derive(Debug, PartialEq, Eq)]
pub struct SshUnmountRequest {
    pub mount: SshMountSummary,
    pub force: bool,
    pub umount_bin_path: Option<String>,
    pub diskutil_bin_path: Option<String>,
}

/// A request for a tunnel.
#[derive(Debug, PartialEq, Eq)]
pub struct SshTunnelPlanRequest {
    pub ssh_bin_path: Option<String>,
    pub target: SshTarget,
    pub auth_kind: SshAuthKind,
    pub identity_path: Option<String>,
    pub verify_host_key: bool,
    pub bind_host: String,
    pub local_port: u16,
    pub remote_host: String,
    pub remote_port: u16,
}

/// How a remote session is started, with a form of the arguments that can be
/// shown.
#[derive(Debug, PartialEq, Eq)]
pub struct SshSessionSpawnPlan {
    pub command: String,
    pub args: Vec<String>,
    pub public_args: Vec<String>,
    pub remote_command: Option<String>,
}

/// How a tunnel is started.
#[derive(Debug, PartialEq, Eq)]
pub struct SshTunnelPlan {
    pub command: String,
    pub args: Vec<String>,
}

/// A command that is to be run to its end, and what is said where it cannot be.
#[derive(Debug, PartialEq, Eq)]
pub struct CommandPlan {
    pub program: String,
    pub args: Vec<String>,
    pub timeout_ms: u64,
    pub timeout_message: String,
    pub join_message: String,
    pub execution_message: String,
    pub max_output_bytes: Option<usize>,
}

/// What a command that was run to its end left behind.
#[derive(Debug, PartialEq, Eq)]
pub struct CommandOutput {
    pub success: bool,
    pub exit_code: Option<i32>,
    pub signal: Option<i32>,
    pub stdout: Vec<u8>,
    pub stderr: Vec<u8>,
}

/// Says that something SSH needs is not there.
pub open spec fn unavailable_text(message: Seq<char>) -> Seq<char> {
    "required ssh capability is unavailable: "@ + message
}

/// The failure of a request for something that is not there.
pub fn capability_unavailable(message: &str) -> (r: Failure)
    ensures
        r@ == unavailable_text(message@),
{
    Failure::new(cat2("required ssh capability is unavailable: ", message))
}

/// Why a program cannot be used, if it cannot.
pub open spec fn binary_refusal(name: Seq<char>, path: Option<Seq<char>>, is_file: bool) -> Option<
    Seq<char>,
> {
    match path {
        None => Some(unavailable_text(name + " binary path is not configured"@)),
        Some(p) => if is_file {
            None
        } else {
            Some(unavailable_text(name + " binary does not exist at "@ + p))
        },
    }
}

/// The path of a program that can be used.
pub fn ensure_binary(name: &str, path: &Option<String>, is_file: bool) -> (r: Result<
    String,
    Failure,
>)
    ensures
        match r {
            Ok(p) => {
                &&& binary_refusal(name@, opt_text(*path), is_file) is None
                &&& Some(p@) == opt_text(*path)
            },
            Err(e) => binary_refusal(name@, opt_text(*path), is_file) == Some(e@),
        },
{
    match path {
        None => {
            let m = cat2(name, " binary path is not configured");
            Err(capability_unavailable(m.as_str()))
        },
        Some(p) => {
            if is_file {
                Ok(p.clone())
            } else {
                let m = cat3(name, " binary does not exist at ", p.as_str());
                Err(capability_unavailable(m.as_str()))
            }
        },
    }
}

/// What a message quotes of a command's output.
pub open spec fn preview(s: Seq<char>) -> Seq<char> {
    first_chars(trimmed(s), PREVIEW_CHARS as nat)
}

/// What a message quotes of a command's output.
pub fn stderr_preview(output: &str) -> (r: String)
    ensures
        r@ == preview(output@),
{
    take_chars(trim(output), PREVIEW_CHARS)
}

/// The debugging form of an exit code.
pub open spec fn code_debug(code: Option<i32>) -> Seq<char> {
    match code {
        Some(c) => "Some("@ + signed_text(c as int) + ")"@,
        None => "None"@,
    }
}

/// The debugging form of an exit code.
pub fn debug_code(code: Option<i32>) -> (r: String)
    ensures
        r@ == code_debug(code),
{
    match code {
        Some(c) => {
            let n = signed_decimal(c);
            cat3("Some(", n.as_str(), ")")
        },
        None => "None".to_owned(),
    }
}

/// All output of a command as one text.
pub open spec fn combined_text(o: CommandOutput) -> Seq<char> {
    utf8_lossy(o.stdout@) + "\n"@ + utf8_lossy(o.stderr@)
}

/// All output of a command as one text.
pub fn combined_output(o: &CommandOutput) -> (r: String)
    ensures
        r@ == combined_text(*o),
{
    let a = decode_lossy(o.stdout.as_slice());
    let b = decode_lossy(o.stderr.as_slice());
    cat3(a.as_str(), "\n", b.as_str())
}

/// How a failed command is quoted in a message.
pub open spec fn exit_text(o: CommandOutput) -> Seq<char> {
    " exit_code="@ + code_debug(o.exit_code) + " stderr_preview="@ + preview(combined_text(o))
}

fn exit_string(o: &CommandOutput) -> (r: String)
    ensures
        r@ == exit_text(*o),
{
    let code = debug_code(o.exit_code);
    let all = combined_output(o);
    let shown = stderr_preview(all.as_str());
    cat4(" exit_code=", code.as_str(), " stderr_preview=", shown.as_str())
}

/// Says that a command took too long.
pub open spec fn timeout_text(message: Seq<char>, o: CommandOutput) -> Seq<char> {
    message + ":"@ + exit_text(o)
}

/// The failure of a command that took too long.
pub fn timeout_error(message: &str, output: &CommandOutput) -> (r: Failure)
    ensures
        r@ == timeout_text(message@, *output),
{
    let tail = exit_string(output);
    Failure::new(cat3(message, ":", tail.as_str()))
}

/// Says why a command could not be started.
pub open spec fn start_failure_text(execution_message: Seq<char>, message: Seq<char>) -> Seq<char> {
    if has_part(message, "No such file or directory"@) {
        unavailable_text(message)
    } else {
        execution_message + ": "@ + message
    }
}

/// The failure of a command that could not be started.
pub fn start_failure(execution_message: &str, message: &str) -> (r: Failure)
    ensures
        r@ == start_failure_text(execution_message@, message@),
{
    if contains(message, "No such file or directory") {
        capability_unavailable(message)
    } else {
        Failure::new(cat3(execution_message, ": ", message))
    }
}

/// Counts captured bytes against a limit, which the bytes of both streams share.
/// Gives the new count, or the failure where the limit is passed.
pub fn count_captured(captured: usize, read: usize, limit: usize, stream: &str) -> (r: Result<
    usize,
    Failure,
>)
    ensures
        match r {
            Ok(total) => total == captured + read && total <= limit,
            Err(e) => {
                &&& captured + read > limit
                &&& e@ == "ssh command output exceeded max_output_bytes: stream="@ + stream@
                    + " limit="@ + decimal_text(limit as nat)
            },
        },
{
    if captured <= limit && read <= limit - captured {
        Ok(captured + read)
    } else {
        let n = decimal(limit as u64);
        Err(
            Failure::new(
                cat4(
                    "ssh command output exceeded max_output_bytes: stream=",
                    stream,
                    " limit=",
                    n.as_str(),
                ),
            ),
        )
    }
}

/// Where a target is reached: the alias or else the host, with the user before it
/// where there is one.
pub open spec fn destination_text(t: TargetText) -> Seq<char> {
    let host = match t.host_alias {
        Some(alias) => alias,
        None => t.host,
    };
    match t.user {
        Some(user) => if !is_blank(user) {
            user + "@"@ + host
        } else {
            host
        },
        None => host,
    }
}

/// Where a target is reached.
pub fn destination(target: &SshTarget) -> (r: String)
    ensures
        r@ == destination_text(target@),
{
    let host = match &target.host_alias {
        Some(alias) => alias.as_str(),
        None => target.host.as_str(),
    };
    match &target.user {
        Some(user) => if !blank(user.as_str()) {
            cat3(user.as_str(), "@", host)
        } else {
            host.to_owned()
        },
        None => host.to_owned(),
    }
}

/// The arguments about the key of the host.
pub open spec fn host_key_args(verify: bool) -> Seq<Seq<char>> {
    if verify {
        seq!["-o"@, "StrictHostKeyChecking=yes"@]
    } else {
        seq!["-o"@, "StrictHostKeyChecking=no"@, "-o"@, "UserKnownHostsFile=/dev/null"@]
    }
}

/// The arguments about the port.
pub open spec fn port_args(port: Option<u16>) -> Seq<Seq<char>> {
    match port {
        Some(p) => seq!["-p"@, decimal_text(p as nat)],
        None => seq![],
    }
}

/// The arguments about the identity file.
pub open spec fn identity_args(path: Option<Seq<char>>) -> Seq<Seq<char>> {
    match path {
        Some(p) => seq!["-i"@, p],
        None => seq![],
    }
}

/// The arguments about which identities are tried.
pub open spec fn agent_args(kind: SshAuthKind) -> Seq<Seq<char>> {
    if kind == SshAuthKind::SshAgent {
        seq!["-o"@, "IdentitiesOnly=no"@]
    } else {
        seq!["-o"@, "IdentitiesOnly=yes"@]
    }
}

fn list1(a: &str) -> (r: Vec<String>)
    ensures
        texts(r@) == seq![a@],
{
    let mut r: Vec<String> = Vec::new();
    r.push(a.to_owned());
    assert(texts(r@) =~= seq![a@]);
    r
}

fn list2(a: &str, b: &str) -> (r: Vec<String>)
    ensures
        texts(r@) == seq![a@, b@],
{
    let mut r: Vec<String> = Vec::new();
    r.push(a.to_owned());
    r.push(b.to_owned());
    assert(texts(r@) =~= seq![a@, b@]);
    r
}

fn extend(v: &mut Vec<String>, more: Vec<String>)
    ensures
        texts(final(v)@) == texts(old(v)@) + texts(more@),
{
    let ghost before = v@;
    let ghost added = more@;
    let mut more = more;
    v.append(&mut more);
    assert(texts(v@) =~= texts(before) + texts(added));
}

fn host_key_list(verify: bool) -> (r: Vec<String>)
    ensures
        texts(r@) == host_key_args(verify),
{
    if verify {
        list2("-o", "StrictHostKeyChecking=yes")
    } else {
        let mut r = list2("-o", "StrictHostKeyChecking=no");
        extend(&mut r, list2("-o", "UserKnownHostsFile=/dev/null"));
        assert(texts(r@) =~= host_key_args(verify));
        r
    }
}

fn port_list(port: Option<u16>) -> (r: Vec<String>)
    ensures
        texts(r@) == port_args(port),
{
    match port {
        Some(p) => {
            let n = decimal(p as u64);
            list2("-p", n.as_str())
        },
        None => {
            let r: Vec<String> = Vec::new();
            assert(texts(r@) =~= seq![]);
            r
        },
    }
}

fn identity_list(path: Option<&str>) -> (r: Vec<String>)
    ensures
        texts(r@) == identity_args(
            match path {
                Some(p) => Some(p@),
                None => None,
            },
        ),
{
    match path {
        Some(p) => list2("-i", p),
        None => {
            let r: Vec<String> = Vec::new();
            assert(texts(r@) =~= seq![]);
            r
        },
    }
}

fn agent_list(kind: SshAuthKind) -> (r: Vec<String>)
    ensures
        texts(r@) == agent_args(kind),
{
    match kind {
        SshAuthKind::SshAgent => list2("-o", "IdentitiesOnly=no"),
        _ => list2("-o", "IdentitiesOnly=yes"),
    }
}

/// The arguments of a session: no prompts, the host key as asked, and the remote
/// command last where there is one.
pub open spec fn session_args(
    target: TargetText,
    kind: SshAuthKind,
    identity: Option<Seq<char>>,
    verify: bool,
    interactive: bool,
    remote_command: Option<Seq<char>>,
) -> Seq<Seq<char>> {
    seq![
        if interactive {
            "-tt"@
        } else {
            "-T"@
        },
    ] + seq!["-o"@, "BatchMode=yes"@] + seq!["-o"@, "NumberOfPasswordPrompts=0"@] + host_key_args(
        verify,
    ) + port_args(target.port) + identity_args(identity) + agent_args(kind) + seq![
        destination_text(target),
    ] + match remote_command {
        Some(c) => seq![c],
        None => seq![],
    }
}

fn session_list(
    target: &SshTarget,
    kind: SshAuthKind,
    identity: Option<&str>,
    verify: bool,
    interactive: bool,
    remote_command: &Option<String>,
) -> (r: Vec<String>)
    ensures
        texts(r@) == session_args(
            target@,
            kind,
            match identity {
                Some(p) => Some(p@),
                None => None,
            },
            verify,
            interactive,
            opt_text(*remote_command),
        ),
{
    let mut r = if interactive {
        list1("-tt")
    } else {
        list1("-T")
    };
    extend(&mut r, list2("-o", "BatchMode=yes"));
    extend(&mut r, list2("-o", "NumberOfPasswordPrompts=0"));
    extend(&mut r, host_key_list(verify));
    extend(&mut r, port_list(target.port));
    extend(&mut r, identity_list(identity));
    extend(&mut r, agent_list(kind));
    let to = destination(target);
    extend(&mut r, list1(to.as_str()));
    let last = match remote_command {
        Some(c) => list1(c.as_str()),
        None => {
            let none: Vec<String> = Vec::new();
            assert(texts(none@) =~= seq![]);
            none
        },
    };
    extend(&mut r, last);
    r
}

/// What stands in place of the identity file where arguments are shown.
pub open spec fn redacted(identity: Option<Seq<char>>) -> Option<Seq<char>> {
    match identity {
        Some(_) => Some("<redacted>"@),
        None => None,
    }
}

/// Whether a plan starts the given session.
pub open spec fn is_session_plan(
    plan: SshSessionSpawnPlan,
    ssh: Seq<char>,
    target: TargetText,
    kind: SshAuthKind,
    identity: Option<Seq<char>>,
    verify: bool,
    interactive: bool,
    remote_command: Option<Seq<char>>,
) -> bool {
    &&& plan.command@ == ssh
    &&& opt_text(plan.remote_command) == remote_command
    &&& texts(plan.args@) == session_args(
        target,
        kind,
        identity,
        verify,
        interactive,
        remote_command,
    )
    &&& texts(plan.public_args@) == session_args(
        target,
        kind,
        redacted(identity),
        verify,
        interactive,
        remote_command,
    )
}

/// How a session is started.
pub fn build_ssh_session_plan(
    ssh_bin_path: String,
    target: &SshTarget,
    auth_kind: SshAuthKind,
    identity_path: &Option<String>,
    verify_host_key: bool,
    interactive: bool,
    remote_command: Option<String>,
) -> (r: SshSessionSpawnPlan)
    ensures
        is_session_plan(
            r,
            ssh_bin_path@,
            target@,
            auth_kind,
            opt_text(*identity_path),
            verify_host_key,
            interactive,
            opt_text(remote_command),
        ),
{
    let args = session_list(
        target,
        auth_kind,
        super::model::opt_str(identity_path),
        verify_host_key,
        interactive,
        &remote_command,
    );
    let shown = match identity_path {
        Some(_) => Some("<redacted>"),
        None => None,
    };
    let public_args = session_list(
        target,
        auth_kind,
        shown,
        verify_host_key,
        interactive,
        &remote_command,
    );
    SshSessionSpawnPlan { command: ssh_bin_path, args, public_args, remote_command }
}

/// Whether a character may begin the name of a variable.
pub open spec fn begins_name(c: char) -> bool {
    c == '_' || ('a' <= c && c <= 'z') || ('A' <= c && c <= 'Z')
}

/// Whether a text is the name of a variable to a shell.
pub open spec fn is_env_name(s: Seq<char>) -> bool {
    &&& s.len() > 0
    &&& begins_name(s[0])
    &&& forall|i: int|
        1 <= i < s.len() ==> begins_name(#[trigger] s[i]) || ('0' <= s[i] && s[i] <= '9')
}

fn begins_env_name(c: char) -> (r: bool)
    ensures
        r == begins_name(c),
{
    c == '_' || ('a' <= c && c <= 'z') || ('A' <= c && c <= 'Z')
}

/// Whether a text is the name of a variable to a shell.
pub fn is_valid_env_key(key: &str) -> (r: bool)
    ensures
        r == is_env_name(key@),
{
    let v = chars_of(key);
    if v.len() == 0 || !begins_env_name(v[0]) {
        return false;
    }
    let mut i: usize = 1;
    while i < v.len()
        invariant
            1 <= i <= v@.len(),
            v@ == key@,
            forall|k: int|
                1 <= k < i ==> begins_name(#[trigger] v@[k]) || ('0' <= v@[k] && v@[k] <= '9'),
        decreases v@.len() - i,
    {
        let c: char = v[i];
        if !(begins_env_name(c) || ('0' <= c && c <= '9')) {
            assert(!(begins_name(key@[i as int]) || ('0' <= key@[i as int] && key@[i as int]
                <= '9')));
            return false;
        }
        i = i + 1;
    }
    true
}

/// The variables of an environment, in the order of their names.
pub open spec fn env_pairs(env: OrderedMap<String>) -> Seq<(Seq<char>, Seq<char>)> {
    Seq::new(env.keys().len(), |i: int| (env.keys()[i], env.values()[i]@))
}

/// Whether pairs list a map in the order of its keys.
pub open spec fn lists_pairs(
    pairs: Seq<(Seq<char>, Seq<char>)>,
    map: Map<Seq<char>, Seq<char>>,
) -> bool {
    &&& lists_in_order(pairs.map_values(|p: (Seq<char>, Seq<char>)| p.0), map.dom())
    &&& forall|i: int| 0 <= i < pairs.len() ==> (#[trigger] pairs[i]).1 == map[pairs[i].0]
}

/// The pairs of a map in the order of its keys.
pub open spec fn sorted_pairs(map: Map<Seq<char>, Seq<char>>) -> Seq<(Seq<char>, Seq<char>)> {
    choose|pairs: Seq<(Seq<char>, Seq<char>)>| lists_pairs(pairs, map)
}

/// The variables of an environment are the pairs of its map in order.
pub proof fn lemma_env_pairs(env: OrderedMap<String>)
    requires
        env.wf(),
    ensures
        lists_pairs(env_pairs(env), map_texts(env@)),
        env_pairs(env) == sorted_pairs(map_texts(env@)),
{
    let map = map_texts(env@);
    let pairs = env_pairs(env);
    let first = |p: (Seq<char>, Seq<char>)| p.0;
    env.lemma_listing();
    assert(pairs.map_values(first) =~= env.keys());
    assert(map.dom() =~= env@.dom());
    assert forall|i: int| 0 <= i < pairs.len() implies (#[trigger] pairs[i]).1
        == map[pairs[i].0] by {
        assert(env@.contains_key(env.keys()[i]));
    }
    assert(lists_pairs(pairs, map));
    let other = sorted_pairs(map);
    assert(lists_pairs(other, map));
    lemma_listing_unique(pairs.map_values(first), other.map_values(first), map.dom());
    assert(pairs.map_values(first).len() == other.map_values(first).len());
    assert forall|i: int| 0 <= i < pairs.len() implies #[trigger] pairs[i] == other[i] by {
        assert(pairs.map_values(first)[i] == other.map_values(first)[i]);
        assert(pairs[i].1 == map[pairs[i].0]);
        assert(other[i].1 == map[other[i].0]);
    }
    assert(pairs =~= other);
}

/// The commands that set variables, or why the first bad name among them is bad.
pub open spec fn exports(pairs: Seq<(Seq<char>, Seq<char>)>) -> Result<Seq<Seq<char>>, Seq<char>>
    decreases pairs.len(),
{
    if pairs.len() == 0 {
        Ok(seq![])
    } else {
        match exports(pairs.drop_last()) {
            Err(why) => Err(why),
            Ok(list) => {
                let key = trimmed(pairs.last().0);
                if key.len() == 0 {
                    Err("remote env key cannot be empty"@)
                } else if !is_env_name(key) {
                    Err("remote env key must be a valid shell identifier: env_key="@ + key)
                } else {
                    Ok(list.push("export "@ + key + "="@ + shell_quoted(pairs.last().1)))
                }
            },
        }
    }
}

proof fn lemma_exports_stop(pairs: Seq<(Seq<char>, Seq<char>)>, i: int)
    requires
        0 <= i <= pairs.len(),
    ensures
        exports(pairs.take(i)) is Err ==> exports(pairs) == exports(pairs.take(i)),
    decreases pairs.len(),
{
    if i < pairs.len() {
        lemma_exports_stop(pairs.drop_last(), i);
        assert(pairs.drop_last().take(i) =~= pairs.take(i));
    } else {
        assert(pairs.take(i) =~= pairs);
    }
}

fn export_list(env: &OrderedMap<String>) -> (r: Result<Vec<String>, Failure>)
    requires
        env.wf(),
    ensures
        match r {
            Ok(list) => exports(env_pairs(*env)) == Ok::<Seq<Seq<char>>, Seq<char>>(texts(list@)),
            Err(e) => exports(env_pairs(*env)) == Err::<Seq<Seq<char>>, Seq<char>>(e@),
        },
{
    let mut r: Vec<String> = Vec::new();
    let mut i: usize = 0;
    let ghost pairs = env_pairs(*env);
    proof {
        assert(pairs.take(0) =~= seq![]);
        assert(texts(r@) =~= seq![]);
    }
    let n: usize = env.len();
    while i < n
        invariant
            env.wf(),
            i <= n == env.keys().len(),
            n == env.values().len(),
            pairs == env_pairs(*env),
            exports(pairs.take(i as int)) == Ok::<Seq<Seq<char>>, Seq<char>>(texts(r@)),
        decreases n - i,
    {
        let ghost before = r@;
        proof {
            let t = pairs.take(i + 1);
            assert(t.drop_last() =~= pairs.take(i as int));
            assert(t.last() == pairs[i as int]);
            lemma_exports_stop(pairs, i + 1);
        }
        let key = trim(env.key_at(i).as_str());
        if key.is_empty() {
            return Err(Failure::new("remote env key cannot be empty".to_owned()));
        }
        if !is_valid_env_key(key) {
            return Err(
                Failure::new(
                    cat2("remote env key must be a valid shell identifier: env_key=", key),
                ),
            );
        }
        let value = shell_escape(env.value_at(i).as_str());
        let line = cat4("export ", key, "=", value.as_str());
        r.push(line);
        i = i + 1;
        assert(texts(r@) =~= texts(before).push(line@));
    }
    assert(pairs.take(i as int) =~= pairs);
    Ok(r)
}

/// The command that enters a remote directory.
pub open spec fn cd_text(cwd: Seq<char>) -> Seq<char> {
    if cwd == "~"@ {
        "cd -- \"${HOME:-~}\" || exit 1"@
    } else if "~/"@.is_prefix_of(cwd) {
        let rest = cwd.skip("~/"@.len() as int);
        if rest.len() == 0 {
            "cd -- \"${HOME:-~}\" || exit 1"@
        } else {
            "cd -- \"${HOME:-~}\"/"@ + shell_quoted(rest) + " || exit 1"@
        }
    } else {
        "cd -- "@ + shell_quoted(cwd) + " || exit 1"@
    }
}

fn build_remote_cwd_command(cwd: &str) -> (r: String)
    ensures
        r@ == cd_text(cwd@),
{
    if same(cwd, "~") {
        return "cd -- \"${HOME:-~}\" || exit 1".to_owned();
    }
    match strip_prefix(cwd, "~/") {
        Some(rest) => {
            if rest.is_empty() {
                "cd -- \"${HOME:-~}\" || exit 1".to_owned()
            } else {
                let quoted = shell_escape(rest);
                cat3("cd -- \"${HOME:-~}\"/", quoted.as_str(), " || exit 1")
            }
        },
        None => {
            let quoted = shell_escape(cwd);
            cat3("cd -- ", quoted.as_str(), " || exit 1")
        },
    }
}

/// An optional text, trimmed, where it is not blank.
pub open spec fn given(o: Option<Seq<char>>) -> Option<Seq<char>> {
    match o {
        Some(s) => if is_blank(s) {
            None
        } else {
            Some(trimmed(s))
        },
        None => None,
    }
}

/// An optional text, trimmed, where it is not blank.
pub fn given_str(o: &Option<String>) -> (r: Option<&str>)
    ensures
        match r {
            Some(s) => given(opt_text(*o)) == Some(s@),
            None => given(opt_text(*o)) is None,
        },
{
    match o {
        Some(s) => {
            let t = trim(s.as_str());
            if t.is_empty() {
                None
            } else {
                Some(t)
            }
        },
        None => None,
    }
}

/// A command line in which each word stands for itself.
pub open spec fn command_line(command: Seq<char>, args: Seq<Seq<char>>) -> Seq<char> {
    joined(
        seq![shell_quoted(command)] + args.map_values(|a: Seq<char>| shell_quoted(a)),
        " "@,
    )
}

/// The commands that go before the main one: the variables, then the directory.
pub open spec fn setup_parts(list: Seq<Seq<char>>, cwd: Option<Seq<char>>) -> Seq<Seq<char>> {
    match cwd {
        Some(c) => list.push(cd_text(c)),
        None => list,
    }
}

/// A script as one command for the remote side.
pub open spec fn wrapped(parts: Seq<Seq<char>>) -> Seq<char> {
    "sh -lc "@ + shell_quoted(joined(parts, " && "@))
}

/// The main command of a session: the given command, or else a shell.
pub open spec fn main_part(
    command: Option<Seq<char>>,
    args: Seq<Seq<char>>,
    shell: Option<Seq<char>>,
    login: bool,
) -> Seq<char> {
    match command {
        Some(c) => command_line(c, args),
        None => match shell {
            Some(s) => "exec "@ + shell_quoted(s) + if login {
                " -l"@
            } else {
                ""@
            },
            None => if login {
                "exec ${SHELL:-/bin/sh} -l"@
            } else {
                "exec ${SHELL:-/bin/sh}"@
            },
        },
    }
}

/// What a session runs on the remote side, which is nothing where nothing is
/// asked for; or why it cannot be run.
pub open spec fn remote_command_text(
    command: Option<Seq<char>>,
    args: Seq<Seq<char>>,
    cwd: Option<Seq<char>>,
    pairs: Seq<(Seq<char>, Seq<char>)>,
    shell: Option<Seq<char>>,
    login: bool,
) -> Result<Option<Seq<char>>, Seq<char>> {
    if given(command) is None && given(cwd) is None && pairs.len() == 0 && given(shell) is None
        && !login {
        Ok(None)
    } else {
        match exports(pairs) {
            Err(why) => Err(why),
            Ok(list) => Ok(
                Some(
                    wrapped(
                        setup_parts(list, given(cwd)).push(
                            main_part(given(command), args, given(shell), login),
                        ),
                    ),
                ),
            ),
        }
    }
}

/// What runs a script on the remote side, or why it cannot be run.
pub open spec fn remote_exec_text(
    script: Seq<char>,
    cwd: Option<Seq<char>>,
    pairs: Seq<(Seq<char>, Seq<char>)>,
    shell: Option<Seq<char>>,
    login: bool,
) -> Result<Seq<char>, Seq<char>> {
    if is_blank(script) {
        Err("remote script cannot be empty"@)
    } else {
        match exports(pairs) {
            Err(why) => Err(why),
            Ok(list) => Ok(
                wrapped(
                    setup_parts(list, given(cwd)).push(
                        "exec "@ + match given(shell) {
                            Some(s) => shell_quoted(s),
                            None => "${SHELL:-/bin/sh}"@,
                        } + if login {
                            " -l"@
                        } else {
                            ""@
                        } + " -c "@ + shell_quoted(trimmed(script)),
                    ),
                ),
            ),
        }
    }
}

fn push_part(parts: &mut Vec<String>, part: String)
    ensures
        texts(final(parts)@) == texts(old(parts)@).push(part@),
{
    let ghost before = parts@;
    parts.push(part);
    assert(texts(parts@) =~= texts(before).push(part@));
}

fn quoted_line(command: &str, args: &Vec<String>) -> (r: String)
    ensures
        r@ == command_line(command@, texts(args@)),
{
    let first = shell_escape(command);
    let mut words = list1(first.as_str());
    let mut i: usize = 0;
    let ghost all = seq![shell_quoted(command@)] + texts(args@).map_values(
        |a: Seq<char>| shell_quoted(a),
    );
    assert(all.take(1) =~= seq![shell_quoted(command@)]);
    while i < args.len()
        invariant
            i <= args@.len(),
            all == seq![shell_quoted(command@)] + texts(args@).map_values(
                |a: Seq<char>| shell_quoted(a),
            ),
            texts(words@) == all.take(i + 1),
        decreases args@.len() - i,
    {
        let word = shell_escape(args[i].as_str());
        push_part(&mut words, word);
        i = i + 1;
        proof {
            assert(all[i as int] == word@);
            assert(all.take(i + 1) =~= all.take(i as int).push(word@));
        }
    }
    assert(all.take(i + 1) =~= all);
    join(&words, " ")
}

fn wrap_parts(parts: &Vec<String>) -> (r: String)
    ensures
        r@ == wrapped(texts(parts@)),
{
    let script = join(parts, " && ");
    let quoted = shell_escape(script.as_str());
    cat2("sh -lc ", quoted.as_str())
}

/// What a session runs on the remote side.
pub fn build_remote_command(
    command: &Option<String>,
    args: &Vec<String>,
    cwd: &Option<String>,
    env: &OrderedMap<String>,
    shell: &Option<String>,
    login: bool,
) -> (r: Result<Option<String>, Failure>)
    requires
        env.wf(),
    ensures
        ({
            let expected = remote_command_text(
                opt_text(*command),
                texts(args@),
                opt_text(*cwd),
                env_pairs(*env),
                opt_text(*shell),
                login,
            );
            match r {
                Ok(c) => expected == Ok::<Option<Seq<char>>, Seq<char>>(opt_text(c)),
                Err(e) => expected == Err::<Option<Seq<char>>, Seq<char>>(e@),
            }
        }),
{
    let command = given_str(command);
    let cwd = given_str(cwd);
    let shell = given_str(shell);
    if command.is_none() && cwd.is_none() && env.len() == 0 && shell.is_none() && !login {
        return Ok(None);
    }
    let mut parts = match export_list(env) {
        Ok(list) => list,
        Err(e) => {
            return Err(e);
        },
    };
    match cwd {
        Some(c) => {
            push_part(&mut parts, build_remote_cwd_command(c));
        },
        None => {},
    }
    let main = match command {
        Some(c) => quoted_line(c, args),
        None => match shell {
            Some(s) => {
                let quoted = shell_escape(s);
                cat3(
                    "exec ",
                    quoted.as_str(),
                    if login {
                        " -l"
                    } else {
                        ""
                    },
                )
            },
            None => if login {
                "exec ${SHELL:-/bin/sh} -l".to_owned()
            } else {
                "exec ${SHELL:-/bin/sh}".to_owned()
            },
        },
    };
    push_part(&mut parts, main);
    Ok(Some(wrap_parts(&parts)))
}

/// What runs a script on the remote side.
pub fn build_remote_exec_command(
    script: &str,
    cwd: &Option<String>,
    env: &OrderedMap<String>,
    shell: &Option<String>,
    login: bool,
) -> (r: Result<String, Failure>)
    requires
        env.wf(),
    ensures
        ({
            let expected = remote_exec_text(
                script@,
                opt_text(*cwd),
                env_pairs(*env),
                opt_text(*shell),
                login,
            );
            match r {
                Ok(c) => expected == Ok::<Seq<char>, Seq<char>>(c@),
                Err(e) => expected == Err::<Seq<char>, Seq<char>>(e@),
            }
        }),
{
    let cwd = given_str(cwd);
    let shell = given_str(shell);
    let script = trim(script);
    if script.is_empty() {
        return Err(Failure::new("remote script cannot be empty".to_owned()));
    }
    let mut parts = match export_list(env) {
        Ok(list) => list,
        Err(e) => {
            return Err(e);
        },
    };
    match cwd {
        Some(c) => {
            push_part(&mut parts, build_remote_cwd_command(c));
        },
        None => {},
    }
    let program = match shell {
        Some(s) => shell_escape(s),
        None => "${SHELL:-/bin/sh}".to_owned(),
    };
    let quoted = shell_escape(script);
    let main = cat5(
        "exec ",
        program.as_str(),
        if login {
            " -l"
        } else {
            ""
        },
        " -c ",
        quoted.as_str(),
    );
    push_part(&mut parts, main);
    Ok(wrap_parts(&parts))
}

/// The arguments with which a target is tried.
pub open spec fn verify_args(
    target: TargetText,
    kind: SshAuthKind,
    identity: Option<Seq<char>>,
    verify: bool,
    timeout_secs: u64,
) -> Seq<Seq<char>> {
    seq!["-T"@] + seq!["-o"@, "BatchMode=yes"@] + seq!["-o"@, "NumberOfPasswordPrompts=0"@] + seq![
        "-o"@,
        "ConnectTimeout="@ + decimal_text(
            if timeout_secs >= 1 {
                timeout_secs as nat
            } else {
                1
            },
        ),
    ] + host_key_args(verify) + port_args(target.port) + identity_args(identity) + agent_args(kind)
        + seq![destination_text(target)] + seq!["exit"@, "0"@]
}

/// The arguments with which a target is tried.
pub fn build_verify_args(
    target: &SshTarget,
    auth_kind: SshAuthKind,
    identity_path: &Option<String>,
    verify_host_key: bool,
    timeout_secs: u64,
) -> (r: Vec<String>)
    ensures
        texts(r@) == verify_args(
            target@,
            auth_kind,
            opt_text(*identity_path),
            verify_host_key,
            timeout_secs,
        ),
{
    let mut r = list1("-T");
    extend(&mut r, list2("-o", "BatchMode=yes"));
    extend(&mut r, list2("-o", "NumberOfPasswordPrompts=0"));
    let secs = decimal(
        if timeout_secs >= 1 {
            timeout_secs
        } else {
            1
        },
    );
    let timeout = cat2("ConnectTimeout=", secs.as_str());
    extend(&mut r, list2("-o", timeout.as_str()));
    extend(&mut r, host_key_list(verify_host_key));
    extend(&mut r, port_list(target.port));
    extend(&mut r, identity_list(super::model::opt_str(identity_path)));
    extend(&mut r, agent_list(auth_kind));
    let to = destination(target);
    extend(&mut r, list1(to.as_str()));
    extend(&mut r, list2("exit", "0"));
    r
}

/// The arguments with which a mount is made.
pub open spec fn mount_args(
    read_only: bool,
    verify: bool,
    target: TargetText,
    identity: Option<Seq<char>>,
    kind: SshAuthKind,
    remote_path: Seq<char>,
    local_path: Seq<char>,
) -> Seq<Seq<char>> {
    (if read_only {
        seq!["-o"@, "ro"@]
    } else {
        seq![]
    }) + host_key_args(verify) + port_args(target.port) + (match identity {
        Some(p) => seq!["-o"@, "IdentityFile="@ + p],
        None => seq![],
    }) + agent_args(kind) + seq![destination_text(target) + ":"@ + remote_path, local_path]
}

/// The arguments with which a mount is made.
pub fn build_mount_args(request: &SshMountPlanRequest) -> (r: Vec<String>)
    ensures
        texts(r@) == mount_args(
            request.mount.read_only,
            request.verify_host_key,
            request.connection.target@,
            opt_text(request.identity_path),
            request.auth_kind,
            request.mount.remote_path@,
            request.mount.local_path@,
        ),
{
    let mut r = if request.mount.read_only {
        list2("-o", "ro")
    } else {
        let none: Vec<String> = Vec::new();
        assert(texts(none@) =~= seq![]);
        none
    };
    extend(&mut r, host_key_list(request.verify_host_key));
    extend(&mut r, port_list(request.connection.target.port));
    let identity = match &request.identity_path {
        Some(p) => {
            let file = cat2("IdentityFile=", p.as_str());
            list2("-o", file.as_str())
        },
        None => {
            let none: Vec<String> = Vec::new();
            assert(texts(none@) =~= seq![]);
            none
        },
    };
    extend(&mut r, identity);
    extend(&mut r, agent_list(request.auth_kind));
    let to = destination(&request.connection.target);
    let source = cat3(to.as_str(), ":", request.mount.remote_path.as_str());
    extend(&mut r, list2(source.as_str(), request.mount.local_path.as_str()));
    r
}

/// The address at which a tunnel listens, with brackets where it holds colons.
pub open spec fn forward_text(
    bind_host: Seq<char>,
    local_port: u16,
    remote_host: Seq<char>,
    remote_port: u16,
) -> Seq<char> {
    (if bind_host.contains(':') {
        "["@ + bind_host + "]"@
    } else {
        bind_host
    }) + ":"@ + decimal_text(local_port as nat) + ":"@ + remote_host + (":"@ + decimal_text(
        remote_port as nat,
    ))
}

/// The arguments with which a tunnel is opened. The forwarding has to succeed, or
/// else the program ends.
pub open spec fn tunnel_args(
    target: TargetText,
    kind: SshAuthKind,
    identity: Option<Seq<char>>,
    verify: bool,
    forward: Seq<char>,
) -> Seq<Seq<char>> {
    seq!["-N"@, "-T"@] + seq!["-o"@, "BatchMode=yes"@] + seq!["-o"@, "NumberOfPasswordPrompts=0"@]
        + seq!["-o"@, "ExitOnForwardFailure=yes"@] + host_key_args(verify) + seq!["-L"@, forward]
        + port_args(target.port) + identity_args(identity) + agent_args(kind) + seq![
        destination_text(target),
    ]
}

/// How a command is run to its end.
fn plan_command(
    program: String,
    args: Vec<String>,
    timeout_ms: u64,
    timeout_message: &str,
    join_message: &str,
    execution_message: &str,
    max_output_bytes: Option<usize>,
) -> (r: CommandPlan)
    ensures
        is_command(
            r,
            program@,
            texts(args@),
            timeout_ms,
            timeout_message@,
            join_message@,
            execution_message@,
            max_output_bytes,
        ),
{
    CommandPlan {
        program,
        args,
        timeout_ms,
        timeout_message: timeout_message.to_owned(),
        join_message: join_message.to_owned(),
        execution_message: execution_message.to_owned(),
        max_output_bytes,
    }
}

/// Whether a plan runs the given command.
pub open spec fn is_command(
    p: CommandPlan,
    program: Seq<char>,
    args: Seq<Seq<char>>,
    timeout_ms: u64,
    timeout_message: Seq<char>,
    join_message: Seq<char>,
    execution_message: Seq<char>,
    max_output_bytes: Option<usize>,
) -> bool {
    &&& p.program@ == program
    &&& texts(p.args@) == args
    &&& p.timeout_ms == timeout_ms
    &&& p.timeout_message@ == timeout_message
    &&& p.join_message@ == join_message
    &&& p.execution_message@ == execution_message
    &&& p.max_output_bytes == max_output_bytes
}

/// How long a target is tried for.
pub open spec fn connect_secs(timeout: Option<u64>) -> u64 {
    match timeout {
        Some(t) => t,
        None => DEFAULT_CONNECT_TIMEOUT_SECS,
    }
}

/// The milliseconds of a number of seconds and two more, as far as they can be
/// counted.
pub open spec fn patience_ms(secs: u64) -> u64 {
    if (secs + 2) * 1000 <= u64::MAX {
        ((secs + 2) * 1000) as u64
    } else {
        u64::MAX
    }
}

/// The milliseconds in which a script has to end.
pub open spec fn capture_ms(timeout_ms: Option<u64>) -> u64 {
    match timeout_ms {
        Some(t) => t,
        None => DEFAULT_CAPTURE_TIMEOUT_MS,
    }
}

/// What taking a mount away asks for next.
#[derive(Debug, PartialEq, Eq)]
pub enum UnmountStep {
    /// Run `umount`, then go on with `unmount_ran`.
    Umount(CommandPlan),
    /// Run `diskutil`, then go on with `diskutil_ran`.
    Diskutil(CommandPlan),
    /// The mount is gone.
    Done,
}

/// Whether a plan runs `umount` on a mount point.
pub open spec fn is_umount_plan(p: CommandPlan, program: Seq<char>, force: bool, path: Seq<char>) -> bool {
    is_command(
        p,
        program,
        (if force {
            seq!["-f"@]
        } else {
            seq![]
        }) + seq![path],
        DEFAULT_UNMOUNT_TIMEOUT_MS,
        "ssh unmount command timed out"@,
        "ssh unmount task failed"@,
        "failed to execute ssh unmount command"@,
        None,
    )
}

/// Whether a plan runs `diskutil` on a mount point.
pub open spec fn is_diskutil_plan(p: CommandPlan, program: Seq<char>, force: bool, path: Seq<char>) -> bool {
    is_command(
        p,
        program,
        seq!["unmount"@] + (if force {
            seq!["force"@]
        } else {
            seq![]
        }) + seq![path],
        DEFAULT_UNMOUNT_TIMEOUT_MS,
        "diskutil unmount command timed out"@,
        "diskutil unmount task failed"@,
        "failed to execute diskutil unmount command"@,
        None,
    )
}

/// Says that taking a mount away failed.
pub open spec fn unmount_failure_text(mount: SshMountSummary, o: CommandOutput) -> Seq<char> {
    "ssh unmount failed: mount_id="@ + mount.mount_id@ + " local_path="@ + mount.local_path@
        + exit_text(o)
}

fn map_unmount_failure(mount: &SshMountSummary, output: &CommandOutput) -> (r: Failure)
    ensures
        r@ == unmount_failure_text(*mount, *output),
{
    let tail = exit_string(output);
    Failure::new(
        cat5(
            "ssh unmount failed: mount_id=",
            mount.mount_id.as_str(),
            " local_path=",
            mount.local_path.as_str(),
            tail.as_str(),
        ),
    )
}

/// Whether the outcome of `diskutil` is the step that follows.
pub open spec fn is_diskutil_step(
    r: Result<UnmountStep, Failure>,
    request: SshUnmountRequest,
    diskutil_is_file: bool,
) -> bool {
    match binary_refusal("diskutil"@, opt_text(request.diskutil_bin_path), diskutil_is_file) {
        Some(why) => r matches Err(e) && e@ == why,
        None => r matches Ok(UnmountStep::Diskutil(p)) && is_diskutil_plan(
            p,
            request.diskutil_bin_path->0@,
            request.force,
            request.mount.local_path@,
        ),
    }
}

/// Whether `diskutil` is tried: on macOS, with force, where it is known.
pub open spec fn diskutil_helps(request: SshUnmountRequest, macos: bool) -> bool {
    macos && request.force && request.diskutil_bin_path is Some
}

/// Builds the commands that SSH is driven with.
#[derive(Debug, Clone, Copy, PartialEq, Eq, Structural)]
pub struct SshRuntime;

impl SshRuntime {
    /// How a target is tried.
    pub fn verify_plan(&self, request: &SshConnectVerificationRequest, ssh_is_file: bool) -> (r:
        Result<CommandPlan, Failure>)
        ensures
            ({
                let ssh = opt_text(request.ssh_bin_path);
                let secs = connect_secs(request.connect_timeout_secs);
                match r {
                    Ok(p) => {
                        &&& binary_refusal("ssh"@, ssh, ssh_is_file) is None
                        &&& is_command(
                            p,
                            ssh->0,
                            verify_args(
                                request.target@,
                                request.auth_kind,
                                opt_text(request.identity_path),
                                request.verify_host_key,
                                secs,
                            ),
                            patience_ms(secs),
                            "ssh verification timed out"@,
                            "ssh verification task failed"@,
                            "failed to execute ssh verification command"@,
                            None,
                        )
                    },
                    Err(e) => binary_refusal("ssh"@, ssh, ssh_is_file) == Some(e@),
                }
            }),
    {
        let program = match ensure_binary("ssh", &request.ssh_bin_path, ssh_is_file) {
            Ok(p) => p,
            Err(e) => {
                return Err(e);
            },
        };
        let secs: u64 = match request.connect_timeout_secs {
            Some(t) => t,
            None => DEFAULT_CONNECT_TIMEOUT_SECS,
        };
        let args = build_verify_args(
            &request.target,
            request.auth_kind,
            &request.identity_path,
            request.verify_host_key,
            secs,
        );
        let timeout_ms: u64 = if secs <= u64::MAX / 1000 - 2 {
            (secs + 2) * 1000
        } else {
            u64::MAX
        };
        Ok(
            plan_command(
                program,
                args,
                timeout_ms,
                "ssh verification timed out",
                "ssh verification task failed",
                "failed to execute ssh verification command",
                None,
            ),
        )
    }

    /// What the outcome of trying a target means.
    pub fn verify_outcome(&self, target: &SshTarget, output: &CommandOutput) -> (r: Result<
        (),
        Failure,
    >)
        ensures
            match r {
                Ok(_) => output.success,
                Err(e) => !output.success && e@ == "ssh connection verification failed: target="@
                    + target_summary(target@) + exit_text(*output),
            },
    {
        if output.success {
            return Ok(());
        }
        let to = target.summary();
        let tail = exit_string(output);
        Err(
            Failure::new(
                cat3("ssh connection verification failed: target=", to.as_str(), tail.as_str()),
            ),
        )
    }

    /// How a mount is made.
    pub fn mount_plan(&self, request: &SshMountPlanRequest, sshfs_is_file: bool) -> (r: Result<
        CommandPlan,
        Failure,
    >)
        ensures
            ({
                let sshfs = opt_text(request.sshfs_bin_path);
                match r {
                    Ok(p) => {
                        &&& binary_refusal("sshfs"@, sshfs, sshfs_is_file) is None
                        &&& is_command(
                            p,
                            sshfs->0,
                            mount_args(
                                request.mount.read_only,
                                request.verify_host_key,
                                request.connection.target@,
                                opt_text(request.identity_path),
                                request.auth_kind,
                                request.mount.remote_path@,
                                request.mount.local_path@,
                            ),
                            DEFAULT_MOUNT_TIMEOUT_MS,
                            "ssh mount command timed out"@,
                            "ssh mount task failed"@,
                            "failed to execute ssh mount command"@,
                            None,
                        )
                    },
                    Err(e) => binary_refusal("sshfs"@, sshfs, sshfs_is_file) == Some(e@),
                }
            }),
    {
        let program = match ensure_binary("sshfs", &request.sshfs_bin_path, sshfs_is_file) {
            Ok(p) => p,
            Err(e) => {
                return Err(e);
            },
        };
        let args = build_mount_args(request);
        Ok(
            plan_command(
                program,
                args,
                DEFAULT_MOUNT_TIMEOUT_MS,
                "ssh mount command timed out",
                "ssh mount task failed",
                "failed to execute ssh mount command",
                None,
            ),
        )
    }

    /// What the outcome of making a mount means.
    pub fn mount_outcome(&self, request: &SshMountPlanRequest, output: &CommandOutput) -> (r: Result<
        (),
        Failure,
    >)
        ensures
            match r {
                Ok(_) => output.success,
                Err(e) => !output.success && e@ == "ssh mount failed: mount_id="@
                    + request.mount.mount_id@ + " target="@ + request.connection.target_summary@
                    + (" remote_path="@ + request.mount.remote_path@ + " local_path="@
                    + request.mount.local_path@ + exit_text(*output)),
            },
    {
        if output.success {
            return Ok(());
        }
        let tail = exit_string(output);
        let head = cat4(
            "ssh mount failed: mount_id=",
            request.mount.mount_id.as_str(),
            " target=",
            request.connection.target_summary.as_str(),
        );
        let middle = cat5(
            " remote_path=",
            request.mount.remote_path.as_str(),
            " local_path=",
            request.mount.local_path.as_str(),
            tail.as_str(),
        );
        Err(Failure::new(cat2(head.as_str(), middle.as_str())))
    }

    /// How a session is started.
    pub fn build_session_spawn_plan(&self, request: &SshSessionSpawnPlanRequest, ssh_is_file: bool) -> (r:
        Result<SshSessionSpawnPlan, Failure>)
        requires
            request.env.wf(),
        ensures
            ({
                let ssh = opt_text(request.ssh_bin_path);
                let remote = remote_command_text(
                    opt_text(request.command),
                    texts(request.args@),
                    opt_text(request.cwd),
                    env_pairs(request.env),
                    opt_text(request.shell),
                    request.login,
                );
                match r {
                    Ok(plan) => {
                        &&& binary_refusal("ssh"@, ssh, ssh_is_file) is None
                        &&& remote is Ok
                        &&& is_session_plan(
                            plan,
                            ssh->0,
                            request.target@,
                            request.auth_kind,
                            opt_text(request.identity_path),
                            request.verify_host_key,
                            request.interactive,
                            remote->Ok_0,
                        )
                    },
                    Err(e) => if binary_refusal("ssh"@, ssh, ssh_is_file) is Some {
                        binary_refusal("ssh"@, ssh, ssh_is_file) == Some(e@)
                    } else {
                        remote == Err::<Option<Seq<char>>, Seq<char>>(e@)
                    },
                }
            }),
    {
        let program = match ensure_binary("ssh", &request.ssh_bin_path, ssh_is_file) {
            Ok(p) => p,
            Err(e) => {
                return Err(e);
            },
        };
        let remote = match build_remote_command(
            &request.command,
            &request.args,
            &request.cwd,
            &request.env,
            &request.shell,
            request.login,
        ) {
            Ok(c) => c,
            Err(e) => {
                return Err(e);
            },
        };
        Ok(
            build_ssh_session_plan(
                program,
                &request.target,
                request.auth_kind,
                &request.identity_path,
                request.verify_host_key,
                request.interactive,
                remote,
            ),
        )
    }

    /// How a script is run in a session.
    pub fn build_exec_plan(&self, request: &SshExecPlanRequest, ssh_is_file: bool) -> (r: Result<
        SshSessionSpawnPlan,
        Failure,
    >)
        requires
            request.env.wf(),
        ensures
            is_exec_plan(r, *request, ssh_is_file, true),
    {
        self.exec_plan(request, ssh_is_file, true)
    }

    fn exec_plan(&self, request: &SshExecPlanRequest, ssh_is_file: bool, interactive: bool) -> (r:
        Result<SshSessionSpawnPlan, Failure>)
        requires
            request.env.wf(),
        ensures
            is_exec_plan(r, *request, ssh_is_file, interactive),
    {
        let program = match ensure_binary("ssh", &request.ssh_bin_path, ssh_is_file) {
            Ok(p) => p,
            Err(e) => {
                return Err(e);
            },
        };
        let remote = match build_remote_exec_command(
            request.script.as_str(),
            &request.cwd,
            &request.env,
            &request.shell,
            request.login,
        ) {
            Ok(c) => c,
            Err(e) => {
                return Err(e);
            },
        };
        Ok(
            build_ssh_session_plan(
                program,
                &request.target,
                request.auth_kind,
                &request.identity_path,
                request.verify_host_key,
                interactive,
                Some(remote),
            ),
        )
    }

    /// How a script is run to its end with its output captured.
    pub fn capture_plan(
        &self,
        request: &SshExecPlanRequest,
        ssh_is_file: bool,
        timeout_ms: Option<u64>,
        max_output_bytes: Option<usize>,
    ) -> (r: Result<CommandPlan, Failure>)
        requires
            request.env.wf(),
        ensures
            is_capture_plan(r, *request, ssh_is_file, timeout_ms, max_output_bytes),
    {
        let plan = match self.exec_plan(request, ssh_is_file, false) {
            Ok(p) => p,
            Err(e) => {
                return Err(e);
            },
        };
        let timeout: u64 = match timeout_ms {
            Some(t) => t,
            None => DEFAULT_CAPTURE_TIMEOUT_MS,
        };
        Ok(
            plan_command(
                plan.command,
                plan.args,
                timeout,
                "ssh command timed out",
                "ssh command task failed",
                "failed to execute ssh command",
                max_output_bytes,
            ),
        )
    }

    /// How a tunnel is opened.
    pub fn build_tunnel_plan(&self, request: &SshTunnelPlanRequest, ssh_is_file: bool) -> (r: Result<
        SshTunnelPlan,
        Failure,
    >)
        ensures
            ({
                let ssh = opt_text(request.ssh_bin_path);
                match r {
                    Ok(p) => {
                        &&& binary_refusal("ssh"@, ssh, ssh_is_file) is None
                        &&& p.command@ == ssh->0
                        &&& texts(p.args@) == tunnel_args(
                            request.target@,
                            request.auth_kind,
                            opt_text(request.identity_path),
                            request.verify_host_key,
                            forward_text(
                                request.bind_host@,
                                request.local_port,
                                request.remote_host@,
                                request.remote_port,
                            ),
                        )
                    },
                    Err(e) => binary_refusal("ssh"@, ssh, ssh_is_file) == Some(e@),
                }
            }),
    {
        let program = match ensure_binary("ssh", &request.ssh_bin_path, ssh_is_file) {
            Ok(p) => p,
            Err(e) => {
                return Err(e);
            },
        };
        let local = decimal(request.local_port as u64);
        let remote = decimal(request.remote_port as u64);
        let bind = if contains_char(request.bind_host.as_str(), ':') {
            cat3("[", request.bind_host.as_str(), "]")
        } else {
            request.bind_host.clone()
        };
        let head = cat5(bind.as_str(), ":", local.as_str(), ":", request.remote_host.as_str());
        let tail = cat2(":", remote.as_str());
        let forward = cat2(head.as_str(), tail.as_str());
        let mut args = list2("-N", "-T");
        extend(&mut args, list2("-o", "BatchMode=yes"));
        extend(&mut args, list2("-o", "NumberOfPasswordPrompts=0"));
        extend(&mut args, list2("-o", "ExitOnForwardFailure=yes"));
        extend(&mut args, host_key_list(request.verify_host_key));
        extend(&mut args, list2("-L", forward.as_str()));
        extend(&mut args, port_list(request.target.port));
        extend(&mut args, identity_list(super::model::opt_str(&request.identity_path)));
        extend(&mut args, agent_list(request.auth_kind));
        let to = destination(&request.target);
        extend(&mut args, list1(to.as_str()));
        Ok(SshTunnelPlan { command: program, args })
    }

    /// Begins to take a mount away.
    pub fn unmount_begin(
        &self,
        request: &SshUnmountRequest,
        macos: bool,
        umount_is_file: bool,
        diskutil_is_file: bool,
    ) -> (r: Result<UnmountStep, Failure>)
        ensures
            match request.umount_bin_path {
                Some(path) => if umount_is_file {
                    r matches Ok(UnmountStep::Umount(p)) && is_umount_plan(
                        p,
                        path@,
                        request.force,
                        request.mount.local_path@,
                    )
                } else {
                    r matches Err(e) && e@ == unavailable_text(
                        "umount binary does not exist at "@ + path@,
                    )
                },
                None => if diskutil_helps(*request, macos) {
                    is_diskutil_step(r, *request, diskutil_is_file)
                } else {
                    r matches Err(e) && e@ == unavailable_text(
                        "no unmount binary is available for ssh_unmount"@,
                    )
                },
            },
    {
        match &request.umount_bin_path {
            Some(path) => {
                if !umount_is_file {
                    let m = cat2("umount binary does not exist at ", path.as_str());
                    return Err(capability_unavailable(m.as_str()));
                }
                let mut args = if request.force {
                    list1("-f")
                } else {
                    let none: Vec<String> = Vec::new();
                    assert(texts(none@) =~= seq![]);
                    none
                };
                extend(&mut args, list1(request.mount.local_path.as_str()));
                Ok(
                    UnmountStep::Umount(
                        plan_command(
                            path.clone(),
                            args,
                            DEFAULT_UNMOUNT_TIMEOUT_MS,
                            "ssh unmount command timed out",
                            "ssh unmount task failed",
                            "failed to execute ssh unmount command",
                            None,
                        ),
                    ),
                )
            },
            None => {
                if request.force && macos && request.diskutil_bin_path.is_some() {
                    self.diskutil_step(request, diskutil_is_file)
                } else {
                    Err(capability_unavailable("no unmount binary is available for ssh_unmount"))
                }
            },
        }
    }

    fn diskutil_step(&self, request: &SshUnmountRequest, diskutil_is_file: bool) -> (r: Result<
        UnmountStep,
        Failure,
    >)
        ensures
            is_diskutil_step(r, *request, diskutil_is_file),
    {
        let program = match ensure_binary("diskutil", &request.diskutil_bin_path, diskutil_is_file) {
            Ok(p) => p,
            Err(e) => {
                return Err(e);
            },
        };
        let mut args = list1("unmount");
        let flag = if request.force {
            list1("force")
        } else {
            let none: Vec<String> = Vec::new();
            assert(texts(none@) =~= seq![]);
            none
        };
        extend(&mut args, flag);
        extend(&mut args, list1(request.mount.local_path.as_str()));
        Ok(
            UnmountStep::Diskutil(
                plan_command(
                    program,
                    args,
                    DEFAULT_UNMOUNT_TIMEOUT_MS,
                    "diskutil unmount command timed out",
                    "diskutil unmount task failed",
                    "failed to execute diskutil unmount command",
                    None,
                ),
            ),
        )
    }

    /// Goes on once `umount` has run.
    pub fn unmount_ran(
        &self,
        request: &SshUnmountRequest,
        macos: bool,
        diskutil_is_file: bool,
        output: &CommandOutput,
    ) -> (r: Result<UnmountStep, Failure>)
        ensures
            if output.success {
                r matches Ok(UnmountStep::Done)
            } else if diskutil_helps(*request, macos) {
                is_diskutil_step(r, *request, diskutil_is_file)
            } else {
                r matches Err(e) && e@ == unmount_failure_text(request.mount, *output)
            },
    {
        if output.success {
            Ok(UnmountStep::Done)
        } else if macos && request.force && request.diskutil_bin_path.is_some() {
            self.diskutil_step(request, diskutil_is_file)
        } else {
            Err(map_unmount_failure(&request.mount, output))
        }
    }

    /// Goes on once `diskutil` has run.
    pub fn diskutil_ran(&self, request: &SshUnmountRequest, output: &CommandOutput) -> (r: Result<
        UnmountStep,
        Failure,
    >)
        ensures
            if output.success {
                r matches Ok(UnmountStep::Done)
            } else {
                r matches Err(e) && e@ == unmount_failure_text(request.mount, *output)
            },
    {
        if output.success {
            Ok(UnmountStep::Done)
        } else {
            Err(map_unmount_failure(&request.mount, output))
        }
    }
}

/// Whether a plan runs the given script in a session, or else says why not.
pub open spec fn is_exec_plan(
    r: Result<SshSessionSpawnPlan, Failure>,
    request: SshExecPlanRequest,
    ssh_is_file: bool,
    interactive: bool,
) -> bool {
    let ssh = opt_text(request.ssh_bin_path);
    let remote = remote_exec_text(
        request.script@,
        opt_text(request.cwd),
        env_pairs(request.env),
        opt_text(request.shell),
        request.login,
    );
    match r {
        Ok(plan) => {
            &&& binary_refusal("ssh"@, ssh, ssh_is_file) is None
            &&& remote is Ok
            &&& is_session_plan(
                plan,
                ssh->0,
                request.target@,
                request.auth_kind,
                opt_text(request.identity_path),
                request.verify_host_key,
                interactive,
                Some(remote->Ok_0),
            )
        },
        Err(e) => if binary_refusal("ssh"@, ssh, ssh_is_file) is Some {
            binary_refusal("ssh"@, ssh, ssh_is_file) == Some(e@)
        } else {
            remote == Err::<Seq<char>, Seq<char>>(e@)
        },
    }
}

/// Whether a plan runs the given script to its end, or else says why not.
pub open spec fn is_capture_plan(
    r: Result<CommandPlan, Failure>,
    request: SshExecPlanRequest,
    ssh_is_file: bool,
    timeout_ms: Option<u64>,
    max_output_bytes: Option<usize>,
) -> bool {
    let ssh = opt_text(request.ssh_bin_path);
    let remote = remote_exec_text(
        request.script@,
        opt_text(request.cwd),
        env_pairs(request.env),
        opt_text(request.shell),
        request.login,
    );
    match r {
        Ok(p) => {
            &&& binary_refusal("ssh"@, ssh, ssh_is_file) is None
            &&& remote is Ok
            &&& is_command(
                p,
                ssh->0,
                session_args(
                    request.target@,
                    request.auth_kind,
                    opt_text(request.identity_path),
                    request.verify_host_key,
                    false,
                    Some(remote->Ok_0),
                ),
                capture_ms(timeout_ms),
                "ssh command timed out"@,
                "ssh command task failed"@,
                "failed to execute ssh command"@,
                max_output_bytes,
            )
        },
        Err(e) => if binary_refusal("ssh"@, ssh, ssh_is_file) is Some {
            binary_refusal("ssh"@, ssh, ssh_is_file) == Some(e@)
        } else {
            remote == Err::<Seq<char>, Seq<char>>(e@)
        },
    }
}

/// Says that a tunnel failed.
pub open spec fn tunnel_failure_text(t: SshTunnelSummary, o: CommandOutput) -> Seq<char> {
    "ssh tunnel failed: tunnel_id="@ + t.tunnel_id@ + " target="@ + t.target_summary@ + (
    " bind_host="@ + t.bind_host@ + " local_port="@ + decimal_text(t.local_port as nat)
        + exit_text(o))
}

/// The failure of a tunnel whose program has ended.
pub fn map_tunnel_failure(tunnel: &SshTunnelSummary, output: &CommandOutput) -> (r: Failure)
    ensures
        r@ == tunnel_failure_text(*tunnel, *output),
{
    let tail = exit_string(output);
    let port = decimal(tunnel.local_port as u64);
    let head = cat4(
        "ssh tunnel failed: tunnel_id=",
        tunnel.tunnel_id.as_str(),
        " target=",
        tunnel.target_summary.as_str(),
    );
    let middle = cat5(
        " bind_host=",
        tunnel.bind_host.as_str(),
        " local_port=",
        port.as_str(),
        tail.as_str(),
    );
    Failure::new(cat2(head.as_str(), middle.as_str()))
}

/// The arguments that are shown say nothing of the identity file but that there
/// is one.
pub proof fn law_shown_arguments_hide_the_identity(
    target: TargetText,
    kind: SshAuthKind,
    one: Seq<char>,
    other: Seq<char>,
    verify: bool,
    interactive: bool,
    remote_command: Option<Seq<char>>,
)
    ensures
        session_args(target, kind, redacted(Some(one)), verify, interactive, remote_command)
            == session_args(
            target,
            kind,
            redacted(Some(other)),
            verify,
            interactive,
            remote_command,
        ),
        session_args(
            target,
            kind,
            redacted(Some(one)),
            verify,
            interactive,
            remote_command,
        ).len() == session_args(
            target,
            kind,
            Some(one),
            verify,
            interactive,
            remote_command,
        ).len(),
{
}

/// The remote shell receives a script as one word: what it reads behind `sh -lc `
/// is the commands of the script, joined.
pub proof fn law_remote_script_is_one_word(parts: Seq<Seq<char>>)
    ensures
        super::shell::shell_reads(
            wrapped(parts).skip("sh -lc "@.len() as int),
            super::shell::Quoting::Outside,
        ) == Some(joined(parts, " && "@)),
{
    let script = joined(parts, " && "@);
    assert(wrapped(parts).skip("sh -lc "@.len() as int) =~= shell_quoted(script));
    super::shell::law_shell_reads_back_quoted_text(script);
}

/// Whether an option of `ssh` or `sshfs` is followed by its value.
pub open spec fn takes_value(option: Seq<char>) -> bool {
    option == "-o"@ || option == "-p"@ || option == "-i"@ || option == "-L"@
}

/// The values that a list of options gives to one of them, in their order, read from
/// the left as `ssh` reads it.
pub open spec fn option_values(options: Seq<Seq<char>>, option: Seq<char>) -> Seq<Seq<char>>
    decreases options.len(),
{
    if options.len() == 0 {
        seq![]
    } else if !takes_value(options[0]) {
        option_values(options.skip(1), option)
    } else if options.len() == 1 {
        seq![]
    } else {
        (if options[0] == option {
            seq![options[1]]
        } else {
            seq![]
        }) + option_values(options.skip(2), option)
    }
}

/// Whether a list of options holds a switch, read as `ssh` reads it: what follows an
/// option that takes a value is no switch.
pub open spec fn has_switch(options: Seq<Seq<char>>, switch: Seq<char>) -> bool
    decreases options.len(),
{
    if options.len() == 0 {
        false
    } else if takes_value(options[0]) {
        options.len() > 1 && has_switch(options.skip(2), switch)
    } else {
        options[0] == switch || has_switch(options.skip(1), switch)
    }
}

/// Whether every option of a list that takes a value has one.
pub open spec fn options_complete(options: Seq<Seq<char>>) -> bool
    decreases options.len(),
{
    if options.len() == 0 {
        true
    } else if takes_value(options[0]) {
        options.len() > 1 && options_complete(options.skip(2))
    } else {
        options_complete(options.skip(1))
    }
}

/// Lists of options one after another are read one after another.
proof fn lemma_options_in_a_row(a: Seq<Seq<char>>, b: Seq<Seq<char>>, option: Seq<char>)
    requires
        options_complete(a),
    ensures
        option_values(a + b, option) == option_values(a, option) + option_values(b, option),
        has_switch(a + b, option) == (has_switch(a, option) || has_switch(b, option)),
        options_complete(b) ==> options_complete(a + b),
    decreases a.len(),
{
    if a.len() == 0 {
        assert(a + b =~= b);
        assert(option_values(a, option) + option_values(b, option) =~= option_values(b, option));
    } else if takes_value(a[0]) {
        lemma_options_in_a_row(a.skip(2), b, option);
        assert((a + b).skip(2) =~= a.skip(2) + b);
        assert((a + b)[0] == a[0] && (a + b)[1] == a[1]);
        assert(option_values(a + b, option) =~= option_values(a, option) + option_values(
            b,
            option,
        ));
    } else {
        lemma_options_in_a_row(a.skip(1), b, option);
        assert((a + b).skip(1) =~= a.skip(1) + b);
        assert((a + b)[0] == a[0]);
    }
}

/// The options have names of their own.
proof fn lemma_option_names()
    ensures
        takes_value("-o"@) && takes_value("-p"@) && takes_value("-i"@) && takes_value("-L"@),
        !takes_value("-T"@) && !takes_value("-tt"@) && !takes_value("-N"@),
        "-o"@ != "-p"@ && "-o"@ != "-i"@ && "-o"@ != "-L"@ && "-p"@ != "-i"@,
        "-p"@ != "-L"@ && "-i"@ != "-L"@,
        "-T"@ != "-tt"@ && "-T"@ != "-N"@ && "-tt"@ != "-N"@,
{
    reveal_strlit("-o");
    reveal_strlit("-p");
    reveal_strlit("-i");
    reveal_strlit("-L");
    reveal_strlit("-T");
    reveal_strlit("-tt");
    reveal_strlit("-N");
    assert("-o"@[1] == 'o' && "-p"@[1] == 'p' && "-i"@[1] == 'i' && "-L"@[1] == 'L');
    assert("-T"@[1] == 'T' && "-N"@[1] == 'N' && "-tt"@.len() == 3);
}

/// An option with its value is read as such.
proof fn lemma_one_option(option: Seq<char>, value: Seq<char>, asked: Seq<char>)
    requires
        takes_value(option),
    ensures
        options_complete(seq![option, value]),
        option_values(seq![option, value], asked) == if option == asked {
            seq![value]
        } else {
            seq![]
        },
        !has_switch(seq![option, value], asked),
{
    let list = seq![option, value];
    assert(list.skip(2) =~= seq![]);
    assert(option_values(list.skip(2), asked) =~= seq![]);
    assert(options_complete(list.skip(2)));
    assert(!has_switch(list.skip(2), asked));
    if option == asked {
        assert(seq![value] + Seq::<Seq<char>>::empty() =~= seq![value]);
    }
}

/// A switch is read as such.
proof fn lemma_one_switch(switch: Seq<char>, asked: Seq<char>)
    requires
        !takes_value(switch),
    ensures
        options_complete(seq![switch]),
        option_values(seq![switch], asked) == Seq::<Seq<char>>::empty(),
        has_switch(seq![switch], asked) == (switch == asked),
{
    let list = seq![switch];
    assert(list.skip(1) =~= seq![]);
    assert(option_values(list.skip(1), asked) =~= seq![]);
    assert(options_complete(list.skip(1)));
    assert(!has_switch(list.skip(1), asked));
}

/// An optional value as a list.
pub open spec fn as_list(value: Option<Seq<char>>) -> Seq<Seq<char>> {
    match value {
        Some(v) => seq![v],
        None => seq![],
    }
}

/// The decimal form of an optional port.
pub open spec fn port_text(port: Option<u16>) -> Option<Seq<char>> {
    match port {
        Some(p) => Some(decimal_text(p as nat)),
        None => None,
    }
}

/// What has to be said of the key of a host: that it is checked, or that any is taken
/// and none is remembered.
pub open spec fn key_checks(verify: bool) -> Seq<Seq<char>> {
    if verify {
        seq!["StrictHostKeyChecking=yes"@]
    } else {
        seq!["StrictHostKeyChecking=no"@, "UserKnownHostsFile=/dev/null"@]
    }
}

/// What has to be said of the identities that are tried: an agent offers its own, and
/// otherwise only the given one is tried.
pub open spec fn identity_choice(kind: SshAuthKind) -> Seq<char> {
    match kind {
        SshAuthKind::SshAgent => "IdentitiesOnly=no"@,
        SshAuthKind::IdentityFile => "IdentitiesOnly=yes"@,
        SshAuthKind::ConfigAlias => "IdentitiesOnly=yes"@,
    }
}

/// Whether a text names a target as `ssh` takes it: the alias where there is one and
/// else the host, behind the user and `@` where a user is named.
pub open spec fn names_target(to: Seq<char>, t: TargetText) -> bool {
    &&& t.host_alias is Some && t.user is Some && !is_blank(t.user->0) ==> to == t.user->0 + "@"@
        + t.host_alias->0
    &&& t.host_alias is Some && !(t.user is Some && !is_blank(t.user->0)) ==> to
        == t.host_alias->0
    &&& t.host_alias is None && t.user is Some && !is_blank(t.user->0) ==> to == t.user->0 + "@"@
        + t.host
    &&& t.host_alias is None && !(t.user is Some && !is_blank(t.user->0)) ==> to == t.host
}

/// Whether options lead to the port of a target with an identity file, and with no
/// other port or file.
pub open spec fn options_lead(
    options: Seq<Seq<char>>,
    port: Option<u16>,
    identity: Option<Seq<char>>,
) -> bool {
    &&& options_complete(options)
    &&& option_values(options, "-p"@) == as_list(port_text(port))
    &&& option_values(options, "-i"@) == as_list(identity)
}

/// What the blocks of options say, each for itself.
proof fn lemma_option_blocks(
    verify: bool,
    port: Option<u16>,
    identity: Option<Seq<char>>,
    kind: SshAuthKind,
    asked: Seq<char>,
)
    ensures
        options_complete(host_key_args(verify)),
        options_complete(port_args(port)),
        options_complete(identity_args(identity)),
        options_complete(agent_args(kind)),
        option_values(host_key_args(verify), asked) == if asked == "-o"@ {
            key_checks(verify)
        } else {
            seq![]
        },
        option_values(port_args(port), asked) == if asked == "-p"@ {
            as_list(port_text(port))
        } else {
            seq![]
        },
        option_values(identity_args(identity), asked) == if asked == "-i"@ {
            as_list(identity)
        } else {
            seq![]
        },
        option_values(agent_args(kind), asked) == if asked == "-o"@ {
            seq![identity_choice(kind)]
        } else {
            seq![]
        },
        !has_switch(host_key_args(verify), asked),
        !has_switch(port_args(port), asked),
        !has_switch(identity_args(identity), asked),
        !has_switch(agent_args(kind), asked),
{
    lemma_option_names();
    if verify {
        lemma_one_option("-o"@, "StrictHostKeyChecking=yes"@, asked);
    } else {
        let a = seq!["-o"@, "StrictHostKeyChecking=no"@];
        let b = seq!["-o"@, "UserKnownHostsFile=/dev/null"@];
        lemma_one_option("-o"@, "StrictHostKeyChecking=no"@, asked);
        lemma_one_option("-o"@, "UserKnownHostsFile=/dev/null"@, asked);
        lemma_options_in_a_row(a, b, asked);
        assert(host_key_args(verify) =~= a + b);
        assert(option_values(a, asked) + option_values(b, asked) =~= if asked == "-o"@ {
            key_checks(verify)
        } else {
            seq![]
        });
    }
    if port is Some {
        lemma_one_option("-p"@, decimal_text(port->0 as nat), asked);
    }
    if identity is Some {
        lemma_one_option("-i"@, identity->0, asked);
    }
    lemma_one_option("-o"@, "IdentitiesOnly=no"@, asked);
    lemma_one_option("-o"@, "IdentitiesOnly=yes"@, asked);
}

/// Whether the arguments of a remote session say what they should: the target is
/// reached at its port, by its name and with the identity file, without questions,
/// with the host key checked or not as asked; there is a terminal where the session
/// is interactive; and the remote command comes last.
pub open spec fn session_is_asked_for(
    args: Seq<Seq<char>>,
    target: TargetText,
    kind: SshAuthKind,
    identity: Option<Seq<char>>,
    verify: bool,
    interactive: bool,
    remote_command: Option<Seq<char>>,
) -> bool {
    let d = args.len() - 1 - as_list(remote_command).len();
    &&& 0 <= d
    &&& options_lead(args.take(d), target.port, identity)
    &&& option_values(args.take(d), "-o"@) == seq![
        "BatchMode=yes"@,
        "NumberOfPasswordPrompts=0"@,
    ] + key_checks(verify) + seq![identity_choice(kind)]
    &&& option_values(args.take(d), "-L"@).len() == 0
    &&& has_switch(args.take(d), "-tt"@) == interactive
    &&& has_switch(args.take(d), "-T"@) == !interactive
    &&& !has_switch(args.take(d), "-N"@)
    &&& names_target(args[d], target)
    &&& args.skip(d + 1) == as_list(remote_command)
    &&& target.port is Some ==> exists|i: int|
        0 <= i && i + 1 < d && #[trigger] args[i] == "-p"@ && args[i + 1] == decimal_text(
            target.port->0 as nat,
        )
}

/// The options of a session, before its target.
spec fn session_options(
    first: Seq<char>,
    port: Option<u16>,
    kind: SshAuthKind,
    identity: Option<Seq<char>>,
    verify: bool,
) -> Seq<Seq<char>> {
    seq![first] + seq!["-o"@, "BatchMode=yes"@] + seq!["-o"@, "NumberOfPasswordPrompts=0"@]
        + host_key_args(verify) + port_args(port) + identity_args(identity) + agent_args(kind)
}

proof fn lemma_session_options(
    first: Seq<char>,
    port: Option<u16>,
    kind: SshAuthKind,
    identity: Option<Seq<char>>,
    verify: bool,
    asked: Seq<char>,
)
    requires
        !takes_value(first),
    ensures
        options_complete(session_options(first, port, kind, identity, verify)),
        has_switch(session_options(first, port, kind, identity, verify), asked) == (first
            == asked),
        asked == "-o"@ ==> option_values(
            session_options(first, port, kind, identity, verify),
            asked,
        ) == seq!["BatchMode=yes"@, "NumberOfPasswordPrompts=0"@] + key_checks(verify) + seq![
            identity_choice(kind),
        ],
        asked == "-p"@ ==> option_values(
            session_options(first, port, kind, identity, verify),
            asked,
        ) == as_list(port_text(port)),
        asked == "-i"@ ==> option_values(
            session_options(first, port, kind, identity, verify),
            asked,
        ) == as_list(identity),
        asked == "-L"@ ==> option_values(
            session_options(first, port, kind, identity, verify),
            asked,
        ) == Seq::<Seq<char>>::empty(),
{
    let a0 = seq![first];
    let b1 = seq!["-o"@, "BatchMode=yes"@];
    let b2 = seq!["-o"@, "NumberOfPasswordPrompts=0"@];
    let b3 = host_key_args(verify);
    let b4 = port_args(port);
    let b5 = identity_args(identity);
    let b6 = agent_args(kind);
    lemma_option_names();
    lemma_one_switch(first, asked);
    lemma_one_option("-o"@, "BatchMode=yes"@, asked);
    lemma_one_option("-o"@, "NumberOfPasswordPrompts=0"@, asked);
    lemma_option_blocks(verify, port, identity, kind, asked);
    let a1 = a0 + b1;
    let a2 = a1 + b2;
    let a3 = a2 + b3;
    let a4 = a3 + b4;
    let a5 = a4 + b5;
    lemma_options_in_a_row(a0, b1, asked);
    lemma_options_in_a_row(a1, b2, asked);
    lemma_options_in_a_row(a2, b3, asked);
    lemma_options_in_a_row(a3, b4, asked);
    lemma_options_in_a_row(a4, b5, asked);
    lemma_options_in_a_row(a5, b6, asked);
    let values = option_values(a5 + b6, asked);
    if asked == "-o"@ {
        assert(values =~= seq!["BatchMode=yes"@, "NumberOfPasswordPrompts=0"@] + key_checks(verify)
            + seq![identity_choice(kind)]);
    } else if asked == "-p"@ {
        assert(values =~= as_list(port_text(port)));
    } else if asked == "-i"@ {
        assert(values =~= as_list(identity));
    } else if asked == "-L"@ {
        assert(values =~= seq![]);
    }
}

/// A session goes to the port of its target and by its name, before which `-p` stands
/// with that port exactly where the target has one; it uses the identity file and the
/// checks of the host key that its connection was made with; and what it runs on the
/// remote side is the remote command and nothing else.
pub proof fn law_session_goes_where_it_is_asked_to(
    target: TargetText,
    kind: SshAuthKind,
    identity: Option<Seq<char>>,
    verify: bool,
    interactive: bool,
    remote_command: Option<Seq<char>>,
)
    ensures
        session_is_asked_for(
            session_args(target, kind, identity, verify, interactive, remote_command),
            target,
            kind,
            identity,
            verify,
            interactive,
            remote_command,
        ),
{
    let args = session_args(target, kind, identity, verify, interactive, remote_command);
    let first = if interactive {
        "-tt"@
    } else {
        "-T"@
    };
    let front = session_options(first, target.port, kind, identity, verify);
    let d = front.len() as int;
    lemma_option_names();
    assert(args.take(d) =~= front);
    assert(args[d] == destination_text(target));
    assert(args.skip(d + 1) =~= as_list(remote_command));
    lemma_session_options(first, target.port, kind, identity, verify, "-o"@);
    lemma_session_options(first, target.port, kind, identity, verify, "-p"@);
    lemma_session_options(first, target.port, kind, identity, verify, "-i"@);
    lemma_session_options(first, target.port, kind, identity, verify, "-L"@);
    lemma_session_options(first, target.port, kind, identity, verify, "-T"@);
    lemma_session_options(first, target.port, kind, identity, verify, "-tt"@);
    lemma_session_options(first, target.port, kind, identity, verify, "-N"@);
    if target.port is Some {
        let i: int = 5 + host_key_args(verify).len() as int;
        assert(args[i] == "-p"@);
        assert(args[i + 1] == decimal_text(target.port->0 as nat));
    }
}

/// Whether the arguments with which a target is tried say what they should: it is
/// reached at its port, by its name and with the identity file, for the given time,
/// without questions, and nothing but `exit 0` is run there.
pub open spec fn target_is_tried(
    args: Seq<Seq<char>>,
    target: TargetText,
    kind: SshAuthKind,
    identity: Option<Seq<char>>,
    verify: bool,
    timeout_secs: nat,
) -> bool {
    let d = args.len() - 3;
    &&& 0 <= d
    &&& options_lead(args.take(d), target.port, identity)
    &&& option_values(args.take(d), "-o"@) == seq![
        "BatchMode=yes"@,
        "NumberOfPasswordPrompts=0"@,
        "ConnectTimeout="@ + decimal_text(timeout_secs),
    ] + key_checks(verify) + seq![identity_choice(kind)]
    &&& has_switch(args.take(d), "-T"@)
    &&& names_target(args[d], target)
    &&& args.skip(d + 1) == seq!["exit"@, "0"@]
}

/// A target is tried where it is and in the way that is asked for, for one second at
/// least.
pub proof fn law_target_is_tried_where_it_is(
    target: TargetText,
    kind: SshAuthKind,
    identity: Option<Seq<char>>,
    verify: bool,
    timeout_secs: u64,
)
    ensures
        target_is_tried(
            verify_args(target, kind, identity, verify, timeout_secs),
            target,
            kind,
            identity,
            verify,
            if timeout_secs == 0 {
                1
            } else {
                timeout_secs as nat
            },
        ),
{
    let args = verify_args(target, kind, identity, verify, timeout_secs);
    let limit = "ConnectTimeout="@ + decimal_text(
        if timeout_secs >= 1 {
            timeout_secs as nat
        } else {
            1
        },
    );
    let d = args.len() - 3;
    assert(args.skip(d + 1) =~= seq!["exit"@, "0"@]);
    lemma_option_names();
    lemma_verify_options(target.port, kind, identity, verify, limit, "-o"@);
    lemma_verify_options(target.port, kind, identity, verify, limit, "-p"@);
    lemma_verify_options(target.port, kind, identity, verify, limit, "-i"@);
    lemma_verify_options(target.port, kind, identity, verify, limit, "-T"@);
    assert(args.take(d) =~= verify_options(target.port, kind, identity, verify, limit));
}

spec fn verify_options(
    port: Option<u16>,
    kind: SshAuthKind,
    identity: Option<Seq<char>>,
    verify: bool,
    limit: Seq<char>,
) -> Seq<Seq<char>> {
    seq!["-T"@] + seq!["-o"@, "BatchMode=yes"@] + seq!["-o"@, "NumberOfPasswordPrompts=0"@] + seq![
        "-o"@,
        limit,
    ] + host_key_args(verify) + port_args(port) + identity_args(identity) + agent_args(kind)
}

proof fn lemma_verify_options(
    port: Option<u16>,
    kind: SshAuthKind,
    identity: Option<Seq<char>>,
    verify: bool,
    limit: Seq<char>,
    asked: Seq<char>,
)
    ensures
        ({
            let front = verify_options(port, kind, identity, verify, limit);
            &&& options_complete(front)
            &&& has_switch(front, asked) == ("-T"@ == asked)
            &&& asked == "-o"@ ==> option_values(front, asked) == seq![
                "BatchMode=yes"@,
                "NumberOfPasswordPrompts=0"@,
                limit,
            ] + key_checks(verify) + seq![identity_choice(kind)]
            &&& asked == "-p"@ ==> option_values(front, asked) == as_list(port_text(port))
            &&& asked == "-i"@ ==> option_values(front, asked) == as_list(identity)
        }),
{
    let a0 = seq!["-T"@];
    let b1 = seq!["-o"@, "BatchMode=yes"@];
    let b2 = seq!["-o"@, "NumberOfPasswordPrompts=0"@];
    let b3 = seq!["-o"@, limit];
    let b4 = host_key_args(verify);
    let b5 = port_args(port);
    let b6 = identity_args(identity);
    let b7 = agent_args(kind);
    lemma_option_names();
    lemma_one_switch("-T"@, asked);
    lemma_one_option("-o"@, "BatchMode=yes"@, asked);
    lemma_one_option("-o"@, "NumberOfPasswordPrompts=0"@, asked);
    lemma_one_option("-o"@, limit, asked);
    lemma_option_blocks(verify, port, identity, kind, asked);
    let a1 = a0 + b1;
    let a2 = a1 + b2;
    let a3 = a2 + b3;
    let a4 = a3 + b4;
    let a5 = a4 + b5;
    let a6 = a5 + b6;
    lemma_options_in_a_row(a0, b1, asked);
    lemma_options_in_a_row(a1, b2, asked);
    lemma_options_in_a_row(a2, b3, asked);
    lemma_options_in_a_row(a3, b4, asked);
    lemma_options_in_a_row(a4, b5, asked);
    lemma_options_in_a_row(a5, b6, asked);
    lemma_options_in_a_row(a6, b7, asked);
    let values = option_values(a6 + b7, asked);
    if asked == "-o"@ {
        assert(values =~= seq!["BatchMode=yes"@, "NumberOfPasswordPrompts=0"@, limit] + key_checks(
            verify,
        ) + seq![identity_choice(kind)]);
    } else if asked == "-p"@ {
        assert(values =~= as_list(port_text(port)));
    } else if asked == "-i"@ {
        assert(values =~= as_list(identity));
    }
}

/// Whether the arguments of a tunnel say what they should: it forwards one thing, runs
/// no command, ends where it cannot forward, and goes to the port of its target and
/// by its name.
pub open spec fn tunnel_is_asked_for(
    args: Seq<Seq<char>>,
    target: TargetText,
    kind: SshAuthKind,
    identity: Option<Seq<char>>,
    verify: bool,
    forward: Seq<char>,
) -> bool {
    let d = args.len() - 1;
    &&& 0 <= d
    &&& options_lead(args.take(d), target.port, identity)
    &&& option_values(args.take(d), "-L"@) == seq![forward]
    &&& option_values(args.take(d), "-o"@) == seq![
        "BatchMode=yes"@,
        "NumberOfPasswordPrompts=0"@,
        "ExitOnForwardFailure=yes"@,
    ] + key_checks(verify) + seq![identity_choice(kind)]
    &&& has_switch(args.take(d), "-N"@)
    &&& has_switch(args.take(d), "-T"@)
    &&& names_target(args[d], target)
}

/// A tunnel forwards what is asked for and nothing else, to the target and in the way
/// that its connection was made.
pub proof fn law_tunnel_forwards_what_is_asked(
    target: TargetText,
    kind: SshAuthKind,
    identity: Option<Seq<char>>,
    verify: bool,
    forward: Seq<char>,
)
    ensures
        tunnel_is_asked_for(
            tunnel_args(target, kind, identity, verify, forward),
            target,
            kind,
            identity,
            verify,
            forward,
        ),
{
    let args = tunnel_args(target, kind, identity, verify, forward);
    let d = args.len() - 1;
    lemma_option_names();
    lemma_tunnel_options(target.port, kind, identity, verify, forward, "-o"@);
    lemma_tunnel_options(target.port, kind, identity, verify, forward, "-p"@);
    lemma_tunnel_options(target.port, kind, identity, verify, forward, "-i"@);
    lemma_tunnel_options(target.port, kind, identity, verify, forward, "-L"@);
    lemma_tunnel_options(target.port, kind, identity, verify, forward, "-T"@);
    lemma_tunnel_options(target.port, kind, identity, verify, forward, "-N"@);
    assert(args.take(d) =~= tunnel_options(target.port, kind, identity, verify, forward));
}

spec fn tunnel_options(
    port: Option<u16>,
    kind: SshAuthKind,
    identity: Option<Seq<char>>,
    verify: bool,
    forward: Seq<char>,
) -> Seq<Seq<char>> {
    seq!["-N"@] + seq!["-T"@] + seq!["-o"@, "BatchMode=yes"@] + seq![
        "-o"@,
        "NumberOfPasswordPrompts=0"@,
    ] + seq!["-o"@, "ExitOnForwardFailure=yes"@] + host_key_args(verify) + seq!["-L"@, forward]
        + port_args(port) + identity_args(identity) + agent_args(kind)
}

proof fn lemma_tunnel_options(
    port: Option<u16>,
    kind: SshAuthKind,
    identity: Option<Seq<char>>,
    verify: bool,
    forward: Seq<char>,
    asked: Seq<char>,
)
    ensures
        ({
            let front = tunnel_options(port, kind, identity, verify, forward);
            &&& options_complete(front)
            &&& has_switch(front, asked) == ("-T"@ == asked || "-N"@ == asked)
            &&& asked == "-o"@ ==> option_values(front, asked) == seq![
                "BatchMode=yes"@,
                "NumberOfPasswordPrompts=0"@,
                "ExitOnForwardFailure=yes"@,
            ] + key_checks(verify) + seq![identity_choice(kind)]
            &&& asked == "-p"@ ==> option_values(front, asked) == as_list(port_text(port))
            &&& asked == "-i"@ ==> option_values(front, asked) == as_list(identity)
            &&& asked == "-L"@ ==> option_values(front, asked) == seq![forward]
        }),
{
    let a0 = seq!["-N"@];
    let b0 = seq!["-T"@];
    let b1 = seq!["-o"@, "BatchMode=yes"@];
    let b2 = seq!["-o"@, "NumberOfPasswordPrompts=0"@];
    let b3 = seq!["-o"@, "ExitOnForwardFailure=yes"@];
    let b4 = host_key_args(verify);
    let b5 = seq!["-L"@, forward];
    let b6 = port_args(port);
    let b7 = identity_args(identity);
    let b8 = agent_args(kind);
    lemma_option_names();
    lemma_one_switch("-N"@, asked);
    lemma_one_switch("-T"@, asked);
    lemma_one_option("-o"@, "BatchMode=yes"@, asked);
    lemma_one_option("-o"@, "NumberOfPasswordPrompts=0"@, asked);
    lemma_one_option("-o"@, "ExitOnForwardFailure=yes"@, asked);
    lemma_one_option("-L"@, forward, asked);
    lemma_option_blocks(verify, port, identity, kind, asked);
    let a1 = a0 + b0;
    let a2 = a1 + b1;
    let a3 = a2 + b2;
    let a4 = a3 + b3;
    let a5 = a4 + b4;
    let a6 = a5 + b5;
    let a7 = a6 + b6;
    let a8 = a7 + b7;
    lemma_options_in_a_row(a0, b0, asked);
    lemma_options_in_a_row(a1, b1, asked);
    lemma_options_in_a_row(a2, b2, asked);
    lemma_options_in_a_row(a3, b3, asked);
    lemma_options_in_a_row(a4, b4, asked);
    lemma_options_in_a_row(a5, b5, asked);
    lemma_options_in_a_row(a6, b6, asked);
    lemma_options_in_a_row(a7, b7, asked);
    lemma_options_in_a_row(a8, b8, asked);
    let values = option_values(a8 + b8, asked);
    if asked == "-o"@ {
        assert(values =~= seq![
            "BatchMode=yes"@,
            "NumberOfPasswordPrompts=0"@,
            "ExitOnForwardFailure=yes"@,
        ] + key_checks(verify) + seq![identity_choice(kind)]);
    } else if asked == "-p"@ {
        assert(values =~= as_list(port_text(port)));
    } else if asked == "-i"@ {
        assert(values =~= as_list(identity));
    } else if asked == "-L"@ {
        assert(values =~= seq![forward]);
    }
}

/// What a tunnel forwards: from its address and port on this host, which stands in
/// brackets where it is an IPv6 one, to the remote host and port.
pub proof fn law_forward_names_both_ends(
    bind_host: Seq<char>,
    local_port: u16,
    remote_host: Seq<char>,
    remote_port: u16,
)
    ensures
        !bind_host.contains(':') ==> forward_text(bind_host, local_port, remote_host, remote_port)
            == bind_host + ":"@ + decimal_text(local_port as nat) + ":"@ + remote_host + ":"@
            + decimal_text(remote_port as nat),
        bind_host.contains(':') ==> forward_text(bind_host, local_port, remote_host, remote_port)
            == "["@ + bind_host + "]"@ + ":"@ + decimal_text(local_port as nat) + ":"@
            + remote_host + ":"@ + decimal_text(remote_port as nat),
{
    let port = decimal_text(remote_port as nat);
    let plain = bind_host + ":"@ + decimal_text(local_port as nat) + ":"@ + remote_host;
    let framed = "["@ + bind_host + "]"@ + ":"@ + decimal_text(local_port as nat) + ":"@
        + remote_host;
    assert(plain + (":"@ + port) =~= plain + ":"@ + port);
    assert(framed + (":"@ + port) =~= framed + ":"@ + port);
}

/// Whether the arguments of `sshfs` make the mount that is asked for: of the remote
/// path at the target's name and port, on the local path, read-only exactly where
/// that was asked for, with the identity file and the checks of the host key that the
/// connection was made with.
pub open spec fn mount_is_asked_for(
    args: Seq<Seq<char>>,
    read_only: bool,
    verify: bool,
    target: TargetText,
    identity: Option<Seq<char>>,
    kind: SshAuthKind,
    remote_path: Seq<char>,
    local_path: Seq<char>,
) -> bool {
    let d = args.len() - 2;
    &&& 0 <= d
    &&& options_lead(args.take(d), target.port, None)
    &&& option_values(args.take(d), "-o"@).contains("ro"@) == read_only
    &&& option_values(args.take(d), "-o"@) == (if read_only {
        seq!["ro"@]
    } else {
        seq![]
    }) + key_checks(verify) + (match identity {
        Some(file) => seq!["IdentityFile="@ + file],
        None => seq![],
    }) + seq![identity_choice(kind)]
    &&& exists|to: Seq<char>| #[trigger]
        names_target(to, target) && args[d] == to + ":"@ + remote_path
    &&& args[d + 1] == local_path
}

/// A mount is read-only exactly where that was asked for: `sshfs` is told `-o ro` then
/// and only then. It is made of the remote path of the target on the local path.
pub proof fn law_mount_is_read_only_where_asked(
    read_only: bool,
    verify: bool,
    target: TargetText,
    identity: Option<Seq<char>>,
    kind: SshAuthKind,
    remote_path: Seq<char>,
    local_path: Seq<char>,
)
    ensures
        mount_is_asked_for(
            mount_args(read_only, verify, target, identity, kind, remote_path, local_path),
            read_only,
            verify,
            target,
            identity,
            kind,
            remote_path,
            local_path,
        ),
{
    let args = mount_args(read_only, verify, target, identity, kind, remote_path, local_path);
    let d = args.len() - 2;
    let front = mount_options(read_only, verify, target.port, identity, kind);
    assert(args.take(d) =~= front);
    lemma_option_names();
    lemma_mount_options(read_only, verify, target.port, identity, kind, "-o"@);
    lemma_mount_options(read_only, verify, target.port, identity, kind, "-p"@);
    lemma_mount_options(read_only, verify, target.port, identity, kind, "-i"@);
    let values = option_values(front, "-o"@);
    reveal_strlit("ro");
    reveal_strlit("StrictHostKeyChecking=yes");
    reveal_strlit("StrictHostKeyChecking=no");
    reveal_strlit("UserKnownHostsFile=/dev/null");
    reveal_strlit("IdentityFile=");
    reveal_strlit("IdentitiesOnly=yes");
    reveal_strlit("IdentitiesOnly=no");
    if read_only {
        assert(values[0] == "ro"@);
    } else if values.contains("ro"@) {
        let i = values.index_of("ro"@);
        assert("ro"@[0] == 'r');
        assert(values[i][0] != 'r');
    }
    assert(names_target(destination_text(target), target));
    assert(args[d] == destination_text(target) + ":"@ + remote_path);
}

spec fn mount_options(
    read_only: bool,
    verify: bool,
    port: Option<u16>,
    identity: Option<Seq<char>>,
    kind: SshAuthKind,
) -> Seq<Seq<char>> {
    (if read_only {
        seq!["-o"@, "ro"@]
    } else {
        seq![]
    }) + host_key_args(verify) + port_args(port) + (match identity {
        Some(p) => seq!["-o"@, "IdentityFile="@ + p],
        None => seq![],
    }) + agent_args(kind)
}

proof fn lemma_mount_options(
    read_only: bool,
    verify: bool,
    port: Option<u16>,
    identity: Option<Seq<char>>,
    kind: SshAuthKind,
    asked: Seq<char>,
)
    ensures
        ({
            let front = mount_options(read_only, verify, port, identity, kind);
            &&& options_complete(front)
            &&& asked == "-o"@ ==> option_values(front, asked) == (if read_only {
                seq!["ro"@]
            } else {
                seq![]
            }) + key_checks(verify) + (match identity {
                Some(file) => seq!["IdentityFile="@ + file],
                None => seq![],
            }) + seq![identity_choice(kind)]
            &&& asked == "-p"@ ==> option_values(front, asked) == as_list(port_text(port))
            &&& asked == "-i"@ ==> option_values(front, asked) == Seq::<Seq<char>>::empty()
        }),
{
    let a0: Seq<Seq<char>> = if read_only {
        seq!["-o"@, "ro"@]
    } else {
        seq![]
    };
    let b1 = host_key_args(verify);
    let b2 = port_args(port);
    let b3: Seq<Seq<char>> = match identity {
        Some(p) => seq!["-o"@, "IdentityFile="@ + p],
        None => seq![],
    };
    let b4 = agent_args(kind);
    lemma_option_names();
    lemma_one_option("-o"@, "ro"@, asked);
    if identity is Some {
        lemma_one_option("-o"@, "IdentityFile="@ + identity->0, asked);
    }
    lemma_option_blocks(verify, port, None, kind, asked);
    let a1 = a0 + b1;
    let a2 = a1 + b2;
    let a3 = a2 + b3;
    lemma_options_in_a_row(a0, b1, asked);
    lemma_options_in_a_row(a1, b2, asked);
    lemma_options_in_a_row(a2, b3, asked);
    lemma_options_in_a_row(a3, b4, asked);
    let values = option_values(a3 + b4, asked);
    if asked == "-o"@ {
        assert(values =~= (if read_only {
            seq!["ro"@]
        } else {
            seq![]
        }) + key_checks(verify) + (match identity {
            Some(file) => seq!["IdentityFile="@ + file],
            None => seq![],
        }) + seq![identity_choice(kind)]);
    } else if asked == "-p"@ {
        assert(values =~= as_list(port_text(port)));
    } else if asked == "-i"@ {
        assert(values =~= seq![]);
    }
}

/// What takes a mount away is told the mount point, and to use force exactly where
/// that was asked for.
pub proof fn law_unmounting_names_the_mount_point(
    p: CommandPlan,
    program: Seq<char>,
    force: bool,
    path: Seq<char>,
)
    ensures
        is_umount_plan(p, program, force, path) ==> {
            &&& p.program@ == program
            &&& !force ==> texts(p.args@) == seq![path]
            &&& force ==> texts(p.args@) == seq!["-f"@, path]
            &&& p.timeout_ms == 10_000
        },
        is_diskutil_plan(p, program, force, path) ==> {
            &&& p.program@ == program
            &&& !force ==> texts(p.args@) == seq!["unmount"@, path]
            &&& force ==> texts(p.args@) == seq!["unmount"@, "force"@, path]
            &&& p.timeout_ms == 10_000
        },
{
    let none = Seq::<Seq<char>>::empty();
    assert(none + seq![path] =~= seq![path]);
    assert(seq!["-f"@] + seq![path] =~= seq!["-f"@, path]);
    assert(seq!["unmount"@] + none + seq![path] =~= seq!["unmount"@, path]);
    assert(seq!["unmount"@] + seq!["force"@] + seq![path] =~= seq!["unmount"@, "force"@, path]);
}

/// How long commands may take: a script as long as is asked for, or else twenty
/// seconds; trying a target two seconds longer than `ssh` itself waits, which is
/// eight seconds where nothing is said.
pub proof fn law_commands_have_time_limits(asked: Option<u64>, secs: u64)
    ensures
        asked is Some ==> capture_ms(asked) == asked->0,
        asked is None ==> capture_ms(asked) == 20_000,
        asked is Some ==> connect_secs(asked) == asked->0,
        asked is None ==> connect_secs(asked) == 8,
        secs <= 1_000_000_000 ==> patience_ms(secs) == secs * 1000 + 2000,
        patience_ms(secs) >= secs,
        DEFAULT_MOUNT_TIMEOUT_MS == 15_000,
{
}

/// A program is used only where it is known and is a file.
pub proof fn law_missing_programs_are_refused(
    name: Seq<char>,
    path: Option<Seq<char>>,
    is_file: bool,
)
    ensures
        binary_refusal(name, path, is_file) is None <==> path is Some && is_file,
{
}

/// Whether commands set variables, in their order.
pub open spec fn sets_variables(
    list: Seq<Seq<char>>,
    pairs: Seq<(Seq<char>, Seq<char>)>,
) -> bool {
    &&& list.len() == pairs.len()
    &&& forall|i: int|
        0 <= i < list.len() ==> #[trigger] list[i] == "export "@ + trimmed(pairs[i].0) + "="@
            + shell_quoted(pairs[i].1)
}

/// Whether a command enters a directory, or ends the script where it cannot.
pub open spec fn enters_directory(command: Seq<char>, cwd: Seq<char>) -> bool {
    &&& cwd == "~"@ || cwd == "~/"@ ==> command == "cd -- \"${HOME:-~}\" || exit 1"@
    &&& forall|rest: Seq<char>|
        rest.len() > 0 && cwd == #[trigger] ("~/"@ + rest) ==> command
            == "cd -- \"${HOME:-~}\"/"@ + shell_quoted(rest) + " || exit 1"@
    &&& cwd != "~"@ && !"~/"@.is_prefix_of(cwd) ==> command == "cd -- "@ + shell_quoted(cwd)
        + " || exit 1"@
}

/// Whether what the remote shell is handed is one script for `sh -lc`, which sets the
/// variables, enters the directory where one is named, and then runs the main
/// command, each only where all before it succeeded.
pub open spec fn remote_side_runs(
    command: Seq<char>,
    pairs: Seq<(Seq<char>, Seq<char>)>,
    cwd: Option<Seq<char>>,
    main: Seq<char>,
) -> bool {
    &&& "sh -lc "@.is_prefix_of(command)
    &&& exists|list: Seq<Seq<char>>, enter: Seq<char>|
        #![trigger sets_variables(list, pairs), enters_directory(enter, cwd->0)]
        {
            &&& sets_variables(list, pairs)
            &&& enters_directory(enter, cwd->0) || cwd is None
            &&& super::shell::shell_reads(
                command.skip("sh -lc "@.len() as int),
                super::shell::Quoting::Outside,
            ) == Some(
                joined(
                    (if cwd is Some {
                        list.push(enter)
                    } else {
                        list
                    }).push(main),
                    " && "@,
                ),
            )
        }
}

/// An optional text without white space around it, where anything is left.
pub open spec fn something_in(o: Option<Seq<char>>, text: Seq<char>) -> bool {
    o is Some && trimmed(o->0) == text && text.len() > 0
}

/// Optional texts are taken without white space around them, and not at all where
/// nothing is left.
pub proof fn law_blank_means_nothing(o: Option<Seq<char>>)
    ensures
        given(o) is Some ==> something_in(o, given(o)->0),
        given(o) is None ==> o is None || trimmed(o->0).len() == 0,
{
}

proof fn lemma_exports_set(pairs: Seq<(Seq<char>, Seq<char>)>)
    requires
        exports(pairs) is Ok,
    ensures
        sets_variables(exports(pairs)->Ok_0, pairs),
        forall|i: int| 0 <= i < pairs.len() ==> is_env_name(trimmed(#[trigger] pairs[i].0)),
    decreases pairs.len(),
{
    if pairs.len() > 0 {
        lemma_exports_set(pairs.drop_last());
        let front = exports(pairs.drop_last())->Ok_0;
        assert(exports(pairs)->Ok_0.drop_last() =~= front);
        assert forall|i: int| 0 <= i < pairs.len() implies is_env_name(
            trimmed(#[trigger] pairs[i].0),
        ) by {
            if i < pairs.len() - 1 {
                assert(pairs.drop_last()[i] == pairs[i]);
            }
        }
        assert forall|i: int| 0 <= i < pairs.len() implies #[trigger] exports(pairs)->Ok_0[i]
            == "export "@ + trimmed(pairs[i].0) + "="@ + shell_quoted(pairs[i].1) by {
            if i < pairs.len() - 1 {
                assert(exports(pairs)->Ok_0[i] == front[i]);
                assert(pairs.drop_last()[i] == pairs[i]);
            }
        }
    }
}

proof fn lemma_exports_refuse(pairs: Seq<(Seq<char>, Seq<char>)>)
    ensures
        (forall|i: int| 0 <= i < pairs.len() ==> is_env_name(trimmed(#[trigger] pairs[i].0)))
            ==> exports(pairs) is Ok,
    decreases pairs.len(),
{
    if pairs.len() > 0 {
        if forall|i: int| 0 <= i < pairs.len() ==> is_env_name(trimmed(#[trigger] pairs[i].0)) {
            assert forall|i: int| 0 <= i < pairs.drop_last().len() implies is_env_name(
                trimmed(#[trigger] pairs.drop_last()[i].0),
            ) by {
                assert(pairs.drop_last()[i] == pairs[i]);
            }
            lemma_exports_refuse(pairs.drop_last());
            assert(is_env_name(trimmed(pairs[pairs.len() - 1].0)));
        }
    }
}

/// Variables are set exactly where each of them has a name that a shell takes: letters,
/// digits and underscores, no digit first. Each is then set to its value, as it is.
pub proof fn law_variables_are_set_as_given(pairs: Seq<(Seq<char>, Seq<char>)>)
    ensures
        exports(pairs) is Ok <==> forall|i: int|
            0 <= i < pairs.len() ==> {
                let name = trimmed(#[trigger] pairs[i].0);
                &&& name.len() > 0
                &&& !('0' <= name[0] && name[0] <= '9')
                &&& forall|k: int|
                    0 <= k < name.len() ==> {
                        ||| #[trigger] name[k] == '_'
                        ||| 'a' <= name[k] && name[k] <= 'z'
                        ||| 'A' <= name[k] && name[k] <= 'Z'
                        ||| '0' <= name[k] && name[k] <= '9'
                    }
            },
        exports(pairs) is Ok ==> sets_variables(exports(pairs)->Ok_0, pairs),
{
    if exports(pairs) is Ok {
        lemma_exports_set(pairs);
    }
    lemma_exports_refuse(pairs);
    assert forall|name: Seq<char>| #[trigger] is_env_name(name) == (name.len() > 0 && !('0'
        <= name[0] && name[0] <= '9') && forall|k: int|
        0 <= k < name.len() ==> {
            ||| #[trigger] name[k] == '_'
            ||| 'a' <= name[k] && name[k] <= 'z'
            ||| 'A' <= name[k] && name[k] <= 'Z'
            ||| '0' <= name[k] && name[k] <= '9'
        }) by {
        if is_env_name(name) {
            assert(begins_name(name[0]));
            assert forall|k: int| 0 <= k < name.len() implies {
                ||| #[trigger] name[k] == '_'
                ||| 'a' <= name[k] && name[k] <= 'z'
                ||| 'A' <= name[k] && name[k] <= 'Z'
                ||| '0' <= name[k] && name[k] <= '9'
            } by {
                if k > 0 {
                    assert(begins_name(name[k]) || ('0' <= name[k] && name[k] <= '9'));
                }
            }
        }
    }
}

proof fn lemma_enters(cwd: Seq<char>)
    ensures
        enters_directory(cd_text(cwd), cwd),
{
    reveal_strlit("~");
    reveal_strlit("~/");
    assert forall|rest: Seq<char>| rest.len() > 0 && cwd == #[trigger] ("~/"@ + rest) implies cd_text(
        cwd,
    ) == "cd -- \"${HOME:-~}\"/"@ + shell_quoted(rest) + " || exit 1"@ by {
        assert("~/"@.is_prefix_of(cwd));
        assert(cwd.skip("~/"@.len() as int) =~= rest);
    }
    if cwd == "~/"@ {
        assert("~/"@.is_prefix_of(cwd));
        assert(cwd.skip("~/"@.len() as int).len() == 0);
        assert(cwd != "~"@);
    }
}

proof fn lemma_remote_side(
    pairs: Seq<(Seq<char>, Seq<char>)>,
    cwd: Option<Seq<char>>,
    main: Seq<char>,
)
    requires
        exports(pairs) is Ok,
    ensures
        remote_side_runs(
            wrapped(setup_parts(exports(pairs)->Ok_0, cwd).push(main)),
            pairs,
            cwd,
            main,
        ),
{
    let list = exports(pairs)->Ok_0;
    let enter = cd_text(cwd->0);
    let parts = setup_parts(list, cwd).push(main);
    lemma_exports_set(pairs);
    lemma_enters(cwd->0);
    law_remote_script_is_one_word(parts);
    assert(wrapped(parts).take("sh -lc "@.len() as int) =~= "sh -lc "@);
    assert(sets_variables(list, pairs));
    assert(enters_directory(enter, cwd->0));
}

/// A script is run on the remote side by the shell that is asked for, or else by the
/// user's own, as a login shell exactly where that was asked for, with the variables
/// and in the directory that were asked for; and the shell reads the script that was
/// given. A blank script is refused.
pub proof fn law_script_runs_as_asked(
    script: Seq<char>,
    cwd: Option<Seq<char>>,
    pairs: Seq<(Seq<char>, Seq<char>)>,
    shell: Option<Seq<char>>,
    login: bool,
)
    ensures
        ({
            let r = remote_exec_text(script, cwd, pairs, shell, login);
            let program = if shell is Some && trimmed(shell->0).len() > 0 {
                shell_quoted(trimmed(shell->0))
            } else {
                "${SHELL:-/bin/sh}"@
            };
            let main = "exec "@ + program + (if login {
                " -l"@
            } else {
                ""@
            }) + " -c "@ + shell_quoted(trimmed(script));
            &&& r is Ok <==> trimmed(script).len() > 0 && exports(pairs) is Ok
            &&& r is Ok ==> remote_side_runs(
                r->Ok_0,
                pairs,
                if cwd is Some && trimmed(cwd->0).len() > 0 {
                    Some(trimmed(cwd->0))
                } else {
                    None
                },
                main,
            )
            &&& super::shell::shell_reads(
                shell_quoted(trimmed(script)),
                super::shell::Quoting::Outside,
            ) == Some(trimmed(script))
        }),
{
    super::shell::law_shell_reads_back_quoted_text(trimmed(script));
    let r = remote_exec_text(script, cwd, pairs, shell, login);
    if r is Ok {
        let main = "exec "@ + match given(shell) {
            Some(s) => shell_quoted(s),
            None => "${SHELL:-/bin/sh}"@,
        } + if login {
            " -l"@
        } else {
            ""@
        } + " -c "@ + shell_quoted(trimmed(script));
        lemma_remote_side(pairs, given(cwd), main);
    }
}

/// What a session runs on the remote side: the command that is asked for with its
/// arguments, each read by the shell as the word it is; or else a shell, as a login
/// shell exactly where that was asked for; with the variables and in the directory
/// that were asked for. Where nothing is asked for, nothing is said.
pub proof fn law_session_runs_as_asked(
    command: Option<Seq<char>>,
    args: Seq<Seq<char>>,
    cwd: Option<Seq<char>>,
    pairs: Seq<(Seq<char>, Seq<char>)>,
    shell: Option<Seq<char>>,
    login: bool,
)
    ensures
        ({
            let r = remote_command_text(command, args, cwd, pairs, shell, login);
            let has_command = command is Some && trimmed(command->0).len() > 0;
            let has_cwd = cwd is Some && trimmed(cwd->0).len() > 0;
            let has_shell = shell is Some && trimmed(shell->0).len() > 0;
            let words = seq![shell_quoted(trimmed(command->0))] + args.map_values(
                |a: Seq<char>| shell_quoted(a),
            );
            let main = if has_command {
                joined(words, " "@)
            } else if has_shell && login {
                "exec "@ + shell_quoted(trimmed(shell->0)) + " -l"@
            } else if has_shell {
                "exec "@ + shell_quoted(trimmed(shell->0))
            } else if login {
                "exec ${SHELL:-/bin/sh} -l"@
            } else {
                "exec ${SHELL:-/bin/sh}"@
            };
            &&& r == Ok::<Option<Seq<char>>, Seq<char>>(None) <==> !has_command && !has_cwd
                && pairs.len() == 0 && !has_shell && !login
            &&& r is Ok <==> exports(pairs) is Ok
            &&& r matches Ok(Some(text)) ==> remote_side_runs(
                text,
                pairs,
                if has_cwd {
                    Some(trimmed(cwd->0))
                } else {
                    None
                },
                main,
            )
        }),
        forall|a: Seq<char>|
            super::shell::shell_reads(
                #[trigger] shell_quoted(a),
                super::shell::Quoting::Outside,
            ) == Some(a),
{
    let r = remote_command_text(command, args, cwd, pairs, shell, login);
    assert forall|a: Seq<char>|
        super::shell::shell_reads(
            #[trigger] shell_quoted(a),
            super::shell::Quoting::Outside,
        ) == Some(a) by {
        super::shell::law_shell_reads_back_quoted_text(a);
    }
    if pairs.len() == 0 {
        lemma_exports_refuse(pairs);
    }
    if r matches Ok(Some(_)) {
        lemma_remote_side(pairs, given(cwd), main_part(given(command), args, given(shell), login));
        if given(shell) is Some && !login {
            let e = "exec "@ + shell_quoted(given(shell)->0);
            reveal_strlit("");
            assert(e + ""@ =~= e);
        }
    }
}

/// The arguments that are shown are those that are used but for the identity file,
/// in whose place stands a mark.
pub proof fn law_shown_arguments_are_the_used_ones(
    plan: SshSessionSpawnPlan,
    ssh: Seq<char>,
    target: TargetText,
    kind: SshAuthKind,
    identity: Option<Seq<char>>,
    verify: bool,
    interactive: bool,
    remote_command: Option<Seq<char>>,
)
    requires
        is_session_plan(
            plan,
            ssh,
            target,
            kind,
            identity,
            verify,
            interactive,
            remote_command,
        ),
    ensures
        plan.command@ == ssh,
        opt_text(plan.remote_command) == remote_command,
        session_is_asked_for(
            texts(plan.args@),
            target,
            kind,
            identity,
            verify,
            interactive,
            remote_command,
        ),
        session_is_asked_for(
            texts(plan.public_args@),
            target,
            kind,
            if identity is Some {
                Some("<redacted>"@)
            } else {
                None
            },
            verify,
            interactive,
            remote_command,
        ),
{
    law_session_goes_where_it_is_asked_to(
        target,
        kind,
        identity,
        verify,
        interactive,
        remote_command,
    );
    law_session_goes_where_it_is_asked_to(
        target,
        kind,
        redacted(identity),
        verify,
        interactive,
        remote_command,
    );
}

/// What a message quotes of a command is its exit code and the beginning of what it
/// printed, at most 512 characters of it.
pub proof fn law_failures_are_quoted(o: CommandOutput)
    ensures
        exit_text(o) == " exit_code="@ + code_debug(o.exit_code) + " stderr_preview="@ + preview(
            utf8_lossy(o.stdout@) + "\n"@ + utf8_lossy(o.stderr@),
        ),
        preview(combined_text(o)).len() <= 512,
        preview(combined_text(o)).is_prefix_of(
            trimmed(utf8_lossy(o.stdout@) + "\n"@ + utf8_lossy(o.stderr@)),
        ),
        o.exit_code is None ==> code_debug(o.exit_code) == "None"@,
        o.exit_code is Some && o.exit_code->0 >= 0 ==> code_debug(o.exit_code) == "Some("@
            + decimal_text(o.exit_code->0 as nat) + ")"@,
{
    let t = trimmed(combined_text(o));
    if t.len() > 512 {
        assert(t.take(512) =~= preview(combined_text(o)));
    }
}

/// The command by which the remote side runs a script: in the shell that is asked for, or
/// else in the user's own, as a login shell exactly where that was asked for.
pub open spec fn runs_in_shell(script: Seq<char>, shell: Option<Seq<char>>, login: bool) -> Seq<
    char,
> {
    "exec "@ + (if shell is Some && trimmed(shell->0).len() > 0 {
        shell_quoted(trimmed(shell->0))
    } else {
        "${SHELL:-/bin/sh}"@
    }) + (if login {
        " -l"@
    } else {
        ""@
    }) + " -c "@ + shell_quoted(trimmed(script))
}

/// Whether a remote command runs the script of a request as it asks.
pub open spec fn runs_script_of(remote: Seq<char>, request: SshExecPlanRequest) -> bool {
    remote_side_runs(
        remote,
        sorted_pairs(map_texts(request.env@)),
        if request.cwd is Some && trimmed(request.cwd->0@).len() > 0 {
            Some(trimmed(request.cwd->0@))
        } else {
            None
        },
        runs_in_shell(
            request.script@,
            if request.shell is Some {
                Some(request.shell->0@)
            } else {
                None
            },
            request.login,
        ),
    )
}

/// A script is planned where `ssh` is known and a file, the script is not blank and the
/// variables can be set; what is planned goes to the target of the request, in its way,
/// and runs its script, in its shell, its directory and its environment.
pub proof fn law_planned_script_is_the_one_asked_for(
    r: Result<SshSessionSpawnPlan, Failure>,
    request: SshExecPlanRequest,
    ssh_is_file: bool,
    interactive: bool,
)
    requires
        request.env.wf(),
        is_exec_plan(r, request, ssh_is_file, interactive),
    ensures
        r is Ok <==> request.ssh_bin_path is Some && ssh_is_file && trimmed(request.script@).len()
            > 0 && exports(sorted_pairs(map_texts(request.env@))) is Ok,
        !(request.ssh_bin_path is Some && ssh_is_file) ==> Some(r->Err_0@) == binary_refusal(
            "ssh"@,
            opt_text(request.ssh_bin_path),
            ssh_is_file,
        ),
        r is Ok ==> {
            let plan = r->Ok_0;
            &&& plan.command@ == request.ssh_bin_path->0@
            &&& plan.remote_command is Some
            &&& session_is_asked_for(
                texts(plan.args@),
                request.target@,
                request.auth_kind,
                if request.identity_path is Some {
                    Some(request.identity_path->0@)
                } else {
                    None
                },
                request.verify_host_key,
                interactive,
                Some(plan.remote_command->0@),
            )
            &&& runs_script_of(plan.remote_command->0@, request)
        },
{
    lemma_env_pairs(request.env);
    law_script_runs_as_asked(
        request.script@,
        opt_text(request.cwd),
        env_pairs(request.env),
        opt_text(request.shell),
        request.login,
    );
    law_missing_programs_are_refused("ssh"@, opt_text(request.ssh_bin_path), ssh_is_file);
    if r is Ok {
        law_session_goes_where_it_is_asked_to(
            request.target@,
            request.auth_kind,
            opt_text(request.identity_path),
            request.verify_host_key,
            interactive,
            opt_text(r->Ok_0.remote_command),
        );
    }
}

/// A script whose output is captured is planned as one in a session is, without a
/// terminal; it may take as long as is asked for, or else twenty seconds, and no more of
/// its output is kept than is asked for.
pub proof fn law_captured_script_is_the_one_asked_for(
    r: Result<CommandPlan, Failure>,
    request: SshExecPlanRequest,
    ssh_is_file: bool,
    timeout_ms: Option<u64>,
    max_output_bytes: Option<usize>,
)
    requires
        request.env.wf(),
        is_capture_plan(r, request, ssh_is_file, timeout_ms, max_output_bytes),
    ensures
        r is Ok <==> request.ssh_bin_path is Some && ssh_is_file && trimmed(request.script@).len()
            > 0 && exports(sorted_pairs(map_texts(request.env@))) is Ok,
        !(request.ssh_bin_path is Some && ssh_is_file) ==> Some(r->Err_0@) == binary_refusal(
            "ssh"@,
            opt_text(request.ssh_bin_path),
            ssh_is_file,
        ),
        r is Ok ==> {
            let plan = r->Ok_0;
            &&& plan.program@ == request.ssh_bin_path->0@
            &&& session_is_asked_for(
                texts(plan.args@),
                request.target@,
                request.auth_kind,
                if request.identity_path is Some {
                    Some(request.identity_path->0@)
                } else {
                    None
                },
                request.verify_host_key,
                false,
                Some(texts(plan.args@).last()),
            )
            &&& runs_script_of(texts(plan.args@).last(), request)
            &&& timeout_ms is Some ==> plan.timeout_ms == timeout_ms->0
            &&& timeout_ms is None ==> plan.timeout_ms == 20_000
            &&& plan.max_output_bytes == max_output_bytes
        },
{
    lemma_env_pairs(request.env);
    let remote = remote_exec_text(
        request.script@,
        opt_text(request.cwd),
        env_pairs(request.env),
        opt_text(request.shell),
        request.login,
    );
    law_script_runs_as_asked(
        request.script@,
        opt_text(request.cwd),
        env_pairs(request.env),
        opt_text(request.shell),
        request.login,
    );
    law_missing_programs_are_refused("ssh"@, opt_text(request.ssh_bin_path), ssh_is_file);
    if r is Ok {
        law_session_goes_where_it_is_asked_to(
            request.target@,
            request.auth_kind,
            opt_text(request.identity_path),
            request.verify_host_key,
            false,
            Some(remote->Ok_0),
        );
        assert(texts(r->Ok_0.args@).last() == remote->Ok_0);
    }
}

/// `diskutil` follows where it is known and is a file: on the mount point, with force
/// where that was asked for.
pub proof fn law_diskutil_follows_where_it_is_known(
    r: Result<UnmountStep, Failure>,
    request: SshUnmountRequest,
    diskutil_is_file: bool,
)
    requires
        is_diskutil_step(r, request, diskutil_is_file),
    ensures
        r is Ok <==> request.diskutil_bin_path is Some && diskutil_is_file,
        r is Ok ==> r->Ok_0 is Diskutil && {
            let p = r->Ok_0->Diskutil_0;
            &&& p.program@ == request.diskutil_bin_path->0@
            &&& texts(p.args@)[0] == "unmount"@
            &&& request.force ==> texts(p.args@).len() == 3 && texts(p.args@)[1] == "force"@
            &&& !request.force ==> texts(p.args@).len() == 2
            &&& texts(p.args@).last() == request.mount.local_path@
        },
{
}

} // verus!
