//! Files and directories on remote hosts.
use super::context::{connection_context, ssh_path, AppContext};
use super::ssh_connections::{is_ready, readiness_refusal, SshService};
use super::ssh_sessions::ssh_is_file;
use super::support::{
    first_marked_size, max_bytes_refusal, parse_file_too_large_marker, path_refusal,
    remote_command_failed, remote_failure_text, validate_remote_max_bytes, validate_remote_path,
    validate_remote_write_size, Manner, MAX_WRITE_BYTES,
};
use super::types::{
    SshDirectoryEntry, SshDirectoryEntryType, SshListDirectoryResult, SshMkdirResult,
    SshReadFileResult, SshWriteFileResult,
};
use crate::config::HostFiles;
use crate::error::Failure;
use crate::ordered::OrderedMap;
use crate::outside::{decode_lossy, decode_strict, utf8_lossy};
use crate::ssh::model::{
    connection_status_name, debug_opt, debug_option, opt_str, SshAuthKind, SshConnectionId,
    SshConnectionStatus, SshConnectionSummary,
};
use crate::ssh::runtime::{
    binary_refusal, capture_ms, env_pairs, is_command, law_script_runs_as_asked,
    law_session_goes_where_it_is_asked_to, remote_exec_text, remote_side_runs, session_args,
    session_is_asked_for, CommandOutput, CommandPlan, SshExecPlanRequest,
};
use crate::ssh::shell::{
    law_shell_reads_back_quoted_text, shell_escape, shell_quoted, shell_reads, Quoting,
};
use crate::text::{
    cat2, cat3, cat4, cat5, cat6, decimal, decimal_text, opt_text, same, split_on, texts, trimmed,
};
use vstd::prelude::*;
use vstd::string::*;
use vstd::utf8::{decode_utf8, encode_utf8, valid_utf8};

verus! {

/// A remote script that is being run for a file operation.
#[derive(Debug, PartialEq, Eq)]
pub struct CaptureRun {
    pub plan: CommandPlan,
    pub manner: Manner,
    pub connection_id: SshConnectionId,
    pub status: SshConnectionStatus,
    pub message: String,
    pub path: Option<String>,
}

/// Names what was to be done with which file over which connection.
pub open spec fn capture_text(
    message: Seq<char>,
    id: Seq<char>,
    status: SshConnectionStatus,
    path: Option<Seq<char>>,
) -> Seq<char> {
    message + ": connection_id="@ + id + " status="@ + connection_status_name(status) + (" path="@
        + debug_opt(path))
}

/// Says that a script could not be run: a service names what it was for, and a
/// direct request gets the failure as it is.
pub open spec fn capture_failure_text(
    manner: Manner,
    message: Seq<char>,
    id: Seq<char>,
    status: SshConnectionStatus,
    path: Option<Seq<char>>,
    error: Seq<char>,
) -> Seq<char> {
    match manner {
        Manner::Service => capture_text(message, id, status, path) + ": "@ + error,
        Manner::Direct => error,
    }
}

/// Why a connection cannot be used for a file operation, if it cannot.
pub open spec fn capture_readiness(
    manner: Manner,
    connections: Map<Seq<char>, SshConnectionSummary>,
    id: Seq<char>,
    message: Seq<char>,
    path: Option<Seq<char>>,
) -> Option<Seq<char>> {
    if manner == Manner::Direct && connections.contains_key(id) && !is_ready(
        connections[id].status,
    ) {
        Some(capture_text(message, id, connections[id].status, path))
    } else {
        readiness_refusal(connections, id, message)
    }
}

fn name_capture(
    message: &str,
    connection_id: &SshConnectionId,
    status: SshConnectionStatus,
    path: Option<&str>,
) -> (r: String)
    ensures
        r@ == capture_text(
            message@,
            connection_id@,
            status,
            match path {
                Some(p) => Some(p@),
                None => None,
            },
        ),
{
    let shown = debug_option(path);
    let head = cat5(message, ": connection_id=", connection_id.as_str(), " status=", status.name());
    let tail = cat2(" path=", shown.as_str());
    cat2(head.as_str(), tail.as_str())
}

fn capture_failure(
    manner: Manner,
    message: &str,
    connection_id: &SshConnectionId,
    status: SshConnectionStatus,
    path: Option<&str>,
    error: Failure,
) -> (r: Failure)
    ensures
        r@ == capture_failure_text(
            manner,
            message@,
            connection_id@,
            status,
            match path {
                Some(p) => Some(p@),
                None => None,
            },
            error@,
        ),
{
    match manner {
        Manner::Service => {
            let head = name_capture(message, connection_id, status, path);
            Failure::new(cat3(head.as_str(), ": ", error.message.as_str()))
        },
        Manner::Direct => error,
    }
}

impl CaptureRun {
    /// What the script left behind, or the failure to run it.
    pub fn outcome(&self, outcome: Result<CommandOutput, Failure>) -> (r: Result<
        CommandOutput,
        Failure,
    >)
        ensures
            match outcome {
                Ok(o) => r == Ok::<CommandOutput, Failure>(o),
                Err(failure) => r matches Err(e) && e@ == capture_failure_text(
                    self.manner,
                    self.message@,
                    self.connection_id@,
                    self.status,
                    opt_text(self.path),
                    failure@,
                ),
            },
    {
        match outcome {
            Ok(o) => Ok(o),
            Err(failure) => Err(
                capture_failure(
                    self.manner,
                    self.message.as_str(),
                    &self.connection_id,
                    self.status,
                    opt_str(&self.path),
                    failure,
                ),
            ),
        }
    }
}

/// The command that runs a script of the application, or why there is none.
pub open spec fn capture_command(script: Seq<char>) -> Result<Seq<char>, Seq<char>> {
    remote_exec_text(script, None, seq![], Some("/bin/sh"@), false)
}

/// Whether a run is the one that runs a script on a connection, or else why there
/// is none.
pub open spec fn capture_planned(
    context: AppContext,
    host: HostFiles,
    manner: Manner,
    id: Seq<char>,
    script: Seq<char>,
    message: Seq<char>,
    path: Option<Seq<char>>,
    r: Result<CaptureRun, Failure>,
) -> bool {
    let c = context.ssh_registry.connections()[id];
    let made = connection_context(context.connection_contexts@, c);
    let ssh = ssh_path(context, host);
    let ready = capture_readiness(
        manner,
        context.ssh_registry.connections(),
        id,
        message,
        path,
    );
    if ready is Some {
        r matches Err(e) && ready == Some(e@)
    } else if ssh is None {
        r matches Err(e) && e@ == "ssh binary path could not be resolved"@
    } else if binary_refusal("ssh"@, ssh, ssh_is_file(context, host)) is Some {
        r matches Err(e) && e@ == capture_failure_text(
            manner,
            message,
            id,
            c.status,
            path,
            binary_refusal("ssh"@, ssh, ssh_is_file(context, host))->0,
        )
    } else {
        match capture_command(script) {
            Err(why) => r matches Err(e) && e@ == capture_failure_text(
                manner,
                message,
                id,
                c.status,
                path,
                why,
            ),
            Ok(command) => {
                &&& r matches Ok(run)
                &&& run.manner == manner
                &&& run.connection_id@ == id
                &&& run.status == c.status
                &&& run.message@ == message
                &&& opt_text(run.path) == path
                &&& is_command(
                    run.plan,
                    ssh->0,
                    session_args(
                        c.target@,
                        made.auth_kind,
                        opt_text(made.identity_path),
                        made.verify_host_key,
                        false,
                        Some(command),
                    ),
                    capture_ms(None),
                    "ssh command timed out"@,
                    "ssh command task failed"@,
                    "failed to execute ssh command"@,
                    None,
                )
            },
        }
    }
}

/// The script that reads a file which is not too large.
pub open spec fn read_script(path: Seq<char>, max_bytes: nat) -> Seq<char> {
    "set -eu\nfile="@ + shell_quoted(path)
        + "\nbytes=$(wc -c < \"$file\" | tr -d '[:space:]')\ncase \"$bytes\" in\n  ''|*[!0-9]*) echo 'failed to determine file size' >&2; exit 1 ;;\nesac\nif [ \"$bytes\" -gt "@
        + decimal_text(max_bytes)
        + " ]; then\n  echo \"__PTY_MCP_FILE_TOO_LARGE__:$bytes\" >&2\n  exit 3\nfi\ncat -- \"$file\""@
}

/// The script that writes a file.
pub open spec fn write_script(
    path: Seq<char>,
    content: Seq<char>,
    append: bool,
    create_parent: bool,
) -> Seq<char> {
    (if create_parent {
        "set -eu\n"@ + "mkdir -p -- \"$(dirname -- "@ + shell_quoted(path) + ")\"\n"@
    } else {
        "set -eu\n"@
    }) + ("printf '%s' "@ + shell_quoted(content) + (if append {
        " >> "@
    } else {
        " > "@
    }) + shell_quoted(path) + "\n"@)
}

/// The script that makes a directory.
pub open spec fn mkdir_script(path: Seq<char>, parents: bool) -> Seq<char> {
    "set -eu\nmkdir "@ + (if parents {
        "-p "@
    } else {
        ""@
    }) + "-- "@ + shell_quoted(path)
}

/// The script that lists a directory.
pub open spec fn list_script(path: Seq<char>, include_hidden: bool) -> Seq<char> {
    "set -eu\ndir="@ + shell_quoted(path)
        + "\nif [ ! -d \"$dir\" ]; then\n  echo 'remote path is not a directory' >&2\n  exit 1\nfi\n"@
        + (if include_hidden {
        "set -- \"$dir\"/.[!.]* \"$dir\"/..?* \"$dir\"/*\n"@
    } else {
        "set -- \"$dir\"/*\n"@
    })
        + "for entry in \"$@\"; do\n  if [ ! -e \"$entry\" ] && [ ! -L \"$entry\" ]; then\n    continue\n  fi\n  name=${entry##*/}\n  kind=other\n  if [ -L \"$entry\" ]; then\n    kind=symlink\n  elif [ -d \"$entry\" ]; then\n    kind=directory\n  elif [ -f \"$entry\" ]; then\n    kind=file\n  fi\n  printf '%s\\0%s\\0%s\\0' \"$kind\" \"$name\" \"$entry\"\ndone\n"@
}

/// Says that a file is too large.
pub open spec fn too_large_text(id: Seq<char>, path: Seq<char>, max_bytes: nat, size: nat) -> Seq<
    char,
> {
    "remote file exceeds max_bytes: connection_id="@ + id + " path="@ + path + " max_bytes="@
        + decimal_text(max_bytes) + (" actual_bytes="@ + decimal_text(size))
}

/// What the outcome of reading a file means.
pub open spec fn read_file_means(
    id: Seq<char>,
    path: Seq<char>,
    max_bytes: usize,
    o: CommandOutput,
    r: Result<SshReadFileResult, Failure>,
) -> bool {
    if !o.success {
        match first_marked_size(split_on(utf8_lossy(o.stderr@), '\n')) {
            Some(size) => r matches Err(e) && e@ == too_large_text(
                id,
                path,
                max_bytes as nat,
                size,
            ),
            None => r matches Err(e) && e@ == remote_failure_text(
                "failed to read remote file"@,
                id,
                Some(path),
                o,
            ),
        }
    } else if valid_utf8(o.stdout@) {
        &&& r matches Ok(done)
        &&& done.connection_id@ == id
        &&& done.path@ == path
        &&& done.content@ == decode_utf8(o.stdout@)
        &&& done.bytes_read == o.stdout@.len()
    } else {
        r matches Err(e) && e@ == "remote file is not valid UTF-8 text: connection_id="@ + id
            + " path="@ + path + " bytes_read="@ + decimal_text(o.stdout@.len())
    }
}

/// The place of the first zero byte, or the length where there is none.
pub open spec fn zero_position(bytes: Seq<u8>) -> nat
    decreases bytes.len(),
{
    if bytes.len() == 0 || bytes[0] == 0 {
        0
    } else {
        1 + zero_position(bytes.drop_first())
    }
}

/// The fields between zero bytes.
pub open spec fn zero_fields(bytes: Seq<u8>) -> Seq<Seq<u8>>
    decreases bytes.len(),
{
    let at = zero_position(bytes) as int;
    if 0 <= at < bytes.len() {
        seq![bytes.take(at)] + zero_fields(bytes.skip(at + 1))
    } else {
        seq![bytes]
    }
}

/// The content of a directory entry.
pub struct EntryText {
    pub name: Seq<char>,
    pub path: Seq<char>,
    pub entry_type: SshDirectoryEntryType,
}

impl SshDirectoryEntry {
    /// What the entry says.
    pub open spec fn view(&self) -> EntryText {
        EntryText { name: self.name@, path: self.path@, entry_type: self.entry_type }
    }
}

/// What directory entries say.
pub open spec fn entry_texts(entries: Seq<SshDirectoryEntry>) -> Seq<EntryText> {
    entries.map_values(|e: SshDirectoryEntry| e@)
}

/// What a kind of entry is called.
pub open spec fn kind_of(name: Seq<char>) -> SshDirectoryEntryType {
    if name == "file"@ {
        SshDirectoryEntryType::File
    } else if name == "directory"@ {
        SshDirectoryEntryType::Directory
    } else if name == "symlink"@ {
        SshDirectoryEntryType::Symlink
    } else {
        SshDirectoryEntryType::Other
    }
}

/// The entries that the first `count` triples of fields stand for, or what is
/// wrong with the first bad field.
pub open spec fn entries_of(fields: Seq<Seq<u8>>, count: nat) -> Result<Seq<EntryText>, Seq<char>>
    decreases count,
{
    if count == 0 {
        Ok(seq![])
    } else {
        match entries_of(fields, (count - 1) as nat) {
            Err(why) => Err(why),
            Ok(list) => {
                let at = 3 * (count - 1);
                if !valid_utf8(fields[at]) {
                    Err("entry type is not utf-8"@)
                } else if !valid_utf8(fields[at + 1]) {
                    Err("entry name is not utf-8"@)
                } else if !valid_utf8(fields[at + 2]) {
                    Err("entry path is not utf-8"@)
                } else {
                    Ok(
                        list.push(
                            EntryText {
                                name: decode_utf8(fields[at + 1]),
                                path: decode_utf8(fields[at + 2]),
                                entry_type: kind_of(decode_utf8(fields[at])),
                            },
                        ),
                    )
                }
            },
        }
    }
}

/// The entries of a listing, or what is wrong with it.
pub open spec fn listed_entries(bytes: Seq<u8>) -> Result<Seq<EntryText>, Seq<char>> {
    let fields = zero_fields(bytes);
    if bytes.len() == 0 {
        Ok(seq![])
    } else if fields.last().len() > 0 {
        Err("directory listing is missing a trailing field separator"@)
    } else if fields.len() % 3 != 1 {
        Err("directory listing field count is invalid"@)
    } else {
        entries_of(fields, ((fields.len() - 1) / 3) as nat)
    }
}

impl SshService {
    /// How a script of the application is run on a connection.
    pub fn run_ssh_capture(
        context: &AppContext,
        host: &HostFiles,
        manner: Manner,
        connection_id: &SshConnectionId,
        script: String,
        message: &str,
        path: Option<&str>,
    ) -> (r: Result<CaptureRun, Failure>)
        requires
            context.wf(),
        ensures
            capture_planned(
                *context,
                *host,
                manner,
                connection_id@,
                script@,
                message@,
                match path {
                    Some(p) => Some(p@),
                    None => None,
                },
                r,
            ),
    {
        let connection = match SshService::require_ready_connection(
            context,
            connection_id,
            message,
        ) {
            Ok(c) => c,
            Err(e) => {
                return match (manner, context.ssh_registry.get_connection(connection_id)) {
                    (Manner::Direct, Some(c)) => Err(
                        Failure::new(name_capture(message, connection_id, c.status, path)),
                    ),
                    _ => Err(e),
                };
            },
        };
        let made = context.runtime_context_for_connection(&connection);
        let ssh_bin = match context.resolve_ssh_bin_path(host) {
            Ok(p) => p,
            Err(e) => {
                return Err(e);
            },
        };
        let is_file = host.is_file(ssh_bin.as_str());
        let env: OrderedMap<String> = OrderedMap::new();
        proof {
            env.lemma_listing();
            assert(env_pairs(env) =~= seq![]);
        }
        let request = SshExecPlanRequest {
            ssh_bin_path: Some(ssh_bin),
            target: connection.target.clone(),
            auth_kind: made.auth_kind,
            identity_path: made.identity_path,
            verify_host_key: made.verify_host_key,
            script,
            cwd: None,
            env,
            shell: Some("/bin/sh".to_owned()),
            login: false,
        };
        match context.ssh_runtime.capture_plan(&request, is_file, None, None) {
            Ok(plan) => Ok(
                CaptureRun {
                    plan,
                    manner,
                    connection_id: connection_id.clone(),
                    status: connection.status,
                    message: message.to_owned(),
                    path: match path {
                        Some(p) => Some(p.to_owned()),
                        None => None,
                    },
                },
            ),
            Err(e) => Err(
                capture_failure(manner, message, connection_id, connection.status, path, e),
            ),
        }
    }

    /// How a remote file is read.
    pub fn read_file(
        context: &AppContext,
        host: &HostFiles,
        connection_id: &SshConnectionId,
        path: &str,
        max_bytes: usize,
    ) -> (r: Result<CaptureRun, Failure>)
        requires
            context.wf(),
        ensures
            if path_refusal(path@, "ssh_read_file path"@) is Some {
                r matches Err(e) && path_refusal(path@, "ssh_read_file path"@) == Some(e@)
            } else if max_bytes_refusal(max_bytes) is Some {
                r matches Err(e) && max_bytes_refusal(max_bytes) == Some(e@)
            } else {
                capture_planned(
                    *context,
                    *host,
                    Manner::Service,
                    connection_id@,
                    read_script(trimmed(path@), max_bytes as nat),
                    "failed to read remote file"@,
                    Some(trimmed(path@)),
                    r,
                )
            },
            r matches Ok(run) ==> reads_remotely(
                *context,
                connection_id@,
                trimmed(path@),
                max_bytes as nat,
                run,
            ),
    {
        SshService::read_file_in(
            context,
            host,
            Manner::Service,
            connection_id,
            path,
            max_bytes,
        )
    }

    /// How a remote file is read, in a manner.
    pub fn read_file_in(
        context: &AppContext,
        host: &HostFiles,
        manner: Manner,
        connection_id: &SshConnectionId,
        path: &str,
        max_bytes: usize,
    ) -> (r: Result<CaptureRun, Failure>)
        requires
            context.wf(),
        ensures
            if path_refusal(path@, "ssh_read_file path"@) is Some {
                r matches Err(e) && path_refusal(path@, "ssh_read_file path"@) == Some(e@)
            } else if max_bytes_refusal(max_bytes) is Some {
                r matches Err(e) && max_bytes_refusal(max_bytes) == Some(e@)
            } else {
                capture_planned(
                    *context,
                    *host,
                    manner,
                    connection_id@,
                    read_script(trimmed(path@), max_bytes as nat),
                    "failed to read remote file"@,
                    Some(trimmed(path@)),
                    r,
                )
            },
            r matches Ok(run) ==> reads_remotely(
                *context,
                connection_id@,
                trimmed(path@),
                max_bytes as nat,
                run,
            ),
    {
        let path = match validate_remote_path(path, "ssh_read_file path") {
            Ok(p) => p,
            Err(e) => {
                return Err(e);
            },
        };
        let max_bytes: usize = match validate_remote_max_bytes(max_bytes) {
            Ok(n) => n,
            Err(e) => {
                return Err(e);
            },
        };
        let quoted = shell_escape(path);
        let n = decimal(max_bytes as u64);
        let script = cat5(
            "set -eu\nfile=",
            quoted.as_str(),
            "\nbytes=$(wc -c < \"$file\" | tr -d '[:space:]')\ncase \"$bytes\" in\n  ''|*[!0-9]*) echo 'failed to determine file size' >&2; exit 1 ;;\nesac\nif [ \"$bytes\" -gt ",
            n.as_str(),
            " ]; then\n  echo \"__PTY_MCP_FILE_TOO_LARGE__:$bytes\" >&2\n  exit 3\nfi\ncat -- \"$file\"",
        );
        let r = SshService::run_ssh_capture(
            context,
            host,
            manner,
            connection_id,
            script,
            "failed to read remote file",
            Some(path),
        );
        proof {
            if r is Ok {
                law_reading_prints_the_file(path@, max_bytes as nat);
                law_script_goes_to_the_connection(
                    *context,
                    *host,
                    manner,
                    connection_id@,
                    read_script(path@, max_bytes as nat),
                    "failed to read remote file"@,
                    Some(path@),
                    r->Ok_0,
                );
            }
        }
        r
    }

    /// What reading a remote file gave. The path is trimmed.
    pub fn read_file_result(
        connection_id: &SshConnectionId,
        path: &str,
        max_bytes: usize,
        output: CommandOutput,
    ) -> (r: Result<SshReadFileResult, Failure>)
        ensures
            read_file_means(connection_id@, path@, max_bytes, output, r),
    {
        if !output.success {
            let stderr = decode_lossy(output.stderr.as_slice());
            match parse_file_too_large_marker(stderr.as_str()) {
                Some(size) => {
                    let max = decimal(max_bytes as u64);
                    let actual = decimal(size as u64);
                    let head = cat6(
                        "remote file exceeds max_bytes: connection_id=",
                        connection_id.as_str(),
                        " path=",
                        path,
                        " max_bytes=",
                        max.as_str(),
                    );
                    let tail = cat2(" actual_bytes=", actual.as_str());
                    return Err(Failure::new(cat2(head.as_str(), tail.as_str())));
                },
                None => {
                    return Err(
                        remote_command_failed(
                            "failed to read remote file",
                            connection_id,
                            Some(path),
                            &output,
                        ),
                    );
                },
            }
        }
        let bytes_read: usize = output.stdout.len();
        match decode_strict(output.stdout.as_slice()) {
            Some(content) => Ok(
                SshReadFileResult {
                    connection_id: connection_id.clone(),
                    path: path.to_owned(),
                    content,
                    bytes_read,
                },
            ),
            None => {
                let n = decimal(bytes_read as u64);
                Err(
                    Failure::new(
                        cat6(
                            "remote file is not valid UTF-8 text: connection_id=",
                            connection_id.as_str(),
                            " path=",
                            path,
                            " bytes_read=",
                            n.as_str(),
                        ),
                    ),
                )
            },
        }
    }

    /// How a remote file is written.
    pub fn write_file(
        context: &AppContext,
        host: &HostFiles,
        connection_id: &SshConnectionId,
        path: &str,
        content: &str,
        append: bool,
        create_parent: bool,
    ) -> (r: Result<CaptureRun, Failure>)
        requires
            context.wf(),
        ensures
            if path_refusal(path@, "ssh_write_file path"@) is Some {
                r matches Err(e) && path_refusal(path@, "ssh_write_file path"@) == Some(e@)
            } else if encode_utf8(content@).len() > MAX_WRITE_BYTES {
                r matches Err(e) && e@ == "ssh_write_file content must be at most 262144 bytes"@
            } else {
                capture_planned(
                    *context,
                    *host,
                    Manner::Service,
                    connection_id@,
                    write_script(trimmed(path@), content@, append, create_parent),
                    "failed to write remote file"@,
                    Some(trimmed(path@)),
                    r,
                )
            },
            r matches Ok(run) ==> writes_remotely(
                *context,
                connection_id@,
                trimmed(path@),
                content@,
                append,
                create_parent,
                run,
            ),
    {
        SshService::write_file_in(
            context,
            host,
            Manner::Service,
            connection_id,
            path,
            content,
            append,
            create_parent,
        )
    }

    /// How a remote file is written, in a manner.
    pub fn write_file_in(
        context: &AppContext,
        host: &HostFiles,
        manner: Manner,
        connection_id: &SshConnectionId,
        path: &str,
        content: &str,
        append: bool,
        create_parent: bool,
    ) -> (r: Result<CaptureRun, Failure>)
        requires
            context.wf(),
        ensures
            if path_refusal(path@, "ssh_write_file path"@) is Some {
                r matches Err(e) && path_refusal(path@, "ssh_write_file path"@) == Some(e@)
            } else if encode_utf8(content@).len() > MAX_WRITE_BYTES {
                r matches Err(e) && e@ == "ssh_write_file content must be at most 262144 bytes"@
            } else {
                capture_planned(
                    *context,
                    *host,
                    manner,
                    connection_id@,
                    write_script(trimmed(path@), content@, append, create_parent),
                    "failed to write remote file"@,
                    Some(trimmed(path@)),
                    r,
                )
            },
            r matches Ok(run) ==> writes_remotely(
                *context,
                connection_id@,
                trimmed(path@),
                content@,
                append,
                create_parent,
                run,
            ),
    {
        let path = match validate_remote_path(path, "ssh_write_file path") {
            Ok(p) => p,
            Err(e) => {
                return Err(e);
            },
        };
        match validate_remote_write_size(content) {
            Ok(_) => {},
            Err(e) => {
                return Err(e);
            },
        }
        let quoted_path = shell_escape(path);
        let quoted_content = shell_escape(content);
        let head = if create_parent {
            cat4("set -eu\n", "mkdir -p -- \"$(dirname -- ", quoted_path.as_str(), ")\"\n")
        } else {
            "set -eu\n".to_owned()
        };
        let tail = cat5(
            "printf '%s' ",
            quoted_content.as_str(),
            if append {
                " >> "
            } else {
                " > "
            },
            quoted_path.as_str(),
            "\n",
        );
        let script = cat2(head.as_str(), tail.as_str());
        let r = SshService::run_ssh_capture(
            context,
            host,
            manner,
            connection_id,
            script,
            "failed to write remote file",
            Some(path),
        );
        proof {
            if r is Ok {
                law_writing_leaves_the_content(path@, content@, append, create_parent);
                law_script_goes_to_the_connection(
                    *context,
                    *host,
                    manner,
                    connection_id@,
                    write_script(path@, content@, append, create_parent),
                    "failed to write remote file"@,
                    Some(path@),
                    r->Ok_0,
                );
            }
        }
        r
    }

    /// What writing a remote file gave. The path is trimmed.
    pub fn write_file_result(
        connection_id: &SshConnectionId,
        path: &str,
        content: &str,
        append: bool,
        output: &CommandOutput,
    ) -> (r: Result<SshWriteFileResult, Failure>)
        ensures
            match r {
                Ok(done) => {
                    &&& output.success
                    &&& done.connection_id@ == connection_id@
                    &&& done.path@ == path@
                    &&& done.bytes_written == encode_utf8(content@).len()
                    &&& done.append == append
                },
                Err(e) => !output.success && e@ == remote_failure_text(
                    "failed to write remote file"@,
                    connection_id@,
                    Some(path@),
                    *output,
                ),
            },
    {
        if !output.success {
            return Err(
                remote_command_failed(
                    "failed to write remote file",
                    connection_id,
                    Some(path),
                    output,
                ),
            );
        }
        let bytes = content.as_bytes();
        Ok(
            SshWriteFileResult {
                connection_id: connection_id.clone(),
                path: path.to_owned(),
                bytes_written: bytes.len(),
                append,
            },
        )
    }

    /// How a remote directory is listed.
    pub fn list_directory(
        context: &AppContext,
        host: &HostFiles,
        connection_id: &SshConnectionId,
        path: &str,
        include_hidden: bool,
    ) -> (r: Result<CaptureRun, Failure>)
        requires
            context.wf(),
        ensures
            if path_refusal(path@, "ssh_list_dir path"@) is Some {
                r matches Err(e) && path_refusal(path@, "ssh_list_dir path"@) == Some(e@)
            } else {
                capture_planned(
                    *context,
                    *host,
                    Manner::Service,
                    connection_id@,
                    list_script(trimmed(path@), include_hidden),
                    "failed to list remote directory"@,
                    Some(trimmed(path@)),
                    r,
                )
            },
            r matches Ok(run) ==> lists_remotely(
                *context,
                connection_id@,
                trimmed(path@),
                include_hidden,
                run,
            ),
    {
        SshService::list_directory_in(
            context,
            host,
            Manner::Service,
            connection_id,
            path,
            include_hidden,
        )
    }

    /// How a remote directory is listed, in a manner.
    pub fn list_directory_in(
        context: &AppContext,
        host: &HostFiles,
        manner: Manner,
        connection_id: &SshConnectionId,
        path: &str,
        include_hidden: bool,
    ) -> (r: Result<CaptureRun, Failure>)
        requires
            context.wf(),
        ensures
            if path_refusal(path@, "ssh_list_dir path"@) is Some {
                r matches Err(e) && path_refusal(path@, "ssh_list_dir path"@) == Some(e@)
            } else {
                capture_planned(
                    *context,
                    *host,
                    manner,
                    connection_id@,
                    list_script(trimmed(path@), include_hidden),
                    "failed to list remote directory"@,
                    Some(trimmed(path@)),
                    r,
                )
            },
            r matches Ok(run) ==> lists_remotely(
                *context,
                connection_id@,
                trimmed(path@),
                include_hidden,
                run,
            ),
    {
        let path = match validate_remote_path(path, "ssh_list_dir path") {
            Ok(p) => p,
            Err(e) => {
                return Err(e);
            },
        };
        let script = build_list_directory_script(path, include_hidden);
        let r = SshService::run_ssh_capture(
            context,
            host,
            manner,
            connection_id,
            script,
            "failed to list remote directory",
            Some(path),
        );
        proof {
            if r is Ok {
                law_listing_shows_what_is_asked(path@, include_hidden);
                law_script_goes_to_the_connection(
                    *context,
                    *host,
                    manner,
                    connection_id@,
                    list_script(path@, include_hidden),
                    "failed to list remote directory"@,
                    Some(path@),
                    r->Ok_0,
                );
            }
        }
        r
    }

    /// What listing a remote directory gave. The path is trimmed.
    pub fn list_directory_result(
        connection_id: &SshConnectionId,
        path: &str,
        output: &CommandOutput,
    ) -> (r: Result<SshListDirectoryResult, Failure>)
        ensures
            if !output.success {
                r matches Err(e) && e@ == remote_failure_text(
                    "failed to list remote directory"@,
                    connection_id@,
                    Some(path@),
                    *output,
                )
            } else {
                match listed_entries(output.stdout@) {
                    Ok(entries) => {
                        &&& r matches Ok(done)
                        &&& done.connection_id@ == connection_id@
                        &&& done.path@ == path@
                        &&& entry_texts(done.entries@) == entries
                    },
                    Err(why) => r matches Err(e) && e@
                        == "failed to parse remote directory listing: connection_id="@
                        + connection_id@ + " path="@ + path@ + " reason="@ + why,
                }
            },
    {
        if !output.success {
            return Err(
                remote_command_failed(
                    "failed to list remote directory",
                    connection_id,
                    Some(path),
                    output,
                ),
            );
        }
        match parse_directory_entries(output.stdout.as_slice()) {
            Ok(entries) => Ok(
                SshListDirectoryResult {
                    connection_id: connection_id.clone(),
                    path: path.to_owned(),
                    entries,
                },
            ),
            Err(reason) => Err(
                Failure::new(
                    cat6(
                        "failed to parse remote directory listing: connection_id=",
                        connection_id.as_str(),
                        " path=",
                        path,
                        " reason=",
                        reason,
                    ),
                ),
            ),
        }
    }

    /// How a remote directory is made.
    pub fn mkdir(
        context: &AppContext,
        host: &HostFiles,
        connection_id: &SshConnectionId,
        path: &str,
        parents: bool,
    ) -> (r: Result<CaptureRun, Failure>)
        requires
            context.wf(),
        ensures
            if path_refusal(path@, "ssh_mkdir path"@) is Some {
                r matches Err(e) && path_refusal(path@, "ssh_mkdir path"@) == Some(e@)
            } else {
                capture_planned(
                    *context,
                    *host,
                    Manner::Service,
                    connection_id@,
                    mkdir_script(trimmed(path@), parents),
                    "failed to create remote directory"@,
                    Some(trimmed(path@)),
                    r,
                )
            },
            r matches Ok(run) ==> makes_directory_remotely(
                *context,
                connection_id@,
                trimmed(path@),
                parents,
                run,
            ),
    {
        SshService::mkdir_in(
            context,
            host,
            Manner::Service,
            connection_id,
            path,
            parents,
        )
    }

    /// How a remote directory is made, in a manner.
    pub fn mkdir_in(
        context: &AppContext,
        host: &HostFiles,
        manner: Manner,
        connection_id: &SshConnectionId,
        path: &str,
        parents: bool,
    ) -> (r: Result<CaptureRun, Failure>)
        requires
            context.wf(),
        ensures
            if path_refusal(path@, "ssh_mkdir path"@) is Some {
                r matches Err(e) && path_refusal(path@, "ssh_mkdir path"@) == Some(e@)
            } else {
                capture_planned(
                    *context,
                    *host,
                    manner,
                    connection_id@,
                    mkdir_script(trimmed(path@), parents),
                    "failed to create remote directory"@,
                    Some(trimmed(path@)),
                    r,
                )
            },
            r matches Ok(run) ==> makes_directory_remotely(
                *context,
                connection_id@,
                trimmed(path@),
                parents,
                run,
            ),
    {
        let path = match validate_remote_path(path, "ssh_mkdir path") {
            Ok(p) => p,
            Err(e) => {
                return Err(e);
            },
        };
        let quoted = shell_escape(path);
        let script = cat4(
            "set -eu\nmkdir ",
            if parents {
                "-p "
            } else {
                ""
            },
            "-- ",
            quoted.as_str(),
        );
        let r = SshService::run_ssh_capture(
            context,
            host,
            manner,
            connection_id,
            script,
            "failed to create remote directory",
            Some(path),
        );
        proof {
            if r is Ok {
                law_directories_are_made_as_asked(path@, parents);
                law_script_goes_to_the_connection(
                    *context,
                    *host,
                    manner,
                    connection_id@,
                    mkdir_script(path@, parents),
                    "failed to create remote directory"@,
                    Some(path@),
                    r->Ok_0,
                );
            }
        }
        r
    }

    /// What making a remote directory gave. The path is trimmed.
    pub fn mkdir_result(
        connection_id: &SshConnectionId,
        path: &str,
        parents: bool,
        output: &CommandOutput,
    ) -> (r: Result<SshMkdirResult, Failure>)
        ensures
            match r {
                Ok(done) => {
                    &&& output.success
                    &&& done.connection_id@ == connection_id@
                    &&& done.path@ == path@
                    &&& done.parents == parents
                },
                Err(e) => !output.success && e@ == remote_failure_text(
                    "failed to create remote directory"@,
                    connection_id@,
                    Some(path@),
                    *output,
                ),
            },
    {
        if !output.success {
            return Err(
                remote_command_failed(
                    "failed to create remote directory",
                    connection_id,
                    Some(path),
                    output,
                ),
            );
        }
        Ok(
            SshMkdirResult {
                connection_id: connection_id.clone(),
                path: path.to_owned(),
                parents,
            },
        )
    }
}

/// The script that lists a directory.
pub fn build_list_directory_script(path: &str, include_hidden: bool) -> (r: String)
    ensures
        r@ == list_script(path@, include_hidden),
{
    let quoted = shell_escape(path);
    cat5(
        "set -eu\ndir=",
        quoted.as_str(),
        "\nif [ ! -d \"$dir\" ]; then\n  echo 'remote path is not a directory' >&2\n  exit 1\nfi\n",
        if include_hidden {
            "set -- \"$dir\"/.[!.]* \"$dir\"/..?* \"$dir\"/*\n"
        } else {
            "set -- \"$dir\"/*\n"
        },
        "for entry in \"$@\"; do\n  if [ ! -e \"$entry\" ] && [ ! -L \"$entry\" ]; then\n    continue\n  fi\n  name=${entry##*/}\n  kind=other\n  if [ -L \"$entry\" ]; then\n    kind=symlink\n  elif [ -d \"$entry\" ]; then\n    kind=directory\n  elif [ -f \"$entry\" ]; then\n    kind=file\n  fi\n  printf '%s\\0%s\\0%s\\0' \"$kind\" \"$name\" \"$entry\"\ndone\n",
    )
}

/// The contents of byte vectors.
pub open spec fn byte_texts(v: Seq<Vec<u8>>) -> Seq<Seq<u8>> {
    v.map_values(|b: Vec<u8>| b@)
}

proof fn lemma_zero_position(bytes: Seq<u8>, i: int)
    requires
        0 <= i <= bytes.len(),
        forall|k: int| 0 <= k < i ==> #[trigger] bytes[k] != 0,
        i < bytes.len() ==> bytes[i] == 0,
    ensures
        zero_position(bytes) == i,
    decreases bytes.len(),
{
    if i > 0 {
        assert(bytes[0] != 0);
        let t = bytes.drop_first();
        assert forall|k: int| 0 <= k < i - 1 implies #[trigger] t[k] != 0 by {
            assert(t[k] == bytes[k + 1]);
        }
        lemma_zero_position(t, i - 1);
    }
}

fn split_at_zeros(bytes: &[u8]) -> (r: Vec<Vec<u8>>)
    ensures
        byte_texts(r@) == zero_fields(bytes@),
{
    let n: usize = bytes.len();
    let mut r: Vec<Vec<u8>> = Vec::new();
    let mut current: Vec<u8> = Vec::new();
    let ghost mut start: int = 0;
    let mut i: usize = 0;
    proof {
        assert(bytes@.skip(0) =~= bytes@);
        assert(byte_texts(r@) + zero_fields(bytes@) =~= zero_fields(bytes@));
    }
    while i < n
        invariant
            0 <= start <= i <= n == bytes@.len(),
            current@ == bytes@.subrange(start, i as int),
            forall|k: int| start <= k < i ==> #[trigger] bytes@[k] != 0,
            byte_texts(r@) + zero_fields(bytes@.skip(start)) == zero_fields(bytes@),
        decreases n - i,
    {
        if bytes[i] == 0 {
            let ghost rest = bytes@.skip(start);
            let ghost before = r@;
            proof {
                assert forall|k: int| 0 <= k < i - start implies #[trigger] rest[k] != 0 by {
                    assert(rest[k] == bytes@[k + start]);
                }
                lemma_zero_position(rest, i - start);
                assert(rest.take(i - start) =~= current@);
                assert(rest.skip(i - start + 1) =~= bytes@.skip(i + 1));
            }
            let ghost piece = current@;
            r.push(current);
            current = Vec::new();
            proof {
                start = i + 1;
                assert(byte_texts(r@) =~= byte_texts(before).push(piece));
                assert(byte_texts(r@) + zero_fields(bytes@.skip(start)) =~= byte_texts(before) + (
                seq![piece] + zero_fields(bytes@.skip(start))));
                assert(current@ =~= bytes@.subrange(start, i + 1));
            }
        } else {
            current.push(bytes[i]);
            assert(current@ =~= bytes@.subrange(start, i + 1));
        }
        i = i + 1;
    }
    let ghost rest = bytes@.skip(start);
    let ghost before = r@;
    let ghost piece = current@;
    proof {
        assert forall|k: int| 0 <= k < n - start implies #[trigger] rest[k] != 0 by {
            assert(rest[k] == bytes@[k + start]);
        }
        lemma_zero_position(rest, n - start);
        assert(piece =~= rest);
    }
    r.push(current);
    assert(byte_texts(r@) =~= byte_texts(before) + seq![piece]);
    r
}

proof fn lemma_entries_stop(fields: Seq<Seq<u8>>, i: nat, count: nat)
    requires
        i <= count,
    ensures
        entries_of(fields, i) is Err ==> entries_of(fields, count) == entries_of(fields, i),
    decreases count,
{
    if i < count {
        lemma_entries_stop(fields, i, (count - 1) as nat);
    }
}

/// The entries of a listing.
pub fn parse_directory_entries(bytes: &[u8]) -> (r: Result<Vec<SshDirectoryEntry>, &'static str>)
    ensures
        match r {
            Ok(entries) => listed_entries(bytes@) == Ok::<Seq<EntryText>, Seq<char>>(
                entry_texts(entries@),
            ),
            Err(why) => listed_entries(bytes@) == Err::<Seq<EntryText>, Seq<char>>(why@),
        },
{
    let mut entries: Vec<SshDirectoryEntry> = Vec::new();
    assert(entry_texts(entries@) =~= seq![]);
    if bytes.len() == 0 {
        return Ok(entries);
    }
    let fields = split_at_zeros(bytes);
    let n: usize = fields.len();
    let ghost all = zero_fields(bytes@);
    proof {
        lemma_fields_nonempty(bytes@);
        assert(byte_texts(fields@).len() == fields@.len());
        assert(byte_texts(fields@).last() == fields@[n - 1]@);
    }
    if fields[n - 1].len() > 0 {
        return Err("directory listing is missing a trailing field separator");
    }
    if n % 3 != 1 {
        return Err("directory listing field count is invalid");
    }
    let count: usize = (n - 1) / 3;
    let mut i: usize = 0;
    while i < count
        invariant
            i <= count,
            n == fields@.len(),
            3 * count + 1 == n,
            all == byte_texts(fields@),
            listed_entries(bytes@) == entries_of(all, count as nat),
            entries_of(all, i as nat) == Ok::<Seq<EntryText>, Seq<char>>(entry_texts(entries@)),
        decreases count - i,
    {
        let at: usize = 3 * i;
        let ghost before = entries@;
        proof {
            lemma_entries_stop(all, (i + 1) as nat, count as nat);
            assert(all[at as int] == fields@[at as int]@);
            assert(all[at + 1] == fields@[at + 1]@);
            assert(all[at + 2] == fields@[at + 2]@);
        }
        let kind = match decode_strict(fields[at].as_slice()) {
            Some(s) => s,
            None => {
                return Err("entry type is not utf-8");
            },
        };
        let name = match decode_strict(fields[at + 1].as_slice()) {
            Some(s) => s,
            None => {
                return Err("entry name is not utf-8");
            },
        };
        let path = match decode_strict(fields[at + 2].as_slice()) {
            Some(s) => s,
            None => {
                return Err("entry path is not utf-8");
            },
        };
        let entry = SshDirectoryEntry {
            name,
            path,
            entry_type: if same(kind.as_str(), "file") {
                SshDirectoryEntryType::File
            } else if same(kind.as_str(), "directory") {
                SshDirectoryEntryType::Directory
            } else if same(kind.as_str(), "symlink") {
                SshDirectoryEntryType::Symlink
            } else {
                SshDirectoryEntryType::Other
            },
        };
        entries.push(entry);
        assert(entry_texts(entries@) =~= entry_texts(before).push(entry@));
        i = i + 1;
    }
    Ok(entries)
}

proof fn lemma_fields_nonempty(bytes: Seq<u8>)
    ensures
        zero_fields(bytes).len() > 0,
{
}

/// A file that the remote side hands back byte for byte is read as the text it
/// holds.
pub proof fn law_file_content_reads_back(
    content: Seq<char>,
    id: Seq<char>,
    path: Seq<char>,
    max_bytes: usize,
    o: CommandOutput,
    r: Result<SshReadFileResult, Failure>,
)
    requires
        read_file_means(id, path, max_bytes, o, r),
        o.success,
        o.stdout@ == encode_utf8(content),
    ensures
        r is Ok,
        r->Ok_0.content@ == content,
        r->Ok_0.bytes_read == encode_utf8(content).len(),
{
    vstd::utf8::encode_utf8_valid_utf8(content);
    vstd::utf8::encode_utf8_decode_utf8(content);
}

/// How the remote side writes one entry: its kind, its name and its path, each
/// ended by a zero byte.
pub open spec fn written_entry(e: EntryText) -> Seq<u8> {
    encode_utf8(kind_name(e.entry_type)).push(0u8) + (encode_utf8(e.name).push(0u8) + encode_utf8(
        e.path,
    ).push(0u8))
}

/// How the remote side calls a kind of entry.
pub open spec fn kind_name(kind: SshDirectoryEntryType) -> Seq<char> {
    match kind {
        SshDirectoryEntryType::File => "file"@,
        SshDirectoryEntryType::Directory => "directory"@,
        SshDirectoryEntryType::Symlink => "symlink"@,
        SshDirectoryEntryType::Other => "other"@,
    }
}

/// How the remote side writes a listing.
pub open spec fn written_listing(entries: Seq<EntryText>) -> Seq<u8>
    decreases entries.len(),
{
    if entries.len() == 0 {
        seq![]
    } else {
        written_entry(entries[0]) + written_listing(entries.drop_first())
    }
}

/// The fields of a listing.
pub open spec fn entry_fields(entries: Seq<EntryText>) -> Seq<Seq<u8>>
    decreases entries.len(),
{
    if entries.len() == 0 {
        seq![Seq::<u8>::empty()]
    } else {
        seq![
            encode_utf8(kind_name(entries[0].entry_type)),
            encode_utf8(entries[0].name),
            encode_utf8(entries[0].path),
        ] + entry_fields(entries.drop_first())
    }
}

/// Whether the name and the path of an entry hold no zero byte.
pub open spec fn is_plain_entry(e: EntryText) -> bool {
    &&& !encode_utf8(e.name).contains(0u8)
    &&& !encode_utf8(e.path).contains(0u8)
}

proof fn lemma_first_field(field: Seq<u8>, rest: Seq<u8>)
    requires
        !field.contains(0u8),
    ensures
        zero_fields(field.push(0u8) + rest) == seq![field] + zero_fields(rest),
{
    let all = field.push(0u8) + rest;
    assert forall|k: int| 0 <= k < field.len() implies #[trigger] all[k] != 0 by {
        assert(all[k] == field[k]);
        assert(field.contains(field[k]));
    }
    lemma_zero_position(all, field.len() as int);
    assert(all.take(field.len() as int) =~= field);
    assert(all.skip(field.len() as int + 1) =~= rest);
}

proof fn lemma_listing_fields(entries: Seq<EntryText>)
    requires
        forall|i: int| 0 <= i < entries.len() ==> is_plain_entry(#[trigger] entries[i]),
    ensures
        zero_fields(written_listing(entries)) == entry_fields(entries),
        entry_fields(entries).len() == 3 * entries.len() + 1,
        entry_fields(entries).last() == Seq::<u8>::empty(),
    decreases entries.len(),
{
    if entries.len() == 0 {
        lemma_zero_position(Seq::<u8>::empty(), 0);
        assert(zero_fields(written_listing(entries)) =~= entry_fields(entries));
    } else {
        let e = entries[0];
        let rest = entries.drop_first();
        assert(is_plain_entry(entries[0]));
        assert forall|i: int| 0 <= i < rest.len() implies is_plain_entry(#[trigger] rest[i]) by {
            assert(rest[i] == entries[i + 1]);
        }
        lemma_listing_fields(rest);
        let kind = encode_utf8(kind_name(e.entry_type));
        let name = encode_utf8(e.name);
        let path = encode_utf8(e.path);
        let tail = written_listing(rest);
        lemma_kind_has_no_zero(e.entry_type);
        lemma_first_field(path, tail);
        lemma_first_field(name, path.push(0u8) + tail);
        lemma_first_field(kind, name.push(0u8) + (path.push(0u8) + tail));
        assert(written_listing(entries) =~= kind.push(0u8) + (name.push(0u8) + (path.push(0u8)
            + tail)));
        assert(zero_fields(written_listing(entries)) =~= entry_fields(entries));
    }
}

proof fn lemma_field_at(entries: Seq<EntryText>, i: int)
    requires
        0 <= i < entries.len(),
    ensures
        entry_fields(entries).len() >= 3 * i + 3,
        entry_fields(entries)[3 * i] == encode_utf8(kind_name(entries[i].entry_type)),
        entry_fields(entries)[3 * i + 1] == encode_utf8(entries[i].name),
        entry_fields(entries)[3 * i + 2] == encode_utf8(entries[i].path),
    decreases entries.len(),
{
    if i > 0 {
        let rest = entries.drop_first();
        lemma_field_at(rest, i - 1);
        let all = entry_fields(entries);
        let tail = entry_fields(rest);
        assert(all[3 * i] == tail[3 * (i - 1)]);
        assert(all[3 * i + 1] == tail[3 * (i - 1) + 1]);
        assert(all[3 * i + 2] == tail[3 * (i - 1) + 2]);
    }
}

proof fn lemma_entries_come_back(entries: Seq<EntryText>, count: nat)
    requires
        count <= entries.len(),
    ensures
        entries_of(entry_fields(entries), count) == Ok::<Seq<EntryText>, Seq<char>>(
            entries.take(count as int),
        ),
    decreases count,
{
    if count == 0 {
        assert(entries.take(0) =~= seq![]);
    } else {
        let i = count - 1;
        lemma_entries_come_back(entries, i as nat);
        lemma_field_at(entries, i);
        let e = entries[i];
        vstd::utf8::encode_utf8_valid_utf8(kind_name(e.entry_type));
        vstd::utf8::encode_utf8_valid_utf8(e.name);
        vstd::utf8::encode_utf8_valid_utf8(e.path);
        vstd::utf8::encode_utf8_decode_utf8(kind_name(e.entry_type));
        vstd::utf8::encode_utf8_decode_utf8(e.name);
        vstd::utf8::encode_utf8_decode_utf8(e.path);
        lemma_kind_comes_back(e.entry_type);
        assert(entries.take(count as int) =~= entries.take(i).push(e));
    }
}

proof fn lemma_kind_comes_back(kind: SshDirectoryEntryType)
    ensures
        kind_of(kind_name(kind)) == kind,
{
    reveal_strlit("file");
    reveal_strlit("directory");
    reveal_strlit("symlink");
    reveal_strlit("other");
    assert("file"@.len() == 4);
    assert("directory"@.len() == 9);
    assert("symlink"@.len() == 7);
    assert("other"@.len() == 5);
}

/// The names of kinds are written without a zero byte.
proof fn lemma_kind_has_no_zero(kind: SshDirectoryEntryType)
    ensures
        !encode_utf8(kind_name(kind)).contains(0u8),
{
    reveal_strlit("file");
    reveal_strlit("directory");
    reveal_strlit("symlink");
    reveal_strlit("other");
    let name = kind_name(kind);
    assert(vstd::utf8::is_ascii_chars(name));
    vstd::utf8::is_ascii_chars_encode_utf8(name);
    let bytes = encode_utf8(name);
    assert forall|i: int| 0 <= i < bytes.len() implies bytes[i] != 0u8 by {
        assert(bytes[i] == name[i] as u8);
        assert(name[i] != '\0');
    }
}

/// What the remote side lists is read back entry by entry.
pub proof fn law_listing_reads_back(entries: Seq<EntryText>)
    requires
        forall|i: int| 0 <= i < entries.len() ==> is_plain_entry(#[trigger] entries[i]),
    ensures
        listed_entries(written_listing(entries)) == Ok::<Seq<EntryText>, Seq<char>>(entries),
{
    let bytes = written_listing(entries);
    lemma_listing_fields(entries);
    lemma_entries_come_back(entries, entries.len());
    assert(entries.take(entries.len() as int) =~= entries);
    if entries.len() == 0 {
        assert(entries =~= seq![]);
    } else {
        assert(bytes.len() > 0);
        assert((entry_fields(entries).len() - 1) / 3 == entries.len());
    }
}

/// Whether a word is read by a shell as a text.
pub open spec fn stands_for(word: Seq<char>, text: Seq<char>) -> bool {
    shell_reads(word, Quoting::Outside) == Some(text)
}

/// What a redirection leaves in a file that held a text, where another text is printed
/// into it: `>>` puts it behind what was there, and `>` in its place.
pub open spec fn file_after(redirection: Seq<char>, held: Seq<char>, printed: Seq<char>) -> Seq<char> {
    if redirection == " >> "@ {
        held + printed
    } else {
        printed
    }
}

/// Whether a script ends by printing a text, byte for byte, into a file, with which
/// redirection, and begins in some way.
pub open spec fn prints_into(
    script: Seq<char>,
    head: Seq<char>,
    word: Seq<char>,
    redirection: Seq<char>,
    file: Seq<char>,
) -> bool {
    &&& script == head + ("printf '%s' "@ + word + redirection + file + "\n"@)
    &&& redirection == " > "@ || redirection == " >> "@
}

/// Whether a script writes a text into a file of the remote side: behind what the file
/// holds, or in its place; the directory of the file is made before that exactly where
/// that is asked for.
pub open spec fn writes_file(
    script: Seq<char>,
    path: Seq<char>,
    content: Seq<char>,
    append: bool,
    create_parent: bool,
) -> bool {
    exists|head: Seq<char>, word: Seq<char>, redirection: Seq<char>, file: Seq<char>| #[trigger]
        prints_into(script, head, word, redirection, file) && {
            &&& stands_for(word, content)
            &&& stands_for(file, path)
            &&& forall|held: Seq<char>| #[trigger]
                file_after(redirection, held, content) == if append {
                    held + content
                } else {
                    content
                }
            &&& !create_parent ==> head == "set -eu\n"@
            &&& create_parent ==> head == "set -eu\n"@ + "mkdir -p -- \"$(dirname -- "@ + file
                + ")\"\n"@
        }
}

/// Whether a script prints a file of the remote side, or says that it is too large
/// where it has more bytes than may be read.
pub open spec fn reads_file(script: Seq<char>, path: Seq<char>, max_bytes: nat) -> bool {
    exists|word: Seq<char>| #[trigger] stands_for(word, path) && script == "set -eu\nfile="@ + word
        + "\nbytes=$(wc -c < \"$file\" | tr -d '[:space:]')\ncase \"$bytes\" in\n  ''|*[!0-9]*) echo 'failed to determine file size' >&2; exit 1 ;;\nesac\nif [ \"$bytes\" -gt "@
        + decimal_text(max_bytes)
        + " ]; then\n  echo \"__PTY_MCP_FILE_TOO_LARGE__:$bytes\" >&2\n  exit 3\nfi\ncat -- \"$file\""@
}

/// Whether a script makes a directory on the remote side: with those above it exactly
/// where that is asked for.
pub open spec fn makes_directory(script: Seq<char>, path: Seq<char>, parents: bool) -> bool {
    exists|word: Seq<char>| #[trigger] stands_for(word, path) && {
        &&& parents ==> script == "set -eu\nmkdir -p -- "@ + word
        &&& !parents ==> script == "set -eu\nmkdir -- "@ + word
    }
}

/// Whether a script lists a directory of the remote side: the names that begin with a
/// dot are among those it goes through exactly where that is asked for.
pub open spec fn lists_directory(script: Seq<char>, path: Seq<char>, include_hidden: bool) -> bool {
    let each = "for entry in \"$@\"; do\n  if [ ! -e \"$entry\" ] && [ ! -L \"$entry\" ]; then\n    continue\n  fi\n  name=${entry##*/}\n  kind=other\n  if [ -L \"$entry\" ]; then\n    kind=symlink\n  elif [ -d \"$entry\" ]; then\n    kind=directory\n  elif [ -f \"$entry\" ]; then\n    kind=file\n  fi\n  printf '%s\\0%s\\0%s\\0' \"$kind\" \"$name\" \"$entry\"\ndone\n"@;
    exists|word: Seq<char>| #[trigger] stands_for(word, path) && {
        let head = "set -eu\ndir="@ + word
            + "\nif [ ! -d \"$dir\" ]; then\n  echo 'remote path is not a directory' >&2\n  exit 1\nfi\n"@;
        &&& include_hidden ==> script == head
            + "set -- \"$dir\"/.[!.]* \"$dir\"/..?* \"$dir\"/*\n"@ + each
        &&& !include_hidden ==> script == head + "set -- \"$dir\"/*\n"@ + each
    }
}

/// Writing leaves the content behind what the file holds exactly where that is asked
/// for, and in its place otherwise.
pub proof fn law_writing_leaves_the_content(
    path: Seq<char>,
    content: Seq<char>,
    append: bool,
    create_parent: bool,
)
    ensures
        writes_file(
            write_script(path, content, append, create_parent),
            path,
            content,
            append,
            create_parent,
        ),
{
    law_shell_reads_back_quoted_text(path);
    law_shell_reads_back_quoted_text(content);
    reveal_strlit(" >> ");
    reveal_strlit(" > ");
    let redirection = if append {
        " >> "@
    } else {
        " > "@
    };
    assert(" >> "@.len() == 4 && " > "@.len() == 3);
    let head = if create_parent {
        "set -eu\n"@ + "mkdir -p -- \"$(dirname -- "@ + shell_quoted(path) + ")\"\n"@
    } else {
        "set -eu\n"@
    };
    assert(prints_into(
        write_script(path, content, append, create_parent),
        head,
        shell_quoted(content),
        redirection,
        shell_quoted(path),
    ));
}

/// Reading prints the file that is named, or says how large it is where it is larger
/// than the limit.
pub proof fn law_reading_prints_the_file(path: Seq<char>, max_bytes: nat)
    ensures
        reads_file(read_script(path, max_bytes), path, max_bytes),
{
    law_shell_reads_back_quoted_text(path);
    assert(stands_for(shell_quoted(path), path));
}

/// A directory is made with those above it exactly where that is asked for.
pub proof fn law_directories_are_made_as_asked(path: Seq<char>, parents: bool)
    ensures
        makes_directory(mkdir_script(path, parents), path, parents),
{
    law_shell_reads_back_quoted_text(path);
    assert(stands_for(shell_quoted(path), path));
    reveal_strlit("");
    reveal_strlit("-p ");
    reveal_strlit("-- ");
    reveal_strlit("set -eu\nmkdir ");
    reveal_strlit("set -eu\nmkdir -p -- ");
    reveal_strlit("set -eu\nmkdir -- ");
    assert("set -eu\nmkdir "@ + "-p "@ + "-- "@ =~= "set -eu\nmkdir -p -- "@);
    assert("set -eu\nmkdir "@ + ""@ + "-- "@ =~= "set -eu\nmkdir -- "@);
}

/// A directory is listed with its hidden names exactly where that is asked for.
pub proof fn law_listing_shows_what_is_asked(path: Seq<char>, include_hidden: bool)
    ensures
        lists_directory(list_script(path, include_hidden), path, include_hidden),
{
    law_shell_reads_back_quoted_text(path);
    assert(stands_for(shell_quoted(path), path));
}

/// Whether a run hands a script to `/bin/sh` on the remote side of a connection, to
/// its target and in the way that it was made.
pub open spec fn script_is_run(
    context: AppContext,
    id: Seq<char>,
    script: Seq<char>,
    run: CaptureRun,
) -> bool {
    let c = context.ssh_registry.connections()[id];
    let known = context.connection_contexts@;
    let made = known[c.connection_id@];
    let remembered = known.contains_key(c.connection_id@);
    &&& context.ssh_registry.connections().contains_key(id)
    &&& c.status == SshConnectionStatus::Ready || c.status == SshConnectionStatus::Degraded
    &&& run.connection_id@ == id
    &&& exists|command: Seq<char>|
        {
            &&& #[trigger] remote_side_runs(
                command,
                seq![],
                None,
                "exec "@ + shell_quoted("/bin/sh"@) + ""@ + " -c "@ + shell_quoted(trimmed(script)),
            )
            &&& session_is_asked_for(
                texts(run.plan.args@),
                c.target@,
                if remembered {
                    made.auth_kind
                } else if c.auth_kind is Some {
                    c.auth_kind->0
                } else {
                    SshAuthKind::SshAgent
                },
                if remembered {
                    opt_text(made.identity_path)
                } else {
                    None
                },
                remembered ==> made.verify_host_key,
                false,
                Some(command),
            )
        }
}

/// A script of the application is run by `/bin/sh` on the remote side of the connection
/// that is named.
pub proof fn law_script_goes_to_the_connection(
    context: AppContext,
    host: HostFiles,
    manner: Manner,
    id: Seq<char>,
    script: Seq<char>,
    message: Seq<char>,
    path: Option<Seq<char>>,
    run: CaptureRun,
)
    requires
        capture_planned(context, host, manner, id, script, message, path, Ok(run)),
    ensures
        script_is_run(context, id, script, run),
        run.plan.timeout_ms == 20_000,
        shell_reads(shell_quoted(trimmed(script)), Quoting::Outside) == Some(trimmed(script)),
{
    let c = context.ssh_registry.connections()[id];
    let made = connection_context(context.connection_contexts@, c);
    let command = capture_command(script)->Ok_0;
    law_script_runs_as_asked(script, None, seq![], Some("/bin/sh"@), false);
    reveal_strlit("/bin/sh");
    assert(trimmed("/bin/sh"@) =~= "/bin/sh"@);
    law_session_goes_where_it_is_asked_to(
        c.target@,
        made.auth_kind,
        opt_text(made.identity_path),
        made.verify_host_key,
        false,
        Some(command),
    );
    assert(remote_side_runs(
        command,
        seq![],
        None,
        "exec "@ + shell_quoted("/bin/sh"@) + ""@ + " -c "@ + shell_quoted(trimmed(script)),
    ));
}

/// Whether a run writes a file of a connection.
pub open spec fn writes_remotely(
    context: AppContext,
    id: Seq<char>,
    path: Seq<char>,
    content: Seq<char>,
    append: bool,
    create_parent: bool,
    run: CaptureRun,
) -> bool {
    exists|script: Seq<char>| #[trigger]
        script_is_run(context, id, script, run) && writes_file(
            script,
            path,
            content,
            append,
            create_parent,
        )
}

/// Whether a run reads a file of a connection.
pub open spec fn reads_remotely(
    context: AppContext,
    id: Seq<char>,
    path: Seq<char>,
    max_bytes: nat,
    run: CaptureRun,
) -> bool {
    exists|script: Seq<char>| #[trigger]
        script_is_run(context, id, script, run) && reads_file(script, path, max_bytes)
}

/// Whether a run lists a directory of a connection.
pub open spec fn lists_remotely(
    context: AppContext,
    id: Seq<char>,
    path: Seq<char>,
    include_hidden: bool,
    run: CaptureRun,
) -> bool {
    exists|script: Seq<char>| #[trigger]
        script_is_run(context, id, script, run) && lists_directory(script, path, include_hidden)
}

/// Whether a run makes a directory of a connection.
pub open spec fn makes_directory_remotely(
    context: AppContext,
    id: Seq<char>,
    path: Seq<char>,
    parents: bool,
    run: CaptureRun,
) -> bool {
    exists|script: Seq<char>| #[trigger]
        script_is_run(context, id, script, run) && makes_directory(script, path, parents)
}

/// The names of kinds mean the kinds, and any other name means neither a file, nor a
/// directory, nor a link.
pub proof fn law_kinds_have_names(name: Seq<char>)
    ensures
        kind_of(name) == SshDirectoryEntryType::File <==> name == "file"@,
        kind_of(name) == SshDirectoryEntryType::Directory <==> name == "directory"@,
        kind_of(name) == SshDirectoryEntryType::Symlink <==> name == "symlink"@,
{
    lemma_kind_comes_back(SshDirectoryEntryType::File);
    lemma_kind_comes_back(SshDirectoryEntryType::Directory);
    lemma_kind_comes_back(SshDirectoryEntryType::Symlink);
}

/// A file is read exactly where the command succeeded and printed valid UTF-8, and it
/// then holds the bytes that were printed.
pub proof fn law_read_file_is_what_was_printed(
    id: Seq<char>,
    path: Seq<char>,
    max_bytes: usize,
    o: CommandOutput,
    r: Result<SshReadFileResult, Failure>,
)
    requires
        read_file_means(id, path, max_bytes, o, r),
    ensures
        r is Ok <==> o.success && valid_utf8(o.stdout@),
        r matches Ok(done) ==> {
            &&& encode_utf8(done.content@) == o.stdout@
            &&& done.bytes_read == o.stdout@.len()
            &&& done.path@ == path
            &&& done.connection_id@ == id
        },
{
    if r is Ok {
        vstd::utf8::decode_utf8_encode_utf8(o.stdout@);
    }
}

/// A connection is refused for a file operation exactly where it is not known or is
/// neither ready nor degraded.
pub proof fn law_files_need_a_ready_connection(
    manner: Manner,
    connections: Map<Seq<char>, SshConnectionSummary>,
    id: Seq<char>,
    message: Seq<char>,
    path: Option<Seq<char>>,
)
    ensures
        capture_readiness(manner, connections, id, message, path) is None
            <==> connections.contains_key(id) && (connections[id].status
            == SshConnectionStatus::Ready || connections[id].status
            == SshConnectionStatus::Degraded),
{
}

/// What runs here for a script of the application is its `ssh`, which has been found.
pub proof fn law_scripts_run_ssh(
    context: AppContext,
    host: HostFiles,
    manner: Manner,
    id: Seq<char>,
    script: Seq<char>,
    message: Seq<char>,
    path: Option<Seq<char>>,
    r: Result<CaptureRun, Failure>,
)
    requires
        capture_planned(context, host, manner, id, script, message, path, r),
    ensures
        r is Ok ==> {
            &&& ssh_path(context, host) is Some
            &&& ssh_is_file(context, host)
            &&& r->Ok_0.plan.program@ == ssh_path(context, host)->0
            &&& r->Ok_0.manner == manner
            &&& r->Ok_0.connection_id@ == id
            &&& r->Ok_0.status == context.ssh_registry.connections()[id].status
            &&& r->Ok_0.message@ == message
            &&& opt_text(r->Ok_0.path) == path
        },
        capture_readiness(
            manner,
            context.ssh_registry.connections(),
            id,
            message,
            path,
        ) is None && ssh_path(context, host) is Some && ssh_is_file(context, host) && trimmed(
            script,
        ).len() > 0 ==> r is Ok,
{
    law_script_runs_as_asked(script, None, seq![], Some("/bin/sh"@), false);
}

} // verus!
