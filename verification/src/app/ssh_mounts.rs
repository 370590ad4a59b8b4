//! Mounting remote directories on this host.
use super::context::{
    brings_in_mount, brings_nothing_in, connection_context, directory_not_removed_text,
    is_used_as_made, law_connection_is_used_as_it_was_made, mount_context, AppContext,
    SshMountRuntimeContext,
};
use super::ssh_connections::{
    can_mount, law_mounts_need_their_programs, law_only_ready_connections_are_used,
    lemma_use_changes_compose, lemma_used_is_use_changed, only_use_changed, readiness_refusal,
    SshService,
};
use super::ssh_files::{
    capture_failure_text, capture_planned, law_script_goes_to_the_connection, script_is_run,
    CaptureRun,
};
use super::support::{
    describe_in, described_in, law_remote_paths, path_refusal, remote_command_failed, remote_failure_text,
    validate_remote_path, Manner,
};
use super::types::{SshMountRequest, SshUnmountRequest, SshUnmountResult};
use crate::config::{is_known_file, located, HostFiles, Program};
use crate::error::Failure;
use crate::outside::{debug_quoted, decode_strict, is_new_id, quote_debug};
use crate::ssh::guard::{is_managed, mount_refusal, SshMountValidationInput};
use crate::ssh::model::{
    capability_debug, SshAuthKind, SshCapabilityView, SshConnectionStatus, SshConnectionSummary,
    SshMountBackend, SshMountId, SshMountStatus, SshMountSummary,
};
use crate::ssh::runtime::{
    binary_refusal, diskutil_helps, exit_text, is_command, is_diskutil_plan, is_umount_plan,
    law_mount_is_read_only_where_asked, law_unmounting_names_the_mount_point, mount_args,
    mount_is_asked_for, unavailable_text, unmount_failure_text, CommandOutput, CommandPlan,
    SshMountPlanRequest, UnmountStep, DEFAULT_MOUNT_TIMEOUT_MS,
};
use crate::ssh::runtime;
use crate::text::{
    cat2, cat3, cat4, clone_opt, is_blank, lemma_trimmed_twice, opt_text, same, starts_with,
    strip_prefix, texts, trim, trimmed,
};
use crate::timestamp::Timestamp;
use vstd::prelude::*;
use vstd::utf8::{decode_utf8, valid_utf8};

verus! {

/// The form of a remote path that is to be mounted.
#[derive(Debug, Clone, Copy, PartialEq, Eq)]
pub enum ParsedRemoteMountPath<'a> {
    Absolute(&'a str),
    Home,
    HomeRelative(&'a str),
}

/// The content of such a form.
pub enum MountPathText {
    Absolute(Seq<char>),
    Home,
    HomeRelative(Seq<char>),
}

impl<'a> ParsedRemoteMountPath<'a> {
    /// The content of the form.
    pub open spec fn view(&self) -> MountPathText {
        match *self {
            ParsedRemoteMountPath::Absolute(p) => MountPathText::Absolute(p@),
            ParsedRemoteMountPath::Home => MountPathText::Home,
            ParsedRemoteMountPath::HomeRelative(p) => MountPathText::HomeRelative(p@),
        }
    }
}

/// The form of a remote path that is to be mounted, or why it has none.
pub open spec fn mount_path_form(remote_path: Seq<char>) -> Result<MountPathText, Seq<char>> {
    let t = trimmed(remote_path);
    if path_refusal(remote_path, "ssh_mount remote_path"@) is Some {
        Err(path_refusal(remote_path, "ssh_mount remote_path"@)->0)
    } else if "/"@.is_prefix_of(t) {
        Ok(MountPathText::Absolute(t))
    } else if t == "~"@ {
        Ok(MountPathText::Home)
    } else if "~/"@.is_prefix_of(t) {
        Ok(MountPathText::HomeRelative(t.skip("~/"@.len() as int)))
    } else if "~"@.is_prefix_of(t) {
        Err(
            "ssh_mount remote_path only supports ~ or ~/..., not user-relative paths: remote_path="@
                + t,
        )
    } else {
        Err(
            "ssh_mount remote_path must be an absolute path or home-relative path: remote_path="@
                + t,
        )
    }
}

/// The form of a remote path that is to be mounted.
pub fn parse_mount_remote_path(remote_path: &str) -> (r: Result<ParsedRemoteMountPath<'_>, Failure>)
    ensures
        match r {
            Ok(p) => mount_path_form(remote_path@) == Ok::<MountPathText, Seq<char>>(p@),
            Err(e) => mount_path_form(remote_path@) == Err::<MountPathText, Seq<char>>(e@),
        },
{
    let remote_path = match validate_remote_path(remote_path, "ssh_mount remote_path") {
        Ok(p) => p,
        Err(e) => {
            return Err(e);
        },
    };
    if starts_with(remote_path, "/") {
        return Ok(ParsedRemoteMountPath::Absolute(remote_path));
    }
    if same(remote_path, "~") {
        return Ok(ParsedRemoteMountPath::Home);
    }
    match strip_prefix(remote_path, "~/") {
        Some(rest) => {
            return Ok(ParsedRemoteMountPath::HomeRelative(rest));
        },
        None => {},
    }
    if starts_with(remote_path, "~") {
        return Err(
            Failure::new(
                cat2(
                    "ssh_mount remote_path only supports ~ or ~/..., not user-relative paths: remote_path=",
                    remote_path,
                ),
            ),
        );
    }
    Err(
        Failure::new(
            cat2(
                "ssh_mount remote_path must be an absolute path or home-relative path: remote_path=",
                remote_path,
            ),
        ),
    )
}

/// A path below the remote home directory.
pub open spec fn below_home(home: Seq<char>, rest: Seq<char>) -> Seq<char> {
    if rest.len() == 0 {
        home
    } else if home == "/"@ {
        "/"@ + rest
    } else {
        home + "/"@ + rest
    }
}

/// A path below the remote home directory.
pub fn join_home_relative_remote_path(home: &str, rest: &str) -> (r: String)
    ensures
        r@ == below_home(home@, rest@),
{
    if rest.is_empty() {
        return home.to_owned();
    }
    if same(home, "/") {
        return cat2("/", rest);
    }
    cat3(home, "/", rest)
}

/// What a form of a path stands for where the remote home directory is known.
pub open spec fn mount_source(form: MountPathText, home: Seq<char>) -> Seq<char> {
    match form {
        MountPathText::Absolute(p) => p,
        MountPathText::Home => home,
        MountPathText::HomeRelative(rest) => below_home(home, rest),
    }
}

/// The script that tells the remote home directory.
pub open spec fn home_script() -> Seq<char> {
    "set -eu\nprintf '%s' \"${HOME:?}\""@
}

/// What is said where the remote home directory is not found.
pub open spec fn home_message() -> Seq<char> {
    "failed to resolve remote home for ssh_mount"@
}

/// The remote home directory, or why it is not known.
pub open spec fn remote_home(id: Seq<char>, o: CommandOutput) -> Result<Seq<char>, Seq<char>> {
    if !o.success {
        Err(remote_failure_text(home_message(), id, None, o))
    } else if !valid_utf8(o.stdout@) {
        Err(
            "failed to resolve remote home for ssh_mount: connection_id="@ + id
                + " remote HOME is not valid UTF-8"@,
        )
    } else {
        let home = trimmed(decode_utf8(o.stdout@));
        if home.len() == 0 || !"/"@.is_prefix_of(home) {
            Err(
                "failed to resolve remote home for ssh_mount: connection_id="@ + id
                    + " remote_home="@ + debug_quoted(home),
            )
        } else {
            Ok(home)
        }
    }
}

/// A mount whose remote path is not known yet.
#[derive(Debug, PartialEq, Eq)]
pub struct MountRun {
    pub request: SshMountRequest,
    pub manner: Manner,
    pub connection: SshConnectionSummary,
    pub local_path: String,
}

/// A mount that was checked.
#[derive(Debug, PartialEq, Eq)]
pub struct MountReady {
    pub request: SshMountRequest,
    pub manner: Manner,
    pub connection: SshConnectionSummary,
    pub local_path: String,
    pub remote_path: String,
    pub is_managed_path: bool,
}

/// A mount that is being made.
#[derive(Debug, PartialEq, Eq)]
pub struct MountingRun {
    pub plan: CommandPlan,
    pub request: SshMountPlanRequest,
}

/// What making a mount asks for next.
#[derive(Debug, PartialEq, Eq)]
pub enum MountStep {
    /// Run the script that tells the remote home directory, then report with
    /// `mount_home_known`.
    AskHome { capture: CaptureRun, run: MountRun },
    /// Make sure of the local directory, then go on with `mount_start`.
    Directory(MountReady),
}

/// Says that mounts cannot be made.
pub open spec fn no_mount_text(c: SshCapabilityView) -> Seq<char> {
    "ssh mount capability is unavailable on this host: capabilities="@ + capability_debug(c)
}

/// Whether a checked mount is the one that is asked for, or else why it is refused.
pub open spec fn mount_checked(
    context: AppContext,
    request: SshMountRequest,
    manner: Manner,
    connection: SshConnectionSummary,
    local_path: Seq<char>,
    remote_path: Seq<char>,
    r: Result<MountReady, Failure>,
) -> bool {
    let refusal = mount_refusal(
        context.ssh_guard@,
        context.ssh_config@,
        local_path,
        remote_path,
    );
    match r {
        Err(e) => refusal == Some(e@),
        Ok(ready) => {
            &&& refusal is None
            &&& ready.request == request
            &&& ready.manner == manner
            &&& ready.connection == connection
            &&& ready.local_path@ == local_path
            &&& ready.remote_path@ == trimmed(remote_path)
            &&& ready.is_managed_path == is_managed(context.ssh_config@, local_path)
        },
    }
}

/// What the first step of making a mount does. A service takes a remote path that is
/// absolute or starts at the remote home directory; a direct request has its path
/// checked as it is.
pub open spec fn mount_begun(
    context: AppContext,
    request: SshMountRequest,
    manner: Manner,
    host: HostFiles,
    r: Result<MountStep, Failure>,
) -> bool {
    let id = request.connection_id@;
    let ready = readiness_refusal(context.ssh_registry.connections(), id, "mounting"@);
    let connection = context.ssh_registry.connections()[id];
    if ready is Some {
        r matches Err(e) && ready == Some(e@)
    } else if !can_mount(context.ssh_capabilities) {
        r matches Err(e) && e@ == no_mount_text(context.ssh_capabilities)
    } else if is_blank(request.local_path@) {
        r matches Err(e) && e@ == "ssh mount local_path cannot be empty"@
    } else if manner == Manner::Direct {
        match r {
            Err(e) => mount_checked(
                context,
                request,
                manner,
                connection,
                trimmed(request.local_path@),
                request.remote_path@,
                Err(e),
            ),
            Ok(MountStep::Directory(ready)) => mount_checked(
                context,
                request,
                manner,
                connection,
                trimmed(request.local_path@),
                request.remote_path@,
                Ok(ready),
            ),
            Ok(_) => false,
        }
    } else {
        match mount_path_form(request.remote_path@) {
            Err(why) => r matches Err(e) && e@ == why,
            Ok(MountPathText::Absolute(path)) => match r {
                Err(e) => mount_checked(
                    context,
                    request,
                    manner,
                    connection,
                    trimmed(request.local_path@),
                    path,
                    Err(e),
                ),
                Ok(MountStep::Directory(ready)) => mount_checked(
                    context,
                    request,
                    manner,
                    connection,
                    trimmed(request.local_path@),
                    path,
                    Ok(ready),
                ),
                Ok(_) => false,
            },
            Ok(_) => match r {
                Err(e) => capture_planned(
                    context,
                    host,
                    Manner::Service,
                    id,
                    home_script(),
                    home_message(),
                    None,
                    Err(e),
                ),
                Ok(MountStep::AskHome { capture, run }) => {
                    &&& capture_planned(
                        context,
                        host,
                        Manner::Service,
                        id,
                        home_script(),
                        home_message(),
                        None,
                        Ok(capture),
                    )
                    &&& run.request == request
                    &&& run.manner == manner
                    &&& run.connection == connection
                    &&& run.local_path@ == trimmed(request.local_path@)
                },
                Ok(_) => false,
            },
        }
    }
}

/// Whether a mount was put in the registry and, beside the use of its connection and
/// how directories came to be, nothing else has changed.
pub open spec fn mount_recorded(before: AppContext, after: AppContext, m: SshMountSummary) -> bool {
    &&& after == (AppContext {
        ssh_registry: after.ssh_registry,
        mount_contexts: after.mount_contexts,
        ..before
    })
    &&& after.ssh_registry.tunnels() == before.ssh_registry.tunnels()
    &&& after.ssh_registry.links() == before.ssh_registry.links()
    &&& after.ssh_registry.mounts() == before.ssh_registry.mounts().insert(m.mount_id@, m)
    &&& only_use_changed(
        before.ssh_registry.connections(),
        set![m.connection_id@],
        after.ssh_registry.connections(),
    )
}

/// Whether a summary is that of a mount that is being made, under a new identifier.
pub open spec fn is_new_mount(m: SshMountSummary, ready: MountReady) -> bool {
    &&& is_new_id("sshmnt_"@, m.mount_id@)
    &&& begins_mount(m, ready)
}

/// Whether a summary is that of a mount that is being made.
pub open spec fn begins_mount(m: SshMountSummary, ready: MountReady) -> bool {
    &&& m == (SshMountSummary {
        mount_id: m.mount_id,
        title: ready.request.title,
        description: m.description,
        connection_id: ready.connection.connection_id,
        target_summary: ready.connection.target_summary,
        status: SshMountStatus::Mounting,
        backend: match ready.request.backend {
            Some(b) => b,
            None => SshMountBackend::Sshfs,
        },
        local_path: m.local_path,
        remote_path: m.remote_path,
        read_only: ready.request.read_only,
        mounted_at: m.mounted_at,
        last_error: None,
    })
    &&& m.local_path@ == ready.local_path@
    &&& m.remote_path@ == ready.remote_path@
    &&& opt_text(m.description) == Some(
        described_in(
            ready.manner,
            opt_text(ready.request.description),
            "SSH mount: "@ + ready.remote_path@ + " -> "@ + ready.local_path@,
        ),
    )
}

/// A mount that did not come about, or did not go.
pub open spec fn is_failed_mount(m: SshMountSummary, of: SshMountSummary, why: Seq<char>) -> bool {
    &&& m == (SshMountSummary {
        status: SshMountStatus::Failed,
        last_error: m.last_error,
        ..of
    })
    &&& opt_text(m.last_error) == Some(why)
}

/// A mount that is there.
pub open spec fn mounted_now(m: SshMountSummary) -> SshMountSummary {
    SshMountSummary { status: SshMountStatus::Mounted, last_error: None, ..m }
}

/// A mount that is gone.
pub open spec fn unmounted_now(m: SshMountSummary) -> SshMountSummary {
    SshMountSummary { status: SshMountStatus::Unmounted, last_error: None, ..m }
}

/// Whether a mount was recorded as failed, for the reason that is given.
pub open spec fn mount_failed(
    before: AppContext,
    after: AppContext,
    of: SshMountSummary,
    e: Failure,
) -> bool {
    &&& mount_recorded(before, after, after.ssh_registry.mounts()[of.mount_id@])
    &&& is_failed_mount(after.ssh_registry.mounts()[of.mount_id@], of, e@)
    &&& after.mount_contexts == before.mount_contexts
}

/// What starting to mount does: the mount is recorded, and how its directory came
/// to be is remembered; where the program is missing, the mount is recorded as
/// failed.
pub open spec fn mount_started(
    before: AppContext,
    ready: MountReady,
    created: bool,
    host: HostFiles,
    r: Result<MountingRun, Failure>,
    after: AppContext,
) -> bool {
    let sshfs = located(before.ssh_config@.sshfs_bin_path, Program::Sshfs, host);
    let is_file = sshfs is Some && is_known_file(host, sshfs->0);
    let made = connection_context(before.connection_contexts@, ready.connection);
    match binary_refusal("sshfs"@, sshfs, is_file) {
        Some(why) => {
            &&& r matches Err(e)
            &&& e@ == why
            &&& exists|m: SshMountSummary|
                {
                    &&& #[trigger] is_new_mount(m, ready)
                    &&& mount_recorded(
                        before,
                        after,
                        after.ssh_registry.mounts()[m.mount_id@],
                    )
                    &&& is_failed_mount(after.ssh_registry.mounts()[m.mount_id@], m, why)
                    &&& after.mount_contexts@ == before.mount_contexts@.insert(
                        m.mount_id@,
                        SshMountRuntimeContext {
                            managed_path: ready.is_managed_path,
                            created_local_path: created,
                        },
                    )
                }
        },
        None => {
            &&& r matches Ok(run)
            &&& is_new_mount(run.request.mount, ready)
            &&& run.request.connection == ready.connection
            &&& run.request.auth_kind == made.auth_kind
            &&& run.request.identity_path == made.identity_path
            &&& run.request.verify_host_key == made.verify_host_key
            &&& opt_text(run.request.sshfs_bin_path) == sshfs
            &&& mount_recorded(before, after, run.request.mount)
            &&& after.mount_contexts@ == before.mount_contexts@.insert(
                run.request.mount.mount_id@,
                SshMountRuntimeContext {
                    managed_path: ready.is_managed_path,
                    created_local_path: created,
                },
            )
            &&& is_command(
                run.plan,
                sshfs->0,
                mount_args(
                    ready.request.read_only,
                    made.verify_host_key,
                    ready.connection.target@,
                    opt_text(made.identity_path),
                    made.auth_kind,
                    ready.remote_path@,
                    ready.local_path@,
                ),
                DEFAULT_MOUNT_TIMEOUT_MS,
                "ssh mount command timed out"@,
                "ssh mount task failed"@,
                "failed to execute ssh mount command"@,
                None,
            )
        },
    }
}

/// Says that a mount could not be made.
pub open spec fn mount_failure_text(
    m: SshMountSummary,
    c: SshConnectionSummary,
    o: CommandOutput,
) -> Seq<char> {
    "ssh mount failed: mount_id="@ + m.mount_id@ + " target="@ + c.target_summary@ + (
    " remote_path="@ + m.remote_path@ + " local_path="@ + m.local_path@ + exit_text(o))
}

/// What making a mount does once the program has run, or could not.
pub open spec fn mount_finishes(
    before: AppContext,
    run: MountingRun,
    outcome: Result<CommandOutput, Failure>,
    r: Result<SshMountSummary, Failure>,
    after: AppContext,
) -> bool {
    let m = run.request.mount;
    match outcome {
        Err(failure) => {
            &&& r == Err::<SshMountSummary, Failure>(failure)
            &&& mount_failed(before, after, m, failure)
        },
        Ok(o) => if o.success {
            &&& r == Ok::<SshMountSummary, Failure>(mounted_now(m))
            &&& mount_recorded(before, after, mounted_now(m))
            &&& after.mount_contexts == before.mount_contexts
        } else {
            &&& r matches Err(e)
            &&& e@ == mount_failure_text(m, run.request.connection, o)
            &&& mount_failed(before, after, m, e)
        },
    }
}

/// A mount that is being taken away.
#[derive(Debug, PartialEq, Eq)]
pub struct UnmountRun {
    /// The mount as it was before.
    pub mount: SshMountSummary,
    pub request: runtime::SshUnmountRequest,
    pub cleanup_local_path: bool,
    pub context: SshMountRuntimeContext,
}

/// What taking a mount away asks for next.
#[derive(Debug, PartialEq, Eq)]
pub enum UnmountProgress {
    /// Run `umount`, then report with `umount_ran`.
    Umount { plan: CommandPlan, run: UnmountRun },
    /// Run `diskutil`, then report with `diskutil_ran`.
    Diskutil { plan: CommandPlan, run: UnmountRun },
    /// Remove the directory of the mount, then report with `directory_removed`.
    RemoveDirectory { run: UnmountRun },
    /// The mount is gone.
    Done(SshUnmountResult),
}

/// Says that there is no such mount.
pub open spec fn mount_not_found_text(id: Seq<char>) -> Seq<char> {
    "ssh mount not found: mount_id="@ + id
}

/// Whether this is a macOS host.
pub open spec fn on_macos(context: AppContext) -> bool {
    context.ssh_capabilities.platform@ == "macos"@
}

/// What a run asks `umount` and `diskutil`.
pub open spec fn unmounting(run: UnmountRun) -> bool {
    run.request.mount == (SshMountSummary { status: SshMountStatus::Unmounting, ..run.mount })
}

/// Whether taking a mount away ended well: its directory is left where nothing
/// else is asked for or allowed, or else is to be removed.
pub open spec fn unmounted_well(
    before: AppContext,
    run: UnmountRun,
    r: Result<UnmountProgress, Failure>,
    after: AppContext,
) -> bool {
    if run.cleanup_local_path && run.context.managed_path && run.context.created_local_path {
        &&& r == Ok::<UnmountProgress, Failure>(UnmountProgress::RemoveDirectory { run })
        &&& after == before
    } else {
        unmount_done(before, run, false, r, after)
    }
}

/// Whether a mount is gone and recorded as gone.
pub open spec fn unmount_done(
    before: AppContext,
    run: UnmountRun,
    cleaned: bool,
    r: Result<UnmountProgress, Failure>,
    after: AppContext,
) -> bool {
    &&& r matches Ok(UnmountProgress::Done(done))
    &&& done.mount == unmounted_now(run.mount)
    &&& done.previous_status == run.mount.status
    &&& done.cleanup_local_path == cleaned
    &&& mount_recorded(before, after, unmounted_now(run.mount))
    &&& after.mount_contexts == before.mount_contexts
}

/// Whether the attempt has failed and the mount is recorded as failed.
pub open spec fn unmount_failed(
    before: AppContext,
    run: UnmountRun,
    why: Seq<char>,
    r: Result<UnmountProgress, Failure>,
    after: AppContext,
) -> bool {
    &&& r matches Err(e)
    &&& e@ == why
    &&& mount_failed(before, after, run.mount, e)
}

/// Whether taking a mount away failed because its directory could not be removed:
/// the answer names the cause, which the record of the mount leaves out.
pub open spec fn directory_stays(
    before: AppContext,
    run: UnmountRun,
    cause: Seq<char>,
    r: Result<UnmountProgress, Failure>,
    after: AppContext,
) -> bool {
    let why = directory_not_removed_text(run.mount);
    let failed = after.ssh_registry.mounts()[run.mount.mount_id@];
    &&& r matches Err(e)
    &&& e@ == why + ": "@ + cause
    &&& mount_recorded(before, after, failed)
    &&& is_failed_mount(failed, run.mount, why)
    &&& after.mount_contexts == before.mount_contexts
}

/// Whether `diskutil` is tried, or the attempt has failed for want of it.
pub open spec fn tries_diskutil(
    before: AppContext,
    run: UnmountRun,
    host: HostFiles,
    r: Result<UnmountProgress, Failure>,
    after: AppContext,
) -> bool {
    let path = opt_text(run.request.diskutil_bin_path);
    match binary_refusal("diskutil"@, path, path is Some && is_known_file(host, path->0)) {
        Some(why) => unmount_failed(before, run, why, r, after),
        None => {
            &&& r matches Ok(UnmountProgress::Diskutil { plan, run: next })
            &&& next == run
            &&& is_diskutil_plan(plan, path->0, run.request.force, run.mount.local_path@)
            &&& after == before
        },
    }
}

/// The run that takes a mount away as a request asks.
pub open spec fn is_unmount_run(
    context: AppContext,
    request: SshUnmountRequest,
    host: HostFiles,
    run: UnmountRun,
) -> bool {
    &&& run.mount == context.ssh_registry.mounts()[request.mount_id@]
    &&& unmounting(run)
    &&& run.request.force == request.force
    &&& opt_text(run.request.umount_bin_path) == located(
        context.ssh_config@.umount_bin_path,
        Program::Umount,
        host,
    )
    &&& opt_text(run.request.diskutil_bin_path) == located(
        context.ssh_config@.diskutil_bin_path,
        Program::Diskutil,
        host,
    )
    &&& run.cleanup_local_path == request.cleanup_local_path
    &&& run.context == mount_context(context.mount_contexts@, request.mount_id@)
}

/// Whether a failure of the first step of taking a mount away is the one that is
/// due.
pub open spec fn unmount_cannot_begin(
    context: AppContext,
    force: bool,
    host: HostFiles,
    why: Seq<char>,
) -> bool {
    let umount = located(context.ssh_config@.umount_bin_path, Program::Umount, host);
    let diskutil = located(context.ssh_config@.diskutil_bin_path, Program::Diskutil, host);
    if umount is Some {
        &&& !is_known_file(host, umount->0)
        &&& why == unavailable_text("umount binary does not exist at "@ + umount->0)
    } else if on_macos(context) && force && diskutil is Some {
        &&& !is_known_file(host, diskutil->0)
        &&& binary_refusal("diskutil"@, diskutil, false) == Some(why)
    } else {
        why == unavailable_text("no unmount binary is available for ssh_unmount"@)
    }
}

/// What the first step of taking a mount away does: the mount is recorded as going
/// and the program that takes it away is named; where there is none, the mount is
/// recorded as failed.
pub open spec fn unmount_begun(
    before: AppContext,
    request: SshUnmountRequest,
    host: HostFiles,
    r: Result<UnmountProgress, Failure>,
    after: AppContext,
) -> bool {
    let id = request.mount_id@;
    let mount = before.ssh_registry.mounts()[id];
    let umount = located(before.ssh_config@.umount_bin_path, Program::Umount, host);
    let diskutil = located(before.ssh_config@.diskutil_bin_path, Program::Diskutil, host);
    if !before.ssh_registry.mounts().contains_key(id) {
        &&& r matches Err(e)
        &&& e@ == mount_not_found_text(id)
        &&& after == before
    } else {
        match r {
            Err(e) => {
                &&& unmount_cannot_begin(before, request.force, host, e@)
                &&& mount_failed(before, after, mount, e)
            },
            Ok(UnmountProgress::Umount { plan, run }) => {
                &&& umount is Some
                &&& is_known_file(host, umount->0)
                &&& is_unmount_run(before, request, host, run)
                &&& is_umount_plan(plan, umount->0, request.force, mount.local_path@)
                &&& mount_recorded(before, after, run.request.mount)
                &&& after.mount_contexts == before.mount_contexts
            },
            Ok(UnmountProgress::Diskutil { plan, run }) => {
                &&& umount is None
                &&& on_macos(before)
                &&& request.force
                &&& diskutil is Some
                &&& is_known_file(host, diskutil->0)
                &&& is_unmount_run(before, request, host, run)
                &&& is_diskutil_plan(plan, diskutil->0, request.force, mount.local_path@)
                &&& mount_recorded(before, after, run.request.mount)
                &&& after.mount_contexts == before.mount_contexts
            },
            Ok(_) => false,
        }
    }
}

impl SshService {
    /// Begins to make a mount: checks what is asked for, and asks for the remote
    /// home directory where the remote path needs it.
    pub fn mount(context: &AppContext, request: SshMountRequest, host: &HostFiles) -> (r: Result<
        MountStep,
        Failure,
    >)
        requires
            context.wf(),
        ensures
            mount_begun(*context, request, Manner::Service, *host, r),
            r matches Ok(step) ==> mounts_as_asked(*context, request, Manner::Service, step),
    {
        let r = SshService::mount_in(context, request, Manner::Service, host);
        proof {
            if r is Ok {
                law_mounting_leads_where_asked(
                    *context,
                    request,
                    Manner::Service,
                    *host,
                    r->Ok_0,
                );
            }
        }
        r
    }

    /// Begins to make a mount in a manner. A direct request has its remote path checked
    /// as it is.
    pub fn mount_in(
        context: &AppContext,
        request: SshMountRequest,
        manner: Manner,
        host: &HostFiles,
    ) -> (r: Result<MountStep, Failure>)
        requires
            context.wf(),
        ensures
            mount_begun(*context, request, manner, *host, r),
    {
        let connection = match SshService::require_ready_connection(
            context,
            &request.connection_id,
            "mounting",
        ) {
            Ok(c) => c,
            Err(e) => {
                return Err(e);
            },
        };
        if !SshService::mount_feature_available(context) {
            let c = context.ssh_capabilities.debug_text();
            return Err(
                Failure::new(
                    cat2(
                        "ssh mount capability is unavailable on this host: capabilities=",
                        c.as_str(),
                    ),
                ),
            );
        }
        let local_path = match context.resolve_mount_local_path(request.local_path.as_str()) {
            Ok(p) => p,
            Err(e) => {
                return Err(e);
            },
        };
        let absolute = match manner {
            Manner::Direct => Some(request.remote_path.clone()),
            Manner::Service => match parse_mount_remote_path(request.remote_path.as_str()) {
                Ok(ParsedRemoteMountPath::Absolute(path)) => Some(path.to_owned()),
                Ok(_) => None,
                Err(e) => {
                    return Err(e);
                },
            },
        };
        match absolute {
            Some(path) => match SshService::check_mount(
                context,
                request,
                manner,
                connection,
                local_path,
                path.as_str(),
            ) {
                Ok(ready) => Ok(MountStep::Directory(ready)),
                Err(e) => Err(e),
            },
            None => match SshService::run_ssh_capture(
                context,
                host,
                Manner::Service,
                &request.connection_id,
                "set -eu\nprintf '%s' \"${HOME:?}\"".to_owned(),
                "failed to resolve remote home for ssh_mount",
                None,
            ) {
                Ok(capture) => Ok(
                    MountStep::AskHome {
                        capture,
                        run: MountRun { request, manner, connection, local_path },
                    },
                ),
                Err(e) => Err(e),
            },
        }
    }

    fn check_mount(
        context: &AppContext,
        request: SshMountRequest,
        manner: Manner,
        connection: SshConnectionSummary,
        local_path: String,
        remote_path: &str,
    ) -> (r: Result<MountReady, Failure>)
        ensures
            mount_checked(*context, request, manner, connection, local_path@, remote_path@, r),
    {
        match context.ssh_guard.validate_mount_request(
            &context.ssh_config,
            SshMountValidationInput { local_path: local_path.as_str(), remote_path },
        ) {
            Ok(v) => Ok(
                MountReady {
                    request,
                    manner,
                    connection,
                    local_path: v.local_path,
                    remote_path: v.remote_path,
                    is_managed_path: v.is_managed_path,
                },
            ),
            Err(e) => Err(e),
        }
    }

    /// Goes on once the script that tells the remote home directory was run, or
    /// could not be.
    pub fn mount_home_known(
        context: &AppContext,
        run: MountRun,
        capture: &CaptureRun,
        outcome: Result<CommandOutput, Failure>,
    ) -> (r: Result<MountReady, Failure>)
        ensures
            match outcome {
                Err(failure) => r matches Err(e) && e@ == capture_failure_text(
                    capture.manner,
                    capture.message@,
                    capture.connection_id@,
                    capture.status,
                    opt_text(capture.path),
                    failure@,
                ),
                Ok(o) => match remote_home(run.request.connection_id@, o) {
                    Err(why) => r matches Err(e) && e@ == why,
                    Ok(home) => match mount_path_form(run.request.remote_path@) {
                        Err(why) => r matches Err(e) && e@ == why,
                        Ok(form) => mount_checked(
                            *context,
                            run.request,
                            run.manner,
                            run.connection,
                            run.local_path@,
                            mount_source(form, home),
                            r,
                        ),
                    },
                },
            },
    {
        let output = match capture.outcome(outcome) {
            Ok(o) => o,
            Err(e) => {
                return Err(e);
            },
        };
        let home = match SshService::home_from(&run.request.connection_id, &output) {
            Ok(h) => h,
            Err(e) => {
                return Err(e);
            },
        };
        let remote_path = match parse_mount_remote_path(run.request.remote_path.as_str()) {
            Ok(ParsedRemoteMountPath::Absolute(path)) => path.to_owned(),
            Ok(ParsedRemoteMountPath::Home) => home,
            Ok(ParsedRemoteMountPath::HomeRelative(rest)) => join_home_relative_remote_path(
                home.as_str(),
                rest,
            ),
            Err(e) => {
                return Err(e);
            },
        };
        SshService::check_mount(
            context,
            run.request,
            run.manner,
            run.connection,
            run.local_path,
            remote_path.as_str(),
        )
    }

    /// The remote home directory, from what the script printed.
    pub fn home_from(connection_id: &crate::ssh::model::SshConnectionId, output: &CommandOutput) -> (r:
        Result<String, Failure>)
        ensures
            match r {
                Ok(h) => remote_home(connection_id@, *output) == Ok::<Seq<char>, Seq<char>>(h@),
                Err(e) => remote_home(connection_id@, *output) == Err::<Seq<char>, Seq<char>>(e@),
            },
    {
        if !output.success {
            return Err(
                remote_command_failed(
                    "failed to resolve remote home for ssh_mount",
                    connection_id,
                    None,
                    output,
                ),
            );
        }
        let text = match decode_strict(output.stdout.as_slice()) {
            Some(t) => t,
            None => {
                return Err(
                    Failure::new(
                        cat3(
                            "failed to resolve remote home for ssh_mount: connection_id=",
                            connection_id.as_str(),
                            " remote HOME is not valid UTF-8",
                        ),
                    ),
                );
            },
        };
        let home = trim(text.as_str());
        if home.is_empty() || !starts_with(home, "/") {
            let shown = quote_debug(home);
            return Err(
                Failure::new(
                    cat4(
                        "failed to resolve remote home for ssh_mount: connection_id=",
                        connection_id.as_str(),
                        " remote_home=",
                        shown.as_str(),
                    ),
                ),
            );
        }
        Ok(home.to_owned())
    }

    /// The summary of a mount that is made at a moment, under an identifier.
    pub fn new_mount(ready: &MountReady, mount_id: SshMountId, now: Timestamp) -> (r:
        SshMountSummary)
        ensures
            r.mount_id == mount_id,
            r.mounted_at == now,
            begins_mount(r, *ready),
    {
        let usual = cat4(
            "SSH mount: ",
            ready.remote_path.as_str(),
            " -> ",
            ready.local_path.as_str(),
        );
        SshMountSummary {
            mount_id,
            title: clone_opt(&ready.request.title),
            description: Some(describe_in(ready.manner, &ready.request.description, usual)),
            connection_id: ready.connection.connection_id.clone(),
            target_summary: ready.connection.target_summary.clone(),
            status: SshMountStatus::Mounting,
            backend: match ready.request.backend {
                Some(b) => b,
                None => SshMountBackend::Sshfs,
            },
            local_path: ready.local_path.clone(),
            remote_path: ready.remote_path.clone(),
            read_only: ready.request.read_only,
            mounted_at: now,
            last_error: None,
        }
    }

    /// Starts to mount, once the local directory is there.
    pub fn mount_start(
        context: &mut AppContext,
        ready: MountReady,
        created_local_path: bool,
        host: &HostFiles,
    ) -> (r: Result<MountingRun, Failure>)
        requires
            old(context).wf(),
        ensures
            final(context).wf(),
            mount_started(*old(context), ready, created_local_path, *host, r, *final(context)),
            r matches Ok(run) ==> starts_mount_as_asked(
                *old(context),
                ready,
                created_local_path,
                run,
                *final(context),
            ),
    {
        let ghost before = *context;
        let mount = SshService::new_mount(&ready, SshMountId::new(), Timestamp::now());
        SshService::record_mount(context, mount.clone());
        context.remember_mount_runtime_context(
            &mount.mount_id,
            SshMountRuntimeContext {
                managed_path: ready.is_managed_path,
                created_local_path,
            },
        );
        let made = context.runtime_context_for_connection(&ready.connection);
        let sshfs = context.ssh_config.resolved_sshfs_bin_path(host);
        let is_file = match &sshfs {
            Some(p) => host.is_file(p.as_str()),
            None => false,
        };
        let request = SshMountPlanRequest {
            mount,
            connection: ready.connection.clone(),
            auth_kind: made.auth_kind,
            identity_path: made.identity_path,
            verify_host_key: made.verify_host_key,
            sshfs_bin_path: sshfs,
        };
        match context.ssh_runtime.mount_plan(&request, is_file) {
            Ok(plan) => {
                let run = MountingRun { plan, request };
                proof {
                    law_mount_starts_as_checked(
                        before,
                        ready,
                        created_local_path,
                        *host,
                        run,
                        *context,
                    );
                }
                Ok(run)
            },
            Err(e) => {
                let ghost middle = *context;
                SshService::record_failed_mount(context, &request.mount, &e);
                proof {
                    let m = request.mount;
                    let f = context.ssh_registry.mounts()[m.mount_id@];
                    assert(is_new_mount(m, ready));
                    assert(context.ssh_registry.mounts() =~= before.ssh_registry.mounts().insert(
                        m.mount_id@,
                        f,
                    ));
                    let used = set![m.connection_id@];
                    lemma_use_changes_compose(
                        before.ssh_registry.connections(),
                        used,
                        middle.ssh_registry.connections(),
                        used,
                        context.ssh_registry.connections(),
                    );
                    assert(used.union(used) =~= used);
                }
                Err(e)
            },
        }
    }

    /// Puts a mount in the registry.
    fn record_mount(context: &mut AppContext, mount: SshMountSummary)
        requires
            old(context).wf(),
        ensures
            final(context).wf(),
            mount_recorded(*old(context), *final(context), mount),
            final(context).mount_contexts == old(context).mount_contexts,
    {
        let ghost before = context.ssh_registry;
        let ghost id = mount.connection_id@;
        context.ssh_registry.upsert_mount(mount);
        proof {
            lemma_used_is_use_changed(
                before.connections(),
                id,
                context.ssh_registry.links(),
                context.ssh_registry.mounts(),
                context.ssh_registry.connections(),
            );
        }
    }

    fn record_failed_mount(context: &mut AppContext, mount: &SshMountSummary, error: &Failure)
        requires
            old(context).wf(),
        ensures
            final(context).wf(),
            mount_failed(*old(context), *final(context), *mount, *error),
    {
        let mut failed = mount.clone();
        failed.status = SshMountStatus::Failed;
        failed.last_error = Some(error.message.clone());
        SshService::record_mount(context, failed);
    }

    /// Goes on once the program that mounts has run, or could not.
    pub fn mount_finished(
        context: &mut AppContext,
        run: MountingRun,
        outcome: Result<CommandOutput, Failure>,
    ) -> (r: Result<SshMountSummary, Failure>)
        requires
            old(context).wf(),
        ensures
            final(context).wf(),
            brings_in_mount(*old(context), *final(context), run.request.mount.mount_id@),
            mount_finishes(*old(context), run, outcome, r, *final(context)),
    {
        let result = match outcome {
            Ok(o) => context.ssh_runtime.mount_outcome(&run.request, &o),
            Err(e) => Err(e),
        };
        match result {
            Ok(_) => {
                let mut mounted = run.request.mount;
                mounted.status = SshMountStatus::Mounted;
                mounted.last_error = None;
                SshService::record_mount(context, mounted.clone());
                Ok(mounted)
            },
            Err(e) => {
                SshService::record_failed_mount(context, &run.request.mount, &e);
                Err(e)
            },
        }
    }

    /// Begins to take a mount away.
    pub fn unmount(context: &mut AppContext, request: SshUnmountRequest, host: &HostFiles) -> (r:
        Result<UnmountProgress, Failure>)
        requires
            old(context).wf(),
        ensures
            final(context).wf(),
            brings_nothing_in(*old(context), *final(context)),
            unmount_begun(*old(context), request, *host, r, *final(context)),
    {
        let ghost before = *context;
        let mount = match context.ssh_registry.get_mount(&request.mount_id) {
            Some(m) => m,
            None => {
                return Err(
                    Failure::new(cat2("ssh mount not found: mount_id=", request.mount_id.as_str())),
                );
            },
        };
        proof {
            context.ssh_registry.lemma_ids();
        }
        let mount_context = context.mount_runtime_context_for_mount(&request.mount_id);
        let mut unmounting = mount.clone();
        unmounting.status = SshMountStatus::Unmounting;
        SshService::record_mount(context, unmounting.clone());
        let ghost going = *context;
        let umount = context.ssh_config.resolved_umount_bin_path(host);
        let diskutil = context.ssh_config.resolved_diskutil_bin_path(host);
        let umount_is_file = match &umount {
            Some(p) => host.is_file(p.as_str()),
            None => false,
        };
        let diskutil_is_file = match &diskutil {
            Some(p) => host.is_file(p.as_str()),
            None => false,
        };
        let macos = same(context.ssh_capabilities.platform.as_str(), "macos");
        let run = UnmountRun {
            mount,
            request: runtime::SshUnmountRequest {
                mount: unmounting,
                force: request.force,
                umount_bin_path: umount,
                diskutil_bin_path: diskutil,
            },
            cleanup_local_path: request.cleanup_local_path,
            context: mount_context,
        };
        match context.ssh_runtime.unmount_begin(
            &run.request,
            macos,
            umount_is_file,
            diskutil_is_file,
        ) {
            Ok(UnmountStep::Umount(plan)) => Ok(UnmountProgress::Umount { plan, run }),
            Ok(UnmountStep::Diskutil(plan)) => Ok(UnmountProgress::Diskutil { plan, run }),
            Ok(UnmountStep::Done) => Ok(UnmountProgress::RemoveDirectory { run }),
            Err(e) => {
                SshService::record_failed_mount(context, &run.mount, &e);
                proof {
                    let f = context.ssh_registry.mounts()[run.mount.mount_id@];
                    assert(context.ssh_registry.mounts() =~= before.ssh_registry.mounts().insert(
                        run.mount.mount_id@,
                        f,
                    ));
                    let used = set![run.mount.connection_id@];
                    lemma_use_changes_compose(
                        before.ssh_registry.connections(),
                        used,
                        going.ssh_registry.connections(),
                        used,
                        context.ssh_registry.connections(),
                    );
                    assert(used.union(used) =~= used);
                }
                Err(e)
            },
        }
    }

    /// Goes on once `umount` has run, or could not.
    pub fn umount_ran(
        context: &mut AppContext,
        run: UnmountRun,
        host: &HostFiles,
        outcome: Result<CommandOutput, Failure>,
    ) -> (r: Result<UnmountProgress, Failure>)
        requires
            old(context).wf(),
            unmounting(run),
        ensures
            final(context).wf(),
            brings_in_mount(*old(context), *final(context), run.mount.mount_id@),
            match outcome {
                Err(failure) => {
                    &&& r == Err::<UnmountProgress, Failure>(failure)
                    &&& mount_failed(*old(context), *final(context), run.mount, failure)
                },
                Ok(o) => if o.success {
                    unmounted_well(*old(context), run, r, *final(context))
                } else if diskutil_helps(run.request, on_macos(*old(context))) {
                    tries_diskutil(*old(context), run, *host, r, *final(context))
                } else {
                    unmount_failed(
                        *old(context),
                        run,
                        unmount_failure_text(run.request.mount, o),
                        r,
                        *final(context),
                    )
                },
            },
    {
        let output = match outcome {
            Ok(o) => o,
            Err(e) => {
                SshService::record_failed_mount(context, &run.mount, &e);
                return Err(e);
            },
        };
        let macos = same(context.ssh_capabilities.platform.as_str(), "macos");
        let diskutil_is_file = match &run.request.diskutil_bin_path {
            Some(p) => host.is_file(p.as_str()),
            None => false,
        };
        match context.ssh_runtime.unmount_ran(&run.request, macos, diskutil_is_file, &output) {
            Ok(UnmountStep::Done) => SshService::unmount_succeeded(context, run),
            Ok(UnmountStep::Diskutil(plan)) => Ok(UnmountProgress::Diskutil { plan, run }),
            Ok(UnmountStep::Umount(plan)) => Ok(UnmountProgress::Umount { plan, run }),
            Err(e) => {
                SshService::record_failed_mount(context, &run.mount, &e);
                Err(e)
            },
        }
    }

    /// Goes on once `diskutil` has run, or could not.
    pub fn diskutil_ran(
        context: &mut AppContext,
        run: UnmountRun,
        outcome: Result<CommandOutput, Failure>,
    ) -> (r: Result<UnmountProgress, Failure>)
        requires
            old(context).wf(),
        ensures
            final(context).wf(),
            brings_in_mount(*old(context), *final(context), run.mount.mount_id@),
            match outcome {
                Err(failure) => {
                    &&& r == Err::<UnmountProgress, Failure>(failure)
                    &&& mount_failed(*old(context), *final(context), run.mount, failure)
                },
                Ok(o) => if o.success {
                    unmounted_well(*old(context), run, r, *final(context))
                } else {
                    unmount_failed(
                        *old(context),
                        run,
                        unmount_failure_text(run.request.mount, o),
                        r,
                        *final(context),
                    )
                },
            },
    {
        let output = match outcome {
            Ok(o) => o,
            Err(e) => {
                SshService::record_failed_mount(context, &run.mount, &e);
                return Err(e);
            },
        };
        match context.ssh_runtime.diskutil_ran(&run.request, &output) {
            Ok(_) => SshService::unmount_succeeded(context, run),
            Err(e) => {
                SshService::record_failed_mount(context, &run.mount, &e);
                Err(e)
            },
        }
    }

    fn unmount_succeeded(context: &mut AppContext, run: UnmountRun) -> (r: Result<
        UnmountProgress,
        Failure,
    >)
        requires
            old(context).wf(),
        ensures
            final(context).wf(),
            unmounted_well(*old(context), run, r, *final(context)),
    {
        if run.cleanup_local_path && context.cleanup_mount_local_path_if_allowed(&run.context) {
            return Ok(UnmountProgress::RemoveDirectory { run });
        }
        Ok(UnmountProgress::Done(SshService::record_unmounted(context, run, false)))
    }

    fn record_unmounted(context: &mut AppContext, run: UnmountRun, cleaned: bool) -> (r:
        SshUnmountResult)
        requires
            old(context).wf(),
        ensures
            final(context).wf(),
            unmount_done(
                *old(context),
                run,
                cleaned,
                Ok(UnmountProgress::Done(r)),
                *final(context),
            ),
    {
        let previous_status = run.mount.status;
        let mut unmounted = run.mount;
        unmounted.status = SshMountStatus::Unmounted;
        unmounted.last_error = None;
        SshService::record_mount(context, unmounted.clone());
        SshUnmountResult { mount: unmounted, previous_status, cleanup_local_path: cleaned }
    }

    /// Goes on once the directory of a mount was removed, or could not be for the
    /// cause that is given, in which case the mount is recorded as failed.
    pub fn directory_removed(
        context: &mut AppContext,
        run: UnmountRun,
        outcome: Result<(), String>,
    ) -> (r: Result<UnmountProgress, Failure>)
        requires
            old(context).wf(),
        ensures
            final(context).wf(),
            brings_in_mount(*old(context), *final(context), run.mount.mount_id@),
            match outcome {
                Ok(_) => unmount_done(*old(context), run, true, r, *final(context)),
                Err(cause) => directory_stays(*old(context), run, cause@, r, *final(context)),
            },
    {
        match outcome {
            Ok(_) => Ok(UnmountProgress::Done(SshService::record_unmounted(context, run, true))),
            Err(cause) => {
                let e = context.mount_directory_not_removed(&run.mount);
                SshService::record_failed_mount(context, &run.mount, &e);
                Err(Failure::new(cat3(e.message.as_str(), ": ", cause.as_str())))
            },
        }
    }
}

/// The directory of a mount is removed only where that was asked for, and only where
/// the directory is a managed one that was made for the mount.
pub proof fn law_only_own_directories_are_removed(
    before: AppContext,
    run: UnmountRun,
    r: Result<UnmountProgress, Failure>,
    after: AppContext,
)
    requires
        unmounted_well(before, run, r, after),
        r matches Ok(UnmountProgress::RemoveDirectory { .. }),
    ensures
        run.cleanup_local_path,
        run.context.managed_path,
        run.context.created_local_path,
{
}

/// A remote path can be mounted exactly where it is absolute, the remote home, or
/// something below it, and holds no zero character. It stands for itself, for the home
/// directory, or for what is below that.
pub proof fn law_mounted_path_is_the_named_one(
    remote_path: Seq<char>,
    home: Seq<char>,
    rest: Seq<char>,
)
    ensures
        ({
            let t = trimmed(remote_path);
            let form = mount_path_form(remote_path);
            let source = mount_source(form->Ok_0, home);
            &&& form is Ok <==> t.len() > 0 && (forall|i: int|
                0 <= i < t.len() ==> #[trigger] t[i] != '\0') && (t[0] == '/' || (t[0] == '~' && (
            t.len() == 1 || t[1] == '/')))
            &&& form is Ok && t[0] == '/' ==> form->Ok_0 == MountPathText::Absolute(t) && source
                == t
            &&& form is Ok && t == seq!['~'] ==> source == home
            &&& form is Ok && t == seq!['~', '/'] ==> source == home
            &&& form is Ok && t == seq!['~', '/'] + rest && rest.len() > 0 && home != seq!['/']
                ==> source == home + seq!['/'] + rest
            &&& form is Ok && t == seq!['~', '/'] + rest && rest.len() > 0 && home == seq!['/']
                ==> source == seq!['/'] + rest
        }),
{
    let t = trimmed(remote_path);
    let form = mount_path_form(remote_path);
    reveal_strlit("/");
    reveal_strlit("~");
    reveal_strlit("~/");
    assert("/"@ =~= seq!['/']);
    assert("~"@ =~= seq!['~']);
    assert("~/"@ =~= seq!['~', '/']);
    law_remote_paths(remote_path, "ssh_mount remote_path"@);
    if t.len() > 0 && t[0] == '/' {
        assert("/"@ =~= t.take(1));
        assert("/"@.is_prefix_of(t));
    }
    if t.len() == 1 && t[0] == '~' {
        assert(t =~= "~"@);
    }
    if t.len() > 1 && t[0] == '~' && t[1] == '/' {
        assert("~/"@ =~= t.take(2));
        assert("~/"@.is_prefix_of(t));
    }
    if "/"@.is_prefix_of(t) {
        assert(t[0] == "/"@[0]);
    }
    if "~/"@.is_prefix_of(t) {
        assert(t[0] == "~/"@[0] && t[1] == "~/"@[1]);
    }
    if t == seq!['~', '/'] {
        assert(t.skip(2).len() == 0);
    }
    if t == seq!['~', '/'] + rest {
        assert(t[0] == '~' && t[1] == '/');
        assert(t.skip(2) =~= rest);
    }
}

/// The remote home directory is what the remote side has printed, without white space
/// around it, exactly where it has succeeded and that is an absolute path.
pub proof fn law_remote_home_is_what_was_printed(id: Seq<char>, o: CommandOutput)
    ensures
        ({
            let printed = trimmed(decode_utf8(o.stdout@));
            &&& remote_home(id, o) is Ok <==> o.success && valid_utf8(o.stdout@) && printed.len()
                > 0 && printed[0] == '/'
            &&& remote_home(id, o) is Ok ==> remote_home(id, o)->Ok_0 == printed
        }),
{
    let printed = trimmed(decode_utf8(o.stdout@));
    reveal_strlit("/");
    if printed.len() > 0 && printed[0] == '/' {
        assert("/"@ =~= printed.take(1));
    }
    if "/"@.is_prefix_of(printed) {
        assert(printed[0] == "/"@[0]);
    }
}

/// Whether the first step of making a mount leads to what is asked for: over a known
/// connection that is ready or degraded, on a host that has what mounting needs, from
/// the remote path and to the local path of the request.
pub open spec fn mounts_as_asked(
    context: AppContext,
    request: SshMountRequest,
    manner: Manner,
    step: MountStep,
) -> bool {
    let id = request.connection_id@;
    let known = context.ssh_registry.connections();
    let has = context.ssh_capabilities;
    let t = trimmed(request.remote_path@);
    &&& known.contains_key(id)
    &&& known[id].status == SshConnectionStatus::Ready || known[id].status
        == SshConnectionStatus::Degraded
    &&& has.sshfs.available && has.unmount.available
    &&& has.platform@ == "macos"@ ==> has.macfuse is Some && has.macfuse->0.available
    &&& trimmed(request.local_path@).len() > 0
    &&& match step {
        MountStep::Directory(ready) => {
            &&& ready.request == request
            &&& ready.manner == manner
            &&& ready.connection == known[id]
            &&& ready.local_path@ == trimmed(request.local_path@)
            &&& ready.remote_path@ == t
            &&& manner == Manner::Service ==> t.len() > 0 && t[0] == '/'
            &&& mount_refusal(
                context.ssh_guard@,
                context.ssh_config@,
                trimmed(request.local_path@),
                if manner == Manner::Direct {
                    request.remote_path@
                } else {
                    t
                },
            ) is None
            &&& ready.is_managed_path == is_managed(
                context.ssh_config@,
                trimmed(request.local_path@),
            )
        },
        MountStep::AskHome { capture, run } => {
            &&& manner == Manner::Service
            &&& t.len() > 0 && t[0] == '~'
            &&& script_is_run(context, id, "set -eu\nprintf '%s' \"${HOME:?}\""@, capture)
            &&& run.request == request
            &&& run.manner == manner
            &&& run.connection == known[id]
            &&& run.local_path@ == trimmed(request.local_path@)
        },
    }
}

/// Making a mount leads to what is asked for.
pub proof fn law_mounting_leads_where_asked(
    context: AppContext,
    request: SshMountRequest,
    manner: Manner,
    host: HostFiles,
    step: MountStep,
)
    requires
        mount_begun(context, request, manner, host, Ok(step)),
    ensures
        mounts_as_asked(context, request, manner, step),
{
    law_mounted_path_is_the_named_one(request.remote_path@, seq![], seq![]);
    law_only_ready_connections_are_used(
        context.ssh_registry.connections(),
        request.connection_id@,
        "mounting"@,
    );
    law_mounts_need_their_programs(context.ssh_capabilities);
    lemma_trimmed_twice(request.remote_path@);
    reveal_strlit("~");
    match step {
        MountStep::AskHome { capture, run } => {
            law_script_goes_to_the_connection(
                context,
                host,
                Manner::Service,
                request.connection_id@,
                home_script(),
                home_message(),
                None,
                capture,
            );
        },
        MountStep::Directory(_) => {
            let t = trimmed(request.remote_path@);
            reveal_strlit("/");
            if "/"@.is_prefix_of(t) {
                assert(t[0] == "/"@[0]);
            }
        },
    }
}

/// Whether a mount is started as was checked: with what makes exactly that mount,
/// read-only exactly where that is asked for, over its connection in the way that this
/// was made; it is recorded as being made, and how its directory came to be is
/// remembered.
pub open spec fn starts_mount_as_asked(
    before: AppContext,
    ready: MountReady,
    created: bool,
    run: MountingRun,
    after: AppContext,
) -> bool {
    let m = run.request.mount;
    &&& exists|kind: SshAuthKind, identity: Option<Seq<char>>, verify: bool| #[trigger]
        is_used_as_made(before, ready.connection, kind, identity, verify) && mount_is_asked_for(
            texts(run.plan.args@),
            ready.request.read_only,
            verify,
            ready.connection.target@,
            identity,
            kind,
            ready.remote_path@,
            ready.local_path@,
        )
    &&& run.plan.timeout_ms == 15_000
    &&& after.ssh_registry.mounts().contains_key(m.mount_id@)
    &&& after.ssh_registry.mounts()[m.mount_id@] == m
    &&& m.status == SshMountStatus::Mounting
    &&& m.read_only == ready.request.read_only
    &&& m.connection_id == ready.connection.connection_id
    &&& m.local_path@ == ready.local_path@
    &&& m.remote_path@ == ready.remote_path@
    &&& m.title == ready.request.title
    &&& m.last_error is None
    &&& ready.request.backend is None ==> m.backend == SshMountBackend::Sshfs
    &&& ready.request.backend is Some ==> m.backend == ready.request.backend->0
    &&& after.mount_contexts@.contains_key(m.mount_id@)
    &&& after.mount_contexts@[m.mount_id@].managed_path == ready.is_managed_path
    &&& after.mount_contexts@[m.mount_id@].created_local_path == created
    &&& forall|k: Seq<char>|
        k != m.mount_id@ && #[trigger] before.ssh_registry.mounts().contains_key(k)
            ==> after.ssh_registry.mounts().contains_key(k) && after.ssh_registry.mounts()[k]
            == before.ssh_registry.mounts()[k]
}

/// A mount is started as it was checked, and read-only exactly where that is asked for.
pub proof fn law_mount_starts_as_checked(
    before: AppContext,
    ready: MountReady,
    created: bool,
    host: HostFiles,
    run: MountingRun,
    after: AppContext,
)
    requires
        mount_started(before, ready, created, host, Ok(run), after),
    ensures
        starts_mount_as_asked(before, ready, created, run, after),
{
    let made = connection_context(before.connection_contexts@, ready.connection);
    let identity = opt_text(made.identity_path);
    law_connection_is_used_as_it_was_made(before, ready.connection);
    law_mount_is_read_only_where_asked(
        ready.request.read_only,
        made.verify_host_key,
        ready.connection.target@,
        identity,
        made.auth_kind,
        ready.remote_path@,
        ready.local_path@,
    );
    assert(is_used_as_made(
        before,
        ready.connection,
        made.auth_kind,
        identity,
        made.verify_host_key,
    ));
}

/// A mount is there exactly where the program that makes it has succeeded; it is then
/// recorded as mounted, and otherwise as failed, with the reason that is answered.
pub proof fn law_mount_is_there_where_it_was_made(
    before: AppContext,
    run: MountingRun,
    outcome: Result<CommandOutput, Failure>,
    r: Result<SshMountSummary, Failure>,
    after: AppContext,
)
    requires
        mount_finishes(before, run, outcome, r, after),
    ensures
        ({
            let id = run.request.mount.mount_id@;
            let m = after.ssh_registry.mounts()[id];
            &&& r is Ok <==> (outcome matches Ok(o) && o.success)
            &&& after.ssh_registry.mounts().contains_key(id)
            &&& r matches Ok(done) ==> done == m && m.status == SshMountStatus::Mounted
                && m.last_error is None
            &&& r matches Err(e) ==> m.status == SshMountStatus::Failed && m.last_error is Some
                && m.last_error->0@ == e@
            &&& m.read_only == run.request.mount.read_only
            &&& m.local_path == run.request.mount.local_path
            &&& m.remote_path == run.request.mount.remote_path
            &&& m.connection_id == run.request.mount.connection_id
            &&& forall|k: Seq<char>|
                k != id && #[trigger] before.ssh_registry.mounts().contains_key(k)
                    ==> after.ssh_registry.mounts().contains_key(k)
                    && after.ssh_registry.mounts()[k] == before.ssh_registry.mounts()[k]
            &&& after.mount_contexts == before.mount_contexts
        }),
{
}

/// Taking a mount away names its mount point, uses force exactly where that is asked
/// for, and records the mount as going. Where nothing can take it away, it is recorded as
/// failed, with the reason; an unknown mount changes nothing.
pub proof fn law_unmounting_begins_as_asked(
    before: AppContext,
    request: SshUnmountRequest,
    host: HostFiles,
    r: Result<UnmountProgress, Failure>,
    after: AppContext,
)
    requires
        unmount_begun(before, request, host, r, after),
        before.ssh_registry.wf(),
    ensures
        ({
            let id = request.mount_id@;
            let known = before.ssh_registry.mounts().contains_key(id);
            let path = before.ssh_registry.mounts()[id].local_path@;
            let m = after.ssh_registry.mounts()[id];
            &&& !known ==> r is Err && after == before
            &&& known && r is Err ==> m.status == SshMountStatus::Failed && m.last_error is Some
                && m.last_error->0@ == r->Err_0@
            &&& r is Ok ==> known && m.status == SshMountStatus::Unmounting
            &&& r matches Ok(UnmountProgress::Umount { plan, run }) ==> {
                &&& !request.force ==> texts(plan.args@) == seq![path]
                &&& request.force ==> texts(plan.args@) == seq!["-f"@, path]
                &&& run.mount == before.ssh_registry.mounts()[id]
                &&& run.request.force == request.force
                &&& run.cleanup_local_path == request.cleanup_local_path
                &&& before.mount_contexts@.contains_key(id) ==> run.context
                    == before.mount_contexts@[id]
                &&& !before.mount_contexts@.contains_key(id) ==> !run.context.managed_path
            }
            &&& r matches Ok(UnmountProgress::Diskutil { plan, run }) ==> {
                &&& request.force
                &&& before.ssh_capabilities.platform@ == "macos"@
                &&& texts(plan.args@) == seq!["unmount"@, "force"@, path]
                &&& run.mount == before.ssh_registry.mounts()[id]
                &&& run.cleanup_local_path == request.cleanup_local_path
            }
            &&& r is Ok ==> r->Ok_0 is Umount || r->Ok_0 is Diskutil
        }),
{
    before.ssh_registry.lemma_ids();
    match r {
        Ok(UnmountProgress::Umount { plan, run }) => {
            law_unmounting_names_the_mount_point(
                plan,
                located(before.ssh_config@.umount_bin_path, Program::Umount, host)->0,
                request.force,
                before.ssh_registry.mounts()[request.mount_id@].local_path@,
            );
        },
        Ok(UnmountProgress::Diskutil { plan, run }) => {
            law_unmounting_names_the_mount_point(
                plan,
                located(before.ssh_config@.diskutil_bin_path, Program::Diskutil, host)->0,
                request.force,
                before.ssh_registry.mounts()[request.mount_id@].local_path@,
            );
        },
        _ => {},
    }
}

/// A mount that is gone is recorded as unmounted. Its directory is removed before that
/// exactly where this is asked for and the directory is a managed one that was made for
/// the mount.
pub proof fn law_unmounting_ends_as_asked(
    before: AppContext,
    run: UnmountRun,
    r: Result<UnmountProgress, Failure>,
    after: AppContext,
)
    requires
        unmounted_well(before, run, r, after),
    ensures
        ({
            let id = run.mount.mount_id@;
            let removes = run.cleanup_local_path && run.context.managed_path
                && run.context.created_local_path;
            &&& r is Ok
            &&& removes <==> r->Ok_0 is RemoveDirectory
            &&& removes ==> after == before
            &&& !removes ==> {
                &&& r matches Ok(UnmountProgress::Done(done))
                &&& done.mount.status == SshMountStatus::Unmounted
                &&& done.mount.last_error is None
                &&& done.previous_status == run.mount.status
                &&& !done.cleanup_local_path
                &&& after.ssh_registry.mounts().contains_key(id)
                &&& after.ssh_registry.mounts()[id] == done.mount
            }
        }),
{
}

/// Once the directory of a mount was removed, the mount is recorded as unmounted and the
/// answer says that it was cleaned up; where the directory stays, the mount is recorded
/// as failed.
pub proof fn law_removed_directories_are_told(
    before: AppContext,
    run: UnmountRun,
    cause: Seq<char>,
    r: Result<UnmountProgress, Failure>,
    after: AppContext,
)
    ensures
        unmount_done(before, run, true, r, after) ==> {
            &&& r matches Ok(UnmountProgress::Done(done))
            &&& done.cleanup_local_path
            &&& done.mount.status == SshMountStatus::Unmounted
            &&& done.previous_status == run.mount.status
            &&& after.ssh_registry.mounts()[run.mount.mount_id@] == done.mount
        },
        directory_stays(before, run, cause, r, after) ==> {
            &&& r is Err
            &&& after.ssh_registry.mounts()[run.mount.mount_id@].status == SshMountStatus::Failed
            &&& after.ssh_registry.mounts()[run.mount.mount_id@].last_error is Some
        },
{
}

/// `diskutil` is tried after `umount` exactly on macOS, by force, where it is known.
pub proof fn law_diskutil_helps_on_macos(request: runtime::SshUnmountRequest, macos: bool)
    ensures
        diskutil_helps(request, macos) <==> macos && request.force
            && request.diskutil_bin_path is Some,
        forall|c: AppContext| #[trigger] on_macos(c) <==> c.ssh_capabilities.platform@ == "macos"@,
{
}

/// A mount that is recorded is the only mount that changes, and its connection the only
/// one that is used.
pub proof fn law_mounts_are_recorded_alone(
    before: AppContext,
    after: AppContext,
    m: SshMountSummary,
    k: Seq<char>,
)
    requires
        mount_recorded(before, after, m),
    ensures
        after.registry == before.registry,
        after.connection_contexts == before.connection_contexts,
        after.ssh_registry.links() == before.ssh_registry.links(),
        after.ssh_registry.tunnels() == before.ssh_registry.tunnels(),
        after.ssh_registry.mounts().contains_key(m.mount_id@),
        after.ssh_registry.mounts()[m.mount_id@] == m,
        k != m.mount_id@ ==> (after.ssh_registry.mounts().contains_key(k)
            <==> before.ssh_registry.mounts().contains_key(k)),
        k != m.mount_id@ && before.ssh_registry.mounts().contains_key(k)
            ==> after.ssh_registry.mounts()[k] == before.ssh_registry.mounts()[k],
        after.ssh_registry.connections().contains_key(k)
            <==> before.ssh_registry.connections().contains_key(k),
        after.ssh_registry.connections().contains_key(k) ==> after.ssh_registry.connections()[k].status
            == before.ssh_registry.connections()[k].status,
        after.ssh_registry.connections().contains_key(k) && k != m.connection_id@
            ==> after.ssh_registry.connections()[k].last_used_at
            == before.ssh_registry.connections()[k].last_used_at,
{
}

/// An attempt to take a mount away that fails leaves the mount recorded as failed, for the
/// reason that is answered, and as it was otherwise.
pub proof fn law_failed_unmounting_is_recorded(
    before: AppContext,
    run: UnmountRun,
    why: Seq<char>,
    r: Result<UnmountProgress, Failure>,
    after: AppContext,
    k: Seq<char>,
)
    requires
        unmount_failed(before, run, why, r, after),
    ensures
        r is Err,
        r->Err_0@ == why,
        after.mount_contexts == before.mount_contexts,
        after.registry == before.registry,
        ({
            let id = run.mount.mount_id@;
            let m = after.ssh_registry.mounts()[id];
            &&& after.ssh_registry.mounts().contains_key(id)
            &&& m.status == SshMountStatus::Failed
            &&& m.last_error is Some && m.last_error->0@ == why
            &&& m.mount_id == run.mount.mount_id
            &&& m.connection_id == run.mount.connection_id
            &&& m.local_path == run.mount.local_path
            &&& m.remote_path == run.mount.remote_path
            &&& k != id && before.ssh_registry.mounts().contains_key(k)
                ==> after.ssh_registry.mounts()[k] == before.ssh_registry.mounts()[k]
        }),
{
}

/// A directory that cannot be removed leaves its mount recorded as failed; the answer
/// names the cause too.
pub proof fn law_directory_that_stays_is_recorded(
    before: AppContext,
    run: UnmountRun,
    cause: Seq<char>,
    r: Result<UnmountProgress, Failure>,
    after: AppContext,
)
    requires
        directory_stays(before, run, cause, r, after),
    ensures
        r is Err,
        cause.is_suffix_of(r->Err_0@),
        ({
            let m = after.ssh_registry.mounts()[run.mount.mount_id@];
            &&& after.ssh_registry.mounts().contains_key(run.mount.mount_id@)
            &&& m.status == SshMountStatus::Failed
            &&& m.last_error is Some
            &&& r->Err_0@ == m.last_error->0@ + ": "@ + cause
            &&& m.local_path == run.mount.local_path
        }),
{
    let e = r->Err_0@;
    assert(cause =~= e.subrange((e.len() - cause.len()) as int, e.len() as int));
}

/// `diskutil` is run on the mount point, with force where that was asked for, where it is
/// known and is a file; where it is not, the attempt has failed.
pub proof fn law_diskutil_is_run_where_it_is_known(
    before: AppContext,
    run: UnmountRun,
    host: HostFiles,
    r: Result<UnmountProgress, Failure>,
    after: AppContext,
)
    requires
        tries_diskutil(before, run, host, r, after),
    ensures
        ({
            let path = run.request.diskutil_bin_path;
            let known = path is Some && is_known_file(host, path->0@);
            &&& r is Ok <==> known
            &&& known ==> r->Ok_0 is Diskutil && after == before && {
                let plan = r->Ok_0->Diskutil_plan;
                &&& r->Ok_0->Diskutil_run == run
                &&& plan.program@ == path->0@
                &&& texts(plan.args@)[0] == "unmount"@
                &&& run.request.force ==> texts(plan.args@).len() == 3 && texts(plan.args@)[1]
                    == "force"@
                &&& !run.request.force ==> texts(plan.args@).len() == 2
                &&& texts(plan.args@).last() == run.mount.local_path@
            }
            &&& !known ==> after.ssh_registry.mounts()[run.mount.mount_id@].status
                == SshMountStatus::Failed
        }),
{
}

/// A mount is started exactly where `sshfs` is found; where it is not, a mount of the
/// checked directory is recorded as failed, with the reason that is answered.
pub proof fn law_mounts_start_where_sshfs_is_found(
    before: AppContext,
    ready: MountReady,
    created: bool,
    host: HostFiles,
    r: Result<MountingRun, Failure>,
    after: AppContext,
)
    requires
        mount_started(before, ready, created, host, r, after),
    ensures
        ({
            let sshfs = located(before.ssh_config@.sshfs_bin_path, Program::Sshfs, host);
            &&& r is Ok <==> sshfs is Some && is_known_file(host, sshfs->0)
            &&& r is Ok ==> {
                &&& r->Ok_0.plan.program@ == sshfs->0
                &&& is_new_id("sshmnt_"@, r->Ok_0.request.mount.mount_id@)
                &&& r->Ok_0.request.connection == ready.connection
                &&& r->Ok_0.request.sshfs_bin_path is Some
                &&& r->Ok_0.request.sshfs_bin_path->0@ == sshfs->0
                &&& is_used_as_made(
                    before,
                    ready.connection,
                    r->Ok_0.request.auth_kind,
                    opt_text(r->Ok_0.request.identity_path),
                    r->Ok_0.request.verify_host_key,
                )
            }
            &&& r is Err ==> exists|id: Seq<char>| #[trigger]
                is_new_id("sshmnt_"@, id) && after.ssh_registry.mounts().contains_key(id) && {
                    let m = after.ssh_registry.mounts()[id];
                    &&& m.status == SshMountStatus::Failed
                    &&& m.last_error is Some && m.last_error->0@ == r->Err_0@
                    &&& m.connection_id == ready.connection.connection_id
                    &&& m.local_path@ == ready.local_path@
                    &&& m.remote_path@ == ready.remote_path@
                    &&& after.mount_contexts@.contains_key(id)
                    &&& after.mount_contexts@[id].managed_path == ready.is_managed_path
                    &&& after.mount_contexts@[id].created_local_path == created
                }
        }),
{
    law_connection_is_used_as_it_was_made(before, ready.connection);
    if r is Err {
        let why = r->Err_0@;
        let m = choose|m: SshMountSummary|
            {
                &&& #[trigger] is_new_mount(m, ready)
                &&& mount_recorded(before, after, after.ssh_registry.mounts()[m.mount_id@])
                &&& is_failed_mount(after.ssh_registry.mounts()[m.mount_id@], m, why)
                &&& after.mount_contexts@ == before.mount_contexts@.insert(
                    m.mount_id@,
                    SshMountRuntimeContext {
                        managed_path: ready.is_managed_path,
                        created_local_path: created,
                    },
                )
            };
        assert(is_new_id("sshmnt_"@, m.mount_id@));
    }
}

/// A known mount is taken away by `umount` where that is found; where no place for it is
/// known, by `diskutil`, on macOS, with force, where that is found; and else it cannot be
/// taken away.
pub proof fn law_unmounting_needs_a_program(
    before: AppContext,
    request: SshUnmountRequest,
    host: HostFiles,
    r: Result<UnmountProgress, Failure>,
    after: AppContext,
)
    requires
        unmount_begun(before, request, host, r, after),
        before.ssh_registry.mounts().contains_key(request.mount_id@),
    ensures
        ({
            let umount = located(before.ssh_config@.umount_bin_path, Program::Umount, host);
            let diskutil = located(before.ssh_config@.diskutil_bin_path, Program::Diskutil, host);
            let helps = before.ssh_capabilities.platform@ == "macos"@ && request.force && diskutil
                is Some && is_known_file(host, diskutil->0);
            &&& umount is Some && is_known_file(host, umount->0) ==> r is Ok && r->Ok_0 is Umount
                && r->Ok_0->Umount_plan.program@ == umount->0
            &&& umount is Some && !is_known_file(host, umount->0) ==> r is Err
            &&& umount is None && helps ==> r is Ok && r->Ok_0 is Diskutil
                && r->Ok_0->Diskutil_plan.program@ == diskutil->0
            &&& umount is None && !helps ==> r is Err
        }),
{
}

} // verus!
