//! The resources: what there is to read, and what is read.
use crate::app::context::AppContext;
use crate::app::history::{
    ids_are_new, is_history, law_reached_states_have_new_identifiers, AppStep,
};
use crate::app::ssh_connections::{can_mount, SshService};
use crate::buffer::store::{
    is_page, is_part_of, law_page_shows_what_is_asked, page_lines, shown,
};
use crate::buffer::view::{BufferReadPage, BufferReadRequest, BufferView};
use crate::error::Failure;
use crate::ordered::{lemma_sorted_distinct, lists_in_order};
use crate::outside::is_new_id;
use crate::path::lemma_split_of_joined;
use crate::session::model::{SessionId, SessionStatus, SessionSummary};
use crate::ssh::model::{SshConnectionId, SshConnectionSummary, SshMountId, SshMountSummary};
use crate::text::{
    cat2, cat3, contains_char, is_blank, joined, lemma_not_blank, same, split, split_on, strip_prefix, texts,
};
use vstd::prelude::*;

verus! {

/// How many lines the tail of a session's output has at most.
pub const TAIL_LINE_COUNT: usize = 100;

/// A resource, or a template for resources, as it is listed.
#[derive(Debug, PartialEq, Eq)]
pub struct ResourceEntry {
    pub uri: String,
    pub name: String,
    pub title: String,
    pub description: String,
    pub mime_type: String,
}

/// The content of a listed resource.
pub struct ResourceText {
    pub uri: Seq<char>,
    pub name: Seq<char>,
    pub title: Seq<char>,
    pub description: Seq<char>,
    pub mime_type: Seq<char>,
}

impl ResourceEntry {
    /// What the entry says.
    pub open spec fn view(&self) -> ResourceText {
        ResourceText {
            uri: self.uri@,
            name: self.name@,
            title: self.title@,
            description: self.description@,
            mime_type: self.mime_type@,
        }
    }
}

/// What listed resources say.
pub open spec fn resource_texts(list: Seq<ResourceEntry>) -> Seq<ResourceText> {
    list.map_values(|e: ResourceEntry| e@)
}

/// A structured resource.
pub open spec fn json_resource(
    uri: Seq<char>,
    name: Seq<char>,
    title: Seq<char>,
    description: Seq<char>,
) -> ResourceText {
    ResourceText { uri, name, title, description, mime_type: "application/json"@ }
}

/// A guide.
pub open spec fn guide_resource(
    uri: Seq<char>,
    name: Seq<char>,
    title: Seq<char>,
    description: Seq<char>,
) -> ResourceText {
    ResourceText { uri, name, title, description, mime_type: "text/markdown"@ }
}

/// The resources that are always there.
pub open spec fn fixed_resources(platform: Seq<char>) -> Seq<ResourceText> {
    seq![
        json_resource(
            "pty://sessions"@,
            "sessions"@,
            "PTY Sessions"@,
            "Structured summary of all known PTY sessions."@,
        ),
        json_resource(
            "ssh://connections"@,
            "ssh-connections"@,
            "SSH Connections"@,
            "Structured summary of all known SSH connections."@,
        ),
        guide_resource(
            "ssh://docs/mount-setup"@,
            "ssh-mount-setup"@,
            "SSH Mount Setup Guide"@,
            "Agent-facing installation and troubleshooting guide for local sshfs/FUSE setup."@,
        ),
        guide_resource(
            "ssh://docs/mount-setup/"@ + platform,
            "ssh-mount-setup-"@ + platform,
            "SSH Mount Setup Guide ("@ + platform + ")"@,
            "Platform-specific guide for local sshfs/FUSE setup."@,
        ),
    ]
}

/// The resource that lists the mounts.
pub open spec fn mounts_resource() -> ResourceText {
    json_resource(
        "ssh://mounts"@,
        "ssh-mounts"@,
        "SSH Mounts"@,
        "Structured summary of all known SSH mounts."@,
    )
}

/// The resources of a session.
pub open spec fn session_resources(id: Seq<char>) -> Seq<ResourceText> {
    seq![
        json_resource(
            "pty://sessions/"@ + id,
            "session-"@ + id,
            "Session "@ + id,
            "Structured PTY session snapshot."@,
        ),
        json_resource(
            "pty://sessions/"@ + id + "/buffer"@,
            "session-"@ + id + "-buffer"@,
            "Session "@ + id + " Buffer"@,
            "Structured retained PTY buffer."@,
        ),
        json_resource(
            "pty://sessions/"@ + id + "/tail"@,
            "session-"@ + id + "-tail"@,
            "Session "@ + id + " Tail"@,
            "Structured tail view of the retained PTY buffer."@,
        ),
    ]
}

/// The resources of sessions.
pub open spec fn all_session_resources(ids: Seq<Seq<char>>) -> Seq<ResourceText>
    decreases ids.len(),
{
    if ids.len() == 0 {
        seq![]
    } else {
        all_session_resources(ids.drop_last()) + session_resources(ids.last())
    }
}

/// The resource of a connection.
pub open spec fn connection_resource(id: Seq<char>) -> ResourceText {
    json_resource(
        "ssh://connections/"@ + id,
        "ssh-connection-"@ + id,
        "SSH Connection "@ + id,
        "Structured SSH connection snapshot."@,
    )
}

/// The resource of a mount.
pub open spec fn mount_resource(id: Seq<char>) -> ResourceText {
    json_resource(
        "ssh://mounts/"@ + id,
        "ssh-mount-"@ + id,
        "SSH Mount "@ + id,
        "Structured SSH mount snapshot."@,
    )
}

/// All resources: the fixed ones, then those of the sessions, of the connections
/// and, where mounts can be made, of the mounts.
pub open spec fn all_resources(context: AppContext) -> Seq<ResourceText> {
    let mounts = can_mount(context.ssh_capabilities);
    fixed_resources(context.ssh_capabilities.platform@) + (if mounts {
        seq![mounts_resource()]
    } else {
        seq![]
    }) + all_session_resources(context.registry.ids())
        + context.ssh_registry.connection_ids().map_values(
        |id: Seq<char>| connection_resource(id),
    ) + (if mounts {
        context.ssh_registry.mount_ids().map_values(|id: Seq<char>| mount_resource(id))
    } else {
        seq![]
    })
}

/// The templates for resources.
pub open spec fn all_templates(mounts: bool) -> Seq<ResourceText> {
    seq![
        json_resource(
            "pty://sessions/{id}"@,
            "session"@,
            "PTY Session Snapshot"@,
            "Snapshot for a single PTY session."@,
        ),
        json_resource(
            "pty://sessions/{id}/buffer"@,
            "session-buffer"@,
            "PTY Session Buffer"@,
            "Retained buffer for a PTY session."@,
        ),
        json_resource(
            "pty://sessions/{id}/tail"@,
            "session-tail"@,
            "PTY Session Tail"@,
            "Tail view of the retained PTY buffer."@,
        ),
        json_resource(
            "ssh://connections/{id}"@,
            "ssh-connection"@,
            "SSH Connection Snapshot"@,
            "Snapshot for a single SSH connection."@,
        ),
        guide_resource(
            "ssh://docs/mount-setup/{platform}"@,
            "ssh-mount-setup-platform"@,
            "SSH Mount Setup Guide (Platform)"@,
            "Platform-specific installation and troubleshooting guide."@,
        ),
    ] + (if mounts {
        seq![
            json_resource(
                "ssh://mounts/{id}"@,
                "ssh-mount"@,
                "SSH Mount Snapshot"@,
                "Snapshot for a single SSH mount."@,
            ),
        ]
    } else {
        seq![]
    })
}

/// The guides about mounts.
#[derive(Debug, Clone, Copy, PartialEq, Eq, Structural)]
pub enum MountGuide {
    Overview,
    Macos,
    Linux,
    Generic,
}

/// What is read of a resource.
#[derive(Debug, PartialEq, Eq)]
pub enum ResourceBody {
    Sessions(Vec<SessionSummary>),
    Connections(Vec<SshConnectionSummary>),
    Mounts(Vec<SshMountSummary>),
    Guide(MountGuide),
    Session(SessionSummary),
    Buffer { session_id: SessionId, status: SessionStatus, page: BufferReadPage },
    Tail { session_id: SessionId, status: SessionStatus, page: BufferReadPage },
    Connection(SshConnectionSummary),
    Mount(SshMountSummary),
}

/// Why a resource cannot be read.
#[derive(Debug, PartialEq, Eq)]
pub enum ResourceError {
    NotFound,
    Internal(Failure),
}

fn entry(uri: String, name: String, title: String, description: &str, mime_type: &str) -> (r:
    ResourceEntry)
    ensures
        r@ == (ResourceText {
            uri: uri@,
            name: name@,
            title: title@,
            description: description@,
            mime_type: mime_type@,
        }),
{
    ResourceEntry {
        uri,
        name,
        title,
        description: description.to_owned(),
        mime_type: mime_type.to_owned(),
    }
}

fn fixed_entry(uri: &str, name: &str, title: &str, description: &str, mime_type: &str) -> (r:
    ResourceEntry)
    ensures
        r@ == (ResourceText {
            uri: uri@,
            name: name@,
            title: title@,
            description: description@,
            mime_type: mime_type@,
        }),
{
    entry(uri.to_owned(), name.to_owned(), title.to_owned(), description, mime_type)
}

fn put(list: &mut Vec<ResourceEntry>, e: ResourceEntry)
    ensures
        resource_texts(final(list)@) == resource_texts(old(list)@).push(e@),
{
    let ghost before = list@;
    list.push(e);
    assert(resource_texts(list@) =~= resource_texts(before).push(e@));
}

fn put_session(list: &mut Vec<ResourceEntry>, id: &str)
    ensures
        resource_texts(final(list)@) == resource_texts(old(list)@) + session_resources(id@),
{
    let ghost before = resource_texts(list@);
    put(
        list,
        entry(
            cat2("pty://sessions/", id),
            cat2("session-", id),
            cat2("Session ", id),
            "Structured PTY session snapshot.",
            "application/json",
        ),
    );
    put(
        list,
        entry(
            cat3("pty://sessions/", id, "/buffer"),
            cat3("session-", id, "-buffer"),
            cat3("Session ", id, " Buffer"),
            "Structured retained PTY buffer.",
            "application/json",
        ),
    );
    put(
        list,
        entry(
            cat3("pty://sessions/", id, "/tail"),
            cat3("session-", id, "-tail"),
            cat3("Session ", id, " Tail"),
            "Structured tail view of the retained PTY buffer.",
            "application/json",
        ),
    );
    assert(resource_texts(list@) =~= before + session_resources(id@));
}

fn fixed_list(platform: &str) -> (r: Vec<ResourceEntry>)
    ensures
        resource_texts(r@) == fixed_resources(platform@),
{
    let mut r: Vec<ResourceEntry> = Vec::new();
    r.push(
        fixed_entry(
            "pty://sessions",
            "sessions",
            "PTY Sessions",
            "Structured summary of all known PTY sessions.",
            "application/json",
        ),
    );
    r.push(
        fixed_entry(
            "ssh://connections",
            "ssh-connections",
            "SSH Connections",
            "Structured summary of all known SSH connections.",
            "application/json",
        ),
    );
    r.push(
        fixed_entry(
            "ssh://docs/mount-setup",
            "ssh-mount-setup",
            "SSH Mount Setup Guide",
            "Agent-facing installation and troubleshooting guide for local sshfs/FUSE setup.",
            "text/markdown",
        ),
    );
    r.push(
        entry(
            cat2("ssh://docs/mount-setup/", platform),
            cat2("ssh-mount-setup-", platform),
            cat3("SSH Mount Setup Guide (", platform, ")"),
            "Platform-specific guide for local sshfs/FUSE setup.",
            "text/markdown",
        ),
    );
    assert(resource_texts(r@) =~= fixed_resources(platform@));
    r
}

/// All resources.
pub fn list_resources(context: &AppContext) -> (r: Vec<ResourceEntry>)
    requires
        context.wf(),
    ensures
        resource_texts(r@) == all_resources(*context),
{
    let mounts = SshService::mount_feature_available(context);
    let mut r = fixed_list(context.ssh_capabilities.platform.as_str());
    let ghost fixed = resource_texts(r@);
    if mounts {
        put(
            &mut r,
            fixed_entry(
                "ssh://mounts",
                "ssh-mounts",
                "SSH Mounts",
                "Structured summary of all known SSH mounts.",
                "application/json",
            ),
        );
    }
    let ghost head = resource_texts(r@);
    proof {
        assert(head =~= fixed + (if mounts {
            seq![mounts_resource()]
        } else {
            seq![]
        }));
    }
    put_sessions(&mut r, context);
    put_connections(&mut r, context);
    let ghost with_connections = resource_texts(r@);
    if mounts {
        put_mounts(&mut r, context);
    } else {
        assert(with_connections =~= with_connections + Seq::<ResourceText>::empty());
    }
    r
}

fn put_sessions(list: &mut Vec<ResourceEntry>, context: &AppContext)
    requires
        context.wf(),
    ensures
        resource_texts(final(list)@) == resource_texts(old(list)@) + all_session_resources(
            context.registry.ids(),
        ),
{
    let sessions = context.registry.list();
    let ghost start = resource_texts(list@);
    let ghost ids = context.registry.ids();
    let mut i: usize = 0;
    proof {
        assert(ids.take(0) =~= seq![]);
        assert(start =~= start + all_session_resources(ids.take(0)));
    }
    while i < sessions.len()
        invariant
            context.wf(),
            i <= sessions@.len(),
            ids == context.registry.ids(),
            sessions@.len() == ids.len(),
            forall|k: int|
                0 <= k < sessions@.len() ==> context.registry.sessions()[ids[k]].summary.same_as(
                    #[trigger] sessions@[k],
                ),
            resource_texts(list@) == start + all_session_resources(ids.take(i as int)),
        decreases sessions@.len() - i,
    {
        let ghost before = resource_texts(list@);
        proof {
            context.registry.lemma_ids();
            assert(ids.contains(ids[i as int]));
            assert(ids.to_set().contains(ids[i as int]));
            context.registry.lemma_wf(ids[i as int]);
            assert(sessions@[i as int].session_id@ == ids[i as int]);
        }
        put_session(list, sessions[i].session_id.as_str());
        i = i + 1;
        proof {
            let t = ids.take(i as int);
            assert(t.drop_last() =~= ids.take(i - 1));
            assert(t.last() == ids[i - 1]);
            assert(before + session_resources(ids[i - 1]) =~= start + all_session_resources(t));
        }
    }
    assert(ids.take(i as int) =~= ids);
}

fn put_connections(list: &mut Vec<ResourceEntry>, context: &AppContext)
    requires
        context.wf(),
    ensures
        resource_texts(final(list)@) == resource_texts(old(list)@)
            + context.ssh_registry.connection_ids().map_values(
            |id: Seq<char>| connection_resource(id),
        ),
{
    let connections = context.ssh_registry.list_connections();
    let ghost start = resource_texts(list@);
    let ghost ids = context.ssh_registry.connection_ids();
    let ghost all = ids.map_values(|id: Seq<char>| connection_resource(id));
    let mut i: usize = 0;
    proof {
        context.ssh_registry.lemma_ids();
        assert(start =~= start + all.take(0));
    }
    while i < connections.len()
        invariant
            context.wf(),
            i <= connections@.len(),
            ids == context.ssh_registry.connection_ids(),
            connections@ == ids.map_values(
                |k: Seq<char>| context.ssh_registry.connections()[k],
            ),
            all == ids.map_values(|id: Seq<char>| connection_resource(id)),
            lists_in_order(ids, context.ssh_registry.connections().dom()),
            forall|k: Seq<char>| #[trigger]
                context.ssh_registry.connections().contains_key(k)
                    ==> context.ssh_registry.connections()[k].connection_id@ == k,
            resource_texts(list@) == start + all.take(i as int),
        decreases connections@.len() - i,
    {
        proof {
            assert(ids.contains(ids[i as int]));
            assert(ids.to_set().contains(ids[i as int]));
            assert(context.ssh_registry.connections().contains_key(ids[i as int]));
        }
        let id = connections[i].connection_id.as_str();
        put(
            list,
            entry(
                cat2("ssh://connections/", id),
                cat2("ssh-connection-", id),
                cat2("SSH Connection ", id),
                "Structured SSH connection snapshot.",
                "application/json",
            ),
        );
        i = i + 1;
        proof {
            assert(all.take(i as int) =~= all.take(i - 1).push(all[i - 1]));
            assert(resource_texts(list@) =~= start + all.take(i as int));
        }
    }
    assert(all.take(i as int) =~= all);
}

fn put_mounts(list: &mut Vec<ResourceEntry>, context: &AppContext)
    requires
        context.wf(),
    ensures
        resource_texts(final(list)@) == resource_texts(old(list)@)
            + context.ssh_registry.mount_ids().map_values(|id: Seq<char>| mount_resource(id)),
{
    let mounts = context.ssh_registry.list_mounts();
    let ghost start = resource_texts(list@);
    let ghost ids = context.ssh_registry.mount_ids();
    let ghost all = ids.map_values(|id: Seq<char>| mount_resource(id));
    let mut i: usize = 0;
    proof {
        context.ssh_registry.lemma_ids();
        assert(start =~= start + all.take(0));
    }
    while i < mounts.len()
        invariant
            context.wf(),
            i <= mounts@.len(),
            ids == context.ssh_registry.mount_ids(),
            mounts@ == ids.map_values(|k: Seq<char>| context.ssh_registry.mounts()[k]),
            all == ids.map_values(|id: Seq<char>| mount_resource(id)),
            lists_in_order(ids, context.ssh_registry.mounts().dom()),
            forall|k: Seq<char>| #[trigger]
                context.ssh_registry.mounts().contains_key(k)
                    ==> context.ssh_registry.mounts()[k].mount_id@ == k,
            resource_texts(list@) == start + all.take(i as int),
        decreases mounts@.len() - i,
    {
        proof {
            assert(ids.contains(ids[i as int]));
            assert(ids.to_set().contains(ids[i as int]));
            assert(context.ssh_registry.mounts().contains_key(ids[i as int]));
        }
        let id = mounts[i].mount_id.as_str();
        put(
            list,
            entry(
                cat2("ssh://mounts/", id),
                cat2("ssh-mount-", id),
                cat2("SSH Mount ", id),
                "Structured SSH mount snapshot.",
                "application/json",
            ),
        );
        i = i + 1;
        proof {
            assert(all.take(i as int) =~= all.take(i - 1).push(all[i - 1]));
            assert(resource_texts(list@) =~= start + all.take(i as int));
        }
    }
    assert(all.take(i as int) =~= all);
}

/// The templates for resources.
pub fn list_resource_templates(context: &AppContext) -> (r: Vec<ResourceEntry>)
    ensures
        resource_texts(r@) == all_templates(can_mount(context.ssh_capabilities)),
{
    let mut r: Vec<ResourceEntry> = Vec::new();
    r.push(
        fixed_entry(
            "pty://sessions/{id}",
            "session",
            "PTY Session Snapshot",
            "Snapshot for a single PTY session.",
            "application/json",
        ),
    );
    r.push(
        fixed_entry(
            "pty://sessions/{id}/buffer",
            "session-buffer",
            "PTY Session Buffer",
            "Retained buffer for a PTY session.",
            "application/json",
        ),
    );
    r.push(
        fixed_entry(
            "pty://sessions/{id}/tail",
            "session-tail",
            "PTY Session Tail",
            "Tail view of the retained PTY buffer.",
            "application/json",
        ),
    );
    r.push(
        fixed_entry(
            "ssh://connections/{id}",
            "ssh-connection",
            "SSH Connection Snapshot",
            "Snapshot for a single SSH connection.",
            "application/json",
        ),
    );
    r.push(
        fixed_entry(
            "ssh://docs/mount-setup/{platform}",
            "ssh-mount-setup-platform",
            "SSH Mount Setup Guide (Platform)",
            "Platform-specific installation and troubleshooting guide.",
            "text/markdown",
        ),
    );
    if SshService::mount_feature_available(context) {
        r.push(
            fixed_entry(
                "ssh://mounts/{id}",
                "ssh-mount",
                "SSH Mount Snapshot",
                "Snapshot for a single SSH mount.",
                "application/json",
            ),
        );
    }
    assert(resource_texts(r@) =~= all_templates(can_mount(context.ssh_capabilities)));
    r
}

/// The guide for a platform.
pub open spec fn guide_for(platform: Seq<char>) -> MountGuide {
    if platform == "macos"@ || platform == "darwin"@ {
        MountGuide::Macos
    } else if platform == "linux"@ {
        MountGuide::Linux
    } else {
        MountGuide::Generic
    }
}

/// The guide for a platform.
pub fn ssh_mount_setup_guide(platform: &str) -> (r: MountGuide)
    ensures
        r == guide_for(platform@),
{
    if same(platform, "macos") || same(platform, "darwin") {
        MountGuide::Macos
    } else if same(platform, "linux") {
        MountGuide::Linux
    } else {
        MountGuide::Generic
    }
}

/// How all output of a session is read: as many lines as its summary counts, and
/// one at least.
pub open spec fn buffer_request(s: SessionSummary) -> BufferReadRequest {
    BufferReadRequest {
        offset: 0,
        limit: if s.buffer_stats.line_count >= 1 {
            s.buffer_stats.line_count
        } else {
            1
        },
        pattern: None,
        ignore_case: false,
        view: BufferView::Plain,
    }
}

/// How the last output of a session is read.
pub open spec fn tail_request(s: SessionSummary) -> BufferReadRequest {
    BufferReadRequest {
        offset: if s.buffer_stats.line_count > TAIL_LINE_COUNT {
            (s.buffer_stats.line_count - TAIL_LINE_COUNT) as usize
        } else {
            0
        },
        limit: TAIL_LINE_COUNT,
        pattern: None,
        ignore_case: false,
        view: BufferView::Plain,
    }
}

/// What is read of a session's resource, whose address is given behind its prefix.
pub open spec fn session_resource_reads(
    context: AppContext,
    path: Seq<char>,
    r: Result<ResourceBody, ResourceError>,
) -> bool {
    let parts = split_on(path, '/');
    let id = parts[0];
    let e = context.registry.sessions()[id];
    if id.len() == 0 || !context.registry.sessions().contains_key(id) {
        r == Err::<ResourceBody, ResourceError>(ResourceError::NotFound)
    } else if parts.len() == 1 {
        r matches Ok(ResourceBody::Session(s)) && e.summary.same_as(s)
    } else if parts[1] == "buffer"@ {
        &&& r matches Ok(ResourceBody::Buffer { session_id, status, page })
        &&& session_id@ == id
        &&& status == e.summary.status
        &&& is_page(e.buffer@, buffer_request(e.summary), page)
    } else if parts[1] == "tail"@ {
        &&& r matches Ok(ResourceBody::Tail { session_id, status, page })
        &&& session_id@ == id
        &&& status == e.summary.status
        &&& is_page(e.buffer@, tail_request(e.summary), page)
    } else {
        r == Err::<ResourceBody, ResourceError>(ResourceError::NotFound)
    }
}

/// Whether a text is one part of an address.
pub open spec fn is_one_part(s: Seq<char>) -> bool {
    s.len() > 0 && !s.contains('/')
}

/// What is read of a resource.
pub open spec fn resource_reads(
    context: AppContext,
    uri: Seq<char>,
    r: Result<ResourceBody, ResourceError>,
) -> bool {
    let mounts = can_mount(context.ssh_capabilities);
    let not_found = Err::<ResourceBody, ResourceError>(ResourceError::NotFound);
    if uri == "pty://sessions"@ {
        &&& r matches Ok(ResourceBody::Sessions(list))
        &&& list@.len() == context.registry.ids().len()
        &&& forall|i: int|
            0 <= i < list@.len()
                ==> context.registry.sessions()[context.registry.ids()[i]].summary.same_as(
                #[trigger] list@[i],
            )
    } else if uri == "ssh://connections"@ {
        &&& r matches Ok(ResourceBody::Connections(list))
        &&& list@ == context.ssh_registry.connection_ids().map_values(
            |k: Seq<char>| context.ssh_registry.connections()[k],
        )
    } else if uri == "ssh://mounts"@ && mounts {
        &&& r matches Ok(ResourceBody::Mounts(list))
        &&& list@ == context.ssh_registry.mount_ids().map_values(
            |k: Seq<char>| context.ssh_registry.mounts()[k],
        )
    } else if uri == "ssh://docs/mount-setup"@ {
        r == Ok::<ResourceBody, ResourceError>(ResourceBody::Guide(MountGuide::Overview))
    } else if "pty://sessions/"@.is_prefix_of(uri) {
        session_resource_reads(context, uri.skip("pty://sessions/"@.len() as int), r)
    } else if "ssh://connections/"@.is_prefix_of(uri) {
        let id = uri.skip("ssh://connections/"@.len() as int);
        if is_one_part(id) && !is_blank(id) && context.ssh_registry.connections().contains_key(
            id,
        ) {
            r == Ok::<ResourceBody, ResourceError>(
                ResourceBody::Connection(context.ssh_registry.connections()[id]),
            )
        } else {
            r == not_found
        }
    } else if "ssh://mounts/"@.is_prefix_of(uri) && mounts {
        let id = uri.skip("ssh://mounts/"@.len() as int);
        if is_one_part(id) && !is_blank(id) && context.ssh_registry.mounts().contains_key(id) {
            r == Ok::<ResourceBody, ResourceError>(
                ResourceBody::Mount(context.ssh_registry.mounts()[id]),
            )
        } else {
            r == not_found
        }
    } else if "ssh://docs/mount-setup/"@.is_prefix_of(uri) {
        let platform = uri.skip("ssh://docs/mount-setup/"@.len() as int);
        if is_one_part(platform) {
            r == Ok::<ResourceBody, ResourceError>(ResourceBody::Guide(guide_for(platform)))
        } else {
            r == not_found
        }
    } else {
        r == not_found
    }
}

/// Reads a resource.
pub fn read_resource(context: &AppContext, uri: &str) -> (r: Result<ResourceBody, ResourceError>)
    requires
        context.wf(),
    ensures
        resource_reads(*context, uri@, r),
{
    let mounts = SshService::mount_feature_available(context);
    if same(uri, "pty://sessions") {
        return Ok(ResourceBody::Sessions(context.registry.list()));
    }
    if same(uri, "ssh://connections") {
        return Ok(ResourceBody::Connections(context.ssh_registry.list_connections()));
    }
    if same(uri, "ssh://mounts") && mounts {
        return Ok(ResourceBody::Mounts(context.ssh_registry.list_mounts()));
    }
    if same(uri, "ssh://docs/mount-setup") {
        return Ok(ResourceBody::Guide(MountGuide::Overview));
    }
    match strip_prefix(uri, "pty://sessions/") {
        Some(path) => {
            return read_session_resource(context, path);
        },
        None => {},
    }
    match strip_prefix(uri, "ssh://connections/") {
        Some(id) => {
            return read_ssh_connection_resource(context, id);
        },
        None => {},
    }
    if mounts {
        match strip_prefix(uri, "ssh://mounts/") {
            Some(id) => {
                return read_ssh_mount_resource(context, id);
            },
            None => {},
        }
    }
    match strip_prefix(uri, "ssh://docs/mount-setup/") {
        Some(platform) => {
            if platform.is_empty() || contains_char(platform, '/') {
                Err(ResourceError::NotFound)
            } else {
                Ok(ResourceBody::Guide(ssh_mount_setup_guide(platform)))
            }
        },
        None => Err(ResourceError::NotFound),
    }
}

fn read_session_resource(context: &AppContext, path: &str) -> (r: Result<
    ResourceBody,
    ResourceError,
>)
    requires
        context.wf(),
    ensures
        session_resource_reads(*context, path@, r),
{
    let parts = split(path, '/');
    proof {
        assert(split_on(path@, '/').len() > 0);
        assert(texts(parts@).len() == parts@.len());
        assert(texts(parts@)[0] == parts@[0]@);
    }
    if parts[0].as_str().is_empty() {
        return Err(ResourceError::NotFound);
    }
    let session_id = SessionId::of(parts[0].as_str());
    let session = match context.registry.get(&session_id) {
        Some(s) => s,
        None => {
            return Err(ResourceError::NotFound);
        },
    };
    if parts.len() == 1 {
        return Ok(ResourceBody::Session(session));
    }
    assert(texts(parts@)[1] == parts@[1]@);
    let count: usize = session.buffer_stats.line_count;
    if same(parts[1].as_str(), "buffer") {
        let request = BufferReadRequest {
            offset: 0,
            limit: if count >= 1 {
                count
            } else {
                1
            },
            pattern: None,
            ignore_case: false,
            view: BufferView::Plain,
        };
        match context.registry.read_output(&session_id, &request) {
            Ok(page) => Ok(ResourceBody::Buffer { session_id, status: session.status, page }),
            Err(e) => Err(ResourceError::Internal(e)),
        }
    } else if same(parts[1].as_str(), "tail") {
        let request = BufferReadRequest {
            offset: if count > TAIL_LINE_COUNT {
                count - TAIL_LINE_COUNT
            } else {
                0
            },
            limit: TAIL_LINE_COUNT,
            pattern: None,
            ignore_case: false,
            view: BufferView::Plain,
        };
        match context.registry.read_output(&session_id, &request) {
            Ok(page) => Ok(ResourceBody::Tail { session_id, status: session.status, page }),
            Err(e) => Err(ResourceError::Internal(e)),
        }
    } else {
        Err(ResourceError::NotFound)
    }
}

fn read_ssh_connection_resource(context: &AppContext, id: &str) -> (r: Result<
    ResourceBody,
    ResourceError,
>)
    requires
        context.wf(),
    ensures
        if is_one_part(id@) && !is_blank(id@) && context.ssh_registry.connections().contains_key(
            id@,
        ) {
            r == Ok::<ResourceBody, ResourceError>(
                ResourceBody::Connection(context.ssh_registry.connections()[id@]),
            )
        } else {
            r == Err::<ResourceBody, ResourceError>(ResourceError::NotFound)
        },
{
    if id.is_empty() || contains_char(id, '/') {
        return Err(ResourceError::NotFound);
    }
    match SshConnectionId::parse(id) {
        Err(_) => Err(ResourceError::NotFound),
        Ok(connection_id) => match context.ssh_registry.get_connection(&connection_id) {
            Some(c) => Ok(ResourceBody::Connection(c)),
            None => Err(ResourceError::NotFound),
        },
    }
}

fn read_ssh_mount_resource(context: &AppContext, id: &str) -> (r: Result<
    ResourceBody,
    ResourceError,
>)
    requires
        context.wf(),
    ensures
        if is_one_part(id@) && !is_blank(id@) && context.ssh_registry.mounts().contains_key(id@) {
            r == Ok::<ResourceBody, ResourceError>(
                ResourceBody::Mount(context.ssh_registry.mounts()[id@]),
            )
        } else {
            r == Err::<ResourceBody, ResourceError>(ResourceError::NotFound)
        },
{
    if id.is_empty() || contains_char(id, '/') {
        return Err(ResourceError::NotFound);
    }
    match SshMountId::parse(id) {
        Err(_) => Err(ResourceError::NotFound),
        Ok(mount_id) => match context.ssh_registry.get_mount(&mount_id) {
            Some(m) => Ok(ResourceBody::Mount(m)),
            None => Err(ResourceError::NotFound),
        },
    }
}

/// A text behind a prefix.
proof fn lemma_behind_prefix(prefix: Seq<char>, rest: Seq<char>)
    ensures
        prefix.is_prefix_of(prefix + rest),
        (prefix + rest).skip(prefix.len() as int) == rest,
        (prefix + rest).len() == prefix.len() + rest.len(),
        prefix.len() > 0 ==> (prefix + rest)[0] == prefix[0],
{
    assert((prefix + rest).skip(prefix.len() as int) =~= rest);
}

/// What the addresses of all resources have in common, and what sets them apart.
proof fn lemma_addresses()
    ensures
        "pty://sessions"@.len() == 14,
        "pty://sessions"@[0] == 'p',
        "ssh://connections"@.len() == 17,
        "ssh://connections"@[0] == 's',
        "ssh://connections"@[6] == 'c',
        "ssh://mounts"@.len() == 12,
        "ssh://mounts"@[0] == 's',
        "ssh://mounts"@[6] == 'm',
        "ssh://docs/mount-setup"@.len() == 22,
        "ssh://docs/mount-setup"@[0] == 's',
        "ssh://docs/mount-setup"@[6] == 'd',
        "pty://sessions/"@.len() == 15,
        "pty://sessions/"@[0] == 'p',
        "ssh://connections/"@.len() == 18,
        "ssh://connections/"@[0] == 's',
        "ssh://connections/"@[6] == 'c',
        "ssh://mounts/"@.len() == 13,
        "ssh://mounts/"@[0] == 's',
        "ssh://mounts/"@[6] == 'm',
        "ssh://docs/mount-setup/"@.len() == 23,
        "ssh://docs/mount-setup/"@[0] == 's',
        "ssh://docs/mount-setup/"@[6] == 'd',
{
    reveal_strlit("pty://sessions");
    reveal_strlit("ssh://connections");
    reveal_strlit("ssh://mounts");
    reveal_strlit("ssh://docs/mount-setup");
    reveal_strlit("pty://sessions/");
    reveal_strlit("ssh://connections/");
    reveal_strlit("ssh://mounts/");
    reveal_strlit("ssh://docs/mount-setup/");
}

/// The parts of an address of a session's resource.
proof fn lemma_session_address_parts(id: Seq<char>)
    requires
        !id.contains('/'),
    ensures
        split_on(id, '/') == seq![id],
        split_on(id + "/buffer"@, '/') == seq![id, "buffer"@],
        split_on(id + "/tail"@, '/') == seq![id, "tail"@],
{
    reveal_strlit("/buffer");
    reveal_strlit("buffer");
    reveal_strlit("/tail");
    reveal_strlit("tail");
    let slash = seq!['/'];
    let one = seq![id];
    lemma_split_of_joined(one, '/');
    lemma_two_parts(id, "buffer"@);
    lemma_two_parts(id, "tail"@);
    assert(id + "/buffer"@ =~= id + slash + "buffer"@);
    assert(id + "/tail"@ =~= id + slash + "tail"@);
}

proof fn lemma_two_parts(a: Seq<char>, b: Seq<char>)
    requires
        !a.contains('/'),
        !b.contains('/'),
    ensures
        split_on(a + seq!['/'] + b, '/') == seq![a, b],
{
    let parts = seq![a, b];
    lemma_split_of_joined(parts, '/');
    assert(parts.drop_last() =~= seq![a]);
    assert(joined(parts.drop_last(), seq!['/']) == a);
    assert(joined(parts, seq!['/']) =~= a + seq!['/'] + b);
}

/// Each session has three resources.
proof fn lemma_session_resource_count(ids: Seq<Seq<char>>)
    ensures
        all_session_resources(ids).len() == 3 * ids.len(),
    decreases ids.len(),
{
    if ids.len() > 0 {
        lemma_session_resource_count(ids.drop_last());
    }
}

/// Each of the resources of all sessions is one of a session's.
proof fn lemma_some_session_resource(ids: Seq<Seq<char>>, i: int) -> (r: (int, int))
    requires
        0 <= i < all_session_resources(ids).len(),
    ensures
        0 <= r.0 < ids.len(),
        0 <= r.1 < 3,
        i == 3 * r.0 + r.1,
        all_session_resources(ids)[i] == session_resources(ids[r.0])[r.1],
    decreases ids.len(),
{
    lemma_session_resource_count(ids.drop_last());
    let before = all_session_resources(ids.drop_last());
    if i < before.len() {
        let r = lemma_some_session_resource(ids.drop_last(), i);
        assert(ids.drop_last()[r.0] == ids[r.0]);
        r
    } else {
        (ids.len() - 1, i - before.len())
    }
}

/// Whether all identifiers can stand in an address.
pub open spec fn addressable(context: AppContext) -> bool {
    &&& forall|k: Seq<char>| #[trigger]
        context.registry.sessions().contains_key(k) ==> is_one_part(k)
    &&& forall|k: Seq<char>| #[trigger]
        context.ssh_registry.connections().contains_key(k) ==> is_one_part(k) && !is_blank(k)
    &&& forall|k: Seq<char>| #[trigger]
        context.ssh_registry.mounts().contains_key(k) ==> is_one_part(k) && !is_blank(k)
}

proof fn lemma_fixed_resource_reads(
    context: AppContext,
    i: int,
    r: Result<ResourceBody, ResourceError>,
)
    requires
        i == 3 ==> is_one_part(context.ssh_capabilities.platform@),
        0 <= i < 4,
        resource_reads(
            context,
            fixed_resources(context.ssh_capabilities.platform@)[i].uri,
            r,
        ),
    ensures
        r is Ok,
{
    lemma_addresses();
    let platform = context.ssh_capabilities.platform@;
    lemma_behind_prefix("ssh://docs/mount-setup/"@, platform);
    let uri = "ssh://docs/mount-setup/"@ + platform;
    assert(uri[6] == 'd');
}

proof fn lemma_session_resource_reads(
    context: AppContext,
    id: Seq<char>,
    j: int,
    r: Result<ResourceBody, ResourceError>,
)
    requires
        is_one_part(id),
        context.registry.sessions().contains_key(id),
        0 <= j < 3,
        resource_reads(context, session_resources(id)[j].uri, r),
    ensures
        r is Ok,
{
    lemma_addresses();
    lemma_session_address_parts(id);
    let prefix = "pty://sessions/"@;
    reveal_strlit("buffer");
    reveal_strlit("tail");
    let rest = if j == 0 {
        id
    } else if j == 1 {
        id + "/buffer"@
    } else {
        id + "/tail"@
    };
    lemma_behind_prefix(prefix, rest);
    assert(session_resources(id)[j].uri =~= prefix + rest);
    assert("tail"@.len() != "buffer"@.len());
}

proof fn lemma_named_resource_reads(
    context: AppContext,
    id: Seq<char>,
    r: Result<ResourceBody, ResourceError>,
)
    requires
        is_one_part(id),
        !is_blank(id),
    ensures
        context.ssh_registry.connections().contains_key(id) && resource_reads(
            context,
            connection_resource(id).uri,
            r,
        ) ==> r is Ok,
        can_mount(context.ssh_capabilities) && context.ssh_registry.mounts().contains_key(id)
            && resource_reads(context, mount_resource(id).uri, r) ==> r is Ok,
{
    lemma_addresses();
    lemma_behind_prefix("ssh://connections/"@, id);
    lemma_behind_prefix("ssh://mounts/"@, id);
    assert(connection_resource(id).uri[6] == 'c');
    assert(mount_resource(id).uri[6] == 'm');
    assert(connection_resource(id).uri.len() > 18);
    assert(mount_resource(id).uri.len() > 13);
}

/// Every resource that is listed can be read, where the identifiers can stand in
/// an address. The guide of the platform, which is the fourth, needs a platform whose
/// name can stand in one too.
pub proof fn law_every_listed_resource_can_be_read(
    context: AppContext,
    i: int,
    r: Result<ResourceBody, ResourceError>,
)
    requires
        context.wf(),
        addressable(context),
        i == 3 ==> is_one_part(context.ssh_capabilities.platform@),
        0 <= i < all_resources(context).len(),
        resource_reads(context, all_resources(context)[i].uri, r),
    ensures
        r is Ok,
{
    let mounts = can_mount(context.ssh_capabilities);
    let fixed = fixed_resources(context.ssh_capabilities.platform@);
    let listing = if mounts {
        seq![mounts_resource()]
    } else {
        seq![]
    };
    let sessions = all_session_resources(context.registry.ids());
    let connection_ids = context.ssh_registry.connection_ids();
    let mount_ids = context.ssh_registry.mount_ids();
    let named = connection_ids.map_values(|id: Seq<char>| connection_resource(id));
    context.registry.lemma_ids();
    context.ssh_registry.lemma_ids();
    let a = fixed.len() as int;
    let b = a + listing.len();
    let c = b + sessions.len();
    let d = c + named.len();
    if i < a {
        assert(all_resources(context)[i] == fixed[i]);
        lemma_fixed_resource_reads(context, i, r);
    } else if i < b {
        assert(all_resources(context)[i] == mounts_resource());
        lemma_addresses();
    } else if i < c {
        let at = lemma_some_session_resource(context.registry.ids(), i - b);
        let id = context.registry.ids()[at.0];
        assert(context.registry.ids().contains(id));
        assert(context.registry.ids().to_set().contains(id));
        lemma_session_resource_reads(context, id, at.1, r);
    } else if i < d {
        let id = connection_ids[i - c];
        assert(connection_ids.contains(id));
        assert(connection_ids.to_set().contains(id));
        assert(context.ssh_registry.connections().contains_key(id));
        lemma_named_resource_reads(context, id, r);
    } else {
        let id = mount_ids[i - d];
        assert(mount_ids.contains(id));
        assert(mount_ids.to_set().contains(id));
        assert(context.ssh_registry.mounts().contains_key(id));
        lemma_named_resource_reads(context, id, r);
    }
}

/// The kinds of addresses, told apart by their beginning and their length.
spec fn address_kind(uri: Seq<char>) -> int {
    if uri[0] == 'p' {
        if uri.len() == 14 {
            0
        } else {
            1
        }
    } else if uri[6] == 'c' {
        if uri.len() == 17 {
            2
        } else {
            3
        }
    } else if uri[6] == 'm' {
        if uri.len() == 12 {
            4
        } else {
            5
        }
    } else if uri.len() == 22 {
        6
    } else {
        7
    }
}

/// The kind of each address that is listed.
proof fn lemma_address_kinds(id: Seq<char>)
    ensures
        address_kind("pty://sessions"@) == 0,
        address_kind("pty://sessions/"@ + id) == 1,
        address_kind("pty://sessions/"@ + id + "/buffer"@) == 1,
        address_kind("pty://sessions/"@ + id + "/tail"@) == 1,
        address_kind("ssh://connections"@) == 2,
        address_kind("ssh://connections/"@ + id) == 3,
        address_kind("ssh://mounts"@) == 4,
        address_kind("ssh://mounts/"@ + id) == 5,
        address_kind("ssh://docs/mount-setup"@) == 6,
        address_kind("ssh://docs/mount-setup/"@ + id) == 7,
{
    lemma_addresses();
    assert(("ssh://connections/"@ + id)[6] == 'c');
    assert(("ssh://mounts/"@ + id)[6] == 'm');
    assert(("ssh://docs/mount-setup/"@ + id)[6] == 'd');
}

/// Addresses behind one prefix are the same only where what follows is.
proof fn lemma_prefix_cancels(prefix: Seq<char>, a: Seq<char>, b: Seq<char>)
    requires
        prefix + a == prefix + b,
    ensures
        a == b,
{
    lemma_behind_prefix(prefix, a);
    lemma_behind_prefix(prefix, b);
}

/// The resources of sessions have addresses of their own.
proof fn lemma_session_addresses_differ(a: Seq<char>, j: int, b: Seq<char>, k: int)
    requires
        is_one_part(a),
        is_one_part(b),
        0 <= j < 3,
        0 <= k < 3,
        session_resources(a)[j].uri == session_resources(b)[k].uri,
    ensures
        a == b,
        j == k,
{
    let prefix = "pty://sessions/"@;
    let x = if j == 0 {
        a
    } else if j == 1 {
        a + "/buffer"@
    } else {
        a + "/tail"@
    };
    let y = if k == 0 {
        b
    } else if k == 1 {
        b + "/buffer"@
    } else {
        b + "/tail"@
    };
    assert(session_resources(a)[j].uri =~= prefix + x);
    assert(session_resources(b)[k].uri =~= prefix + y);
    lemma_prefix_cancels(prefix, x, y);
    lemma_session_address_parts(a);
    lemma_session_address_parts(b);
    assert(split_on(x, '/')[0] == a);
    assert(split_on(y, '/')[0] == b);
    reveal_strlit("/buffer");
    reveal_strlit("/tail");
}

/// What the address of a listed resource is: its kind and, where it is one of
/// several of that kind, what stands behind its prefix and which of a session's it
/// is.
proof fn lemma_listed_address(context: AppContext, i: int) -> (r: (int, Seq<char>, int))
    requires
        context.wf(),
        addressable(context),
        0 <= i < all_resources(context).len(),
    ensures
        address_kind(all_resources(context)[i].uri) == r.0,
        ({
            let mounts = can_mount(context.ssh_capabilities);
            let uri = all_resources(context)[i].uri;
            let a = 4 + if mounts {
                1int
            } else {
                0int
            };
            let sessions = context.registry.ids();
            let connections = context.ssh_registry.connection_ids();
            let b = a + 3 * sessions.len();
            let c = b + connections.len();
            if i < a {
                &&& r.0 == if i == 0 {
                    0int
                } else if i == 1 {
                    2
                } else if i == 2 {
                    6
                } else if i == 3 {
                    7
                } else {
                    4
                }
            } else if i < b {
                &&& r.0 == 1
                &&& 0 <= r.2 < 3
                &&& 0 <= (i - a - r.2) / 3 < sessions.len()
                &&& i == a + 3 * ((i - a - r.2) / 3) + r.2
                &&& r.1 == sessions[(i - a - r.2) / 3]
                &&& is_one_part(r.1)
                &&& uri == session_resources(r.1)[r.2].uri
            } else if i < c {
                &&& r.0 == 3
                &&& r.1 == connections[i - b]
                &&& uri == connection_resource(r.1).uri
            } else {
                &&& r.0 == 5
                &&& i < c + context.ssh_registry.mount_ids().len()
                &&& r.1 == context.ssh_registry.mount_ids()[i - c]
                &&& uri == mount_resource(r.1).uri
            }
        }),
{
    let mounts = can_mount(context.ssh_capabilities);
    let listing = if mounts {
        seq![mounts_resource()]
    } else {
        seq![]
    };
    let platform = context.ssh_capabilities.platform@;
    let fixed = fixed_resources(platform);
    let ids = context.registry.ids();
    let sessions = all_session_resources(ids);
    let connections = context.ssh_registry.connection_ids();
    let named = connections.map_values(|id: Seq<char>| connection_resource(id));
    let a = fixed.len() + listing.len();
    let b = a + sessions.len();
    let c = b + named.len();
    lemma_session_resource_count(ids);
    if i < a {
        lemma_address_kinds(platform);
        if i < 4 {
            assert(all_resources(context)[i] == fixed[i]);
        } else {
            assert(all_resources(context)[i] == mounts_resource());
        }
        (address_kind(all_resources(context)[i].uri), platform, 0)
    } else if i < b {
        let at = lemma_some_session_resource(ids, i - a);
        let id = ids[at.0];
        context.registry.lemma_ids();
        assert(ids.contains(id));
        assert(ids.to_set().contains(id));
        assert(all_resources(context)[i] == sessions[i - a]);
        lemma_address_kinds(id);
        assert((i - a - at.1) / 3 == at.0);
        (1, id, at.1)
    } else if i < c {
        let id = connections[i - b];
        assert(all_resources(context)[i] == named[i - b]);
        lemma_address_kinds(id);
        (3, id, 0)
    } else {
        let id = context.ssh_registry.mount_ids()[i - c];
        assert(all_resources(context)[i] == mount_resource(id));
        lemma_address_kinds(id);
        (5, id, 0)
    }
}

/// No two listed resources have the same address, where the identifiers can stand
/// in an address.
pub proof fn law_listed_addresses_differ(context: AppContext, i: int, j: int)
    requires
        context.wf(),
        addressable(context),
        0 <= i < all_resources(context).len(),
        0 <= j < all_resources(context).len(),
        i != j,
    ensures
        all_resources(context)[i].uri != all_resources(context)[j].uri,
{
    if all_resources(context)[i].uri == all_resources(context)[j].uri {
        let x = lemma_listed_address(context, i);
        let y = lemma_listed_address(context, j);
        context.registry.lemma_ids();
        context.ssh_registry.lemma_ids();
        lemma_sorted_distinct(context.registry.ids());
        lemma_sorted_distinct(context.ssh_registry.connection_ids());
        lemma_sorted_distinct(context.ssh_registry.mount_ids());
        if x.0 == 1 {
            lemma_session_addresses_differ(x.1, x.2, y.1, y.2);
        } else if x.0 == 3 {
            lemma_prefix_cancels("ssh://connections/"@, x.1, y.1);
        } else if x.0 == 5 {
            lemma_prefix_cancels("ssh://mounts/"@, x.1, y.1);
        }
    }
}

/// Each session has its own three addresses among the listed ones, each connection
/// has its own and, exactly where mounts can be made, so have the list of mounts and
/// each mount.
pub proof fn law_everything_is_listed(context: AppContext)
    requires
        context.wf(),
    ensures
        ({
            let uris = all_resources(context).map_values(|e: ResourceText| e.uri);
            &&& forall|s: Seq<char>| #[trigger]
                context.registry.sessions().contains_key(s) ==> {
                    &&& uris.contains("pty://sessions/"@ + s)
                    &&& uris.contains("pty://sessions/"@ + s + "/buffer"@)
                    &&& uris.contains("pty://sessions/"@ + s + "/tail"@)
                }
            &&& forall|c: Seq<char>| #[trigger]
                context.ssh_registry.connections().contains_key(c) ==> uris.contains(
                    "ssh://connections/"@ + c,
                )
            &&& can_mount(context.ssh_capabilities) ==> uris.contains("ssh://mounts"@)
            &&& can_mount(context.ssh_capabilities) ==> forall|m: Seq<char>| #[trigger]
                context.ssh_registry.mounts().contains_key(m) ==> uris.contains(
                    "ssh://mounts/"@ + m,
                )
            &&& !can_mount(context.ssh_capabilities) && addressable(context) ==> forall|i: int|
                0 <= i < uris.len() ==> !"ssh://mounts"@.is_prefix_of(#[trigger] uris[i])
        }),
{
    let mounts = can_mount(context.ssh_capabilities);
    let all = all_resources(context);
    let uris = all.map_values(|e: ResourceText| e.uri);
    let ids = context.registry.ids();
    let connections = context.ssh_registry.connection_ids();
    let a = 4 + if mounts {
        1int
    } else {
        0int
    };
    let b = a + 3 * ids.len();
    let c = b + connections.len();
    context.registry.lemma_ids();
    context.ssh_registry.lemma_ids();
    lemma_session_resource_count(ids);
    assert forall|s: Seq<char>| #[trigger] context.registry.sessions().contains_key(s) implies {
        &&& uris.contains("pty://sessions/"@ + s)
        &&& uris.contains("pty://sessions/"@ + s + "/buffer"@)
        &&& uris.contains("pty://sessions/"@ + s + "/tail"@)
    } by {
        assert(ids.to_set().contains(s));
        let k = ids.index_of(s);
        lemma_listed_session(ids, k);
        assert forall|j: int| 0 <= j < 3 implies uris.contains(
            (#[trigger] session_resources(s)[j]).uri,
        ) by {
            assert(all[a + 3 * k + j] == all_session_resources(ids)[3 * k + j]);
            assert(uris[a + 3 * k + j] == session_resources(s)[j].uri);
        }
        assert(session_resources(s)[0].uri == "pty://sessions/"@ + s);
        assert(session_resources(s)[1].uri == "pty://sessions/"@ + s + "/buffer"@);
        assert(session_resources(s)[2].uri == "pty://sessions/"@ + s + "/tail"@);
    }
    assert forall|x: Seq<char>| #[trigger]
        context.ssh_registry.connections().contains_key(x) implies uris.contains(
        "ssh://connections/"@ + x,
    ) by {
        assert(connections.to_set().contains(x));
        let k = connections.index_of(x);
        assert(all[b + k] == connection_resource(x));
        assert(uris[b + k] == "ssh://connections/"@ + x);
    }
    if mounts {
        assert(all[4] == mounts_resource());
        assert(uris[4] == "ssh://mounts"@);
        assert forall|m: Seq<char>| #[trigger]
            context.ssh_registry.mounts().contains_key(m) implies uris.contains(
            "ssh://mounts/"@ + m,
        ) by {
            assert(context.ssh_registry.mount_ids().to_set().contains(m));
            let k = context.ssh_registry.mount_ids().index_of(m);
            assert(all[c + k] == mount_resource(m));
            assert(uris[c + k] == "ssh://mounts/"@ + m);
        }
    } else if addressable(context) {
        lemma_addresses();
        assert forall|i: int| 0 <= i < uris.len() implies !"ssh://mounts"@.is_prefix_of(
            #[trigger] uris[i],
        ) by {
            let x = lemma_listed_address(context, i);
            if "ssh://mounts"@.is_prefix_of(uris[i]) {
                assert("ssh://mounts"@ =~= uris[i].take(12));
                assert(uris[i][0] == 's');
                assert(uris[i][6] == 'm');
            }
        }
    }
}

/// The place of a session's resources.
proof fn lemma_listed_session(ids: Seq<Seq<char>>, k: int)
    requires
        0 <= k < ids.len(),
    ensures
        forall|j: int|
            0 <= j < 3 ==> all_session_resources(ids)[3 * k + j] == #[trigger] session_resources(
                ids[k],
            )[j],
    decreases ids.len(),
{
    let front = ids.drop_last();
    lemma_session_resource_count(front);
    if k < front.len() {
        lemma_listed_session(front, k);
        assert forall|j: int| 0 <= j < 3 implies all_session_resources(ids)[3 * k + j]
            == #[trigger] session_resources(ids[k])[j] by {
            assert(front[k] == ids[k]);
            assert(all_session_resources(front)[3 * k + j] == session_resources(front[k])[j]);
        }
    }
}

/// A new identifier of a session, a connection or a mount can stand in an address:
/// it is one part of it, and not blank.
pub proof fn law_new_identifiers_can_be_addressed(id: Seq<char>)
    requires
        is_new_id("pty_"@, id) || is_new_id("sshconn_"@, id) || is_new_id("sshmnt_"@, id),
    ensures
        is_one_part(id),
        !is_blank(id),
{
    reveal_strlit("pty_");
    reveal_strlit("sshconn_");
    reveal_strlit("sshmnt_");
    let prefix = if is_new_id("pty_"@, id) {
        "pty_"@
    } else if is_new_id("sshconn_"@, id) {
        "sshconn_"@
    } else {
        "sshmnt_"@
    };
    let n = prefix.len() as int;
    let digits = id.skip(n);
    assert(prefix =~= id.take(n));
    assert(id[0] == prefix[0]);
    lemma_not_blank(id);
    assert forall|i: int| 0 <= i < id.len() implies id[i] != '/' by {
        if i < n {
            assert(id[i] == prefix[i]);
        } else {
            assert(id[i] == digits[i - n]);
        }
    }
}

/// Where all identifiers are new ones, no two listed resources have the same address,
/// and every one of them can be read, as far as the name of the platform can stand in
/// an address.
pub proof fn law_new_identifiers_are_listed_well(context: AppContext)
    requires
        context.wf(),
        ids_are_new(context),
    ensures
        listed_well(context),
{
    assert forall|k: Seq<char>| #[trigger] context.registry.sessions().contains_key(k) implies
        is_one_part(k) by {
        law_new_identifiers_can_be_addressed(k);
    }
    assert forall|k: Seq<char>| #[trigger]
        context.ssh_registry.connections().contains_key(k) implies is_one_part(k) && !is_blank(
        k,
    ) by {
        law_new_identifiers_can_be_addressed(k);
    }
    assert forall|k: Seq<char>| #[trigger]
        context.ssh_registry.mounts().contains_key(k) implies is_one_part(k) && !is_blank(k) by {
        law_new_identifiers_can_be_addressed(k);
    }
    assert forall|i: int, r: Result<ResourceBody, ResourceError>|
        0 <= i < all_resources(context).len() && (i == 3 ==> is_one_part(
            context.ssh_capabilities.platform@,
        )) && #[trigger] resource_reads(
            context,
            all_resources(context)[i].uri,
            r,
        ) implies r is Ok by {
        law_every_listed_resource_can_be_read(context, i, r);
    }
    assert forall|i: int, j: int|
        0 <= i < all_resources(context).len() && 0 <= j < all_resources(context).len() && i
            != j implies (#[trigger] all_resources(context)[i]).uri != (
    #[trigger] all_resources(context)[j]).uri by {
        law_listed_addresses_differ(context, i, j);
    }
}

/// Whether no two listed resources have the same address, and every one of them can
/// be read, as far as the name of the platform can stand in an address.
pub open spec fn listed_well(context: AppContext) -> bool {
    &&& forall|i: int, r: Result<ResourceBody, ResourceError>|
        0 <= i < all_resources(context).len() && (i == 3 ==> is_one_part(
            context.ssh_capabilities.platform@,
        )) && #[trigger] resource_reads(
            context,
            all_resources(context)[i].uri,
            r,
        ) ==> r is Ok
    &&& forall|i: int, j: int|
        0 <= i < all_resources(context).len() && 0 <= j < all_resources(context).len() && i
            != j ==> (#[trigger] all_resources(context)[i]).uri != (
        #[trigger] all_resources(context)[j]).uri
}

/// In every state that the application reaches from its start, the listed resources
/// can be read and have addresses of their own.
pub proof fn law_reached_states_are_listed_well(
    states: Seq<AppContext>,
    steps: Seq<AppStep>,
    i: int,
)
    requires
        is_history(states, steps),
        0 <= i < states.len(),
    ensures
        listed_well(states[i]),
{
    law_reached_states_have_new_identifiers(states, steps, i);
    law_new_identifiers_are_listed_well(states[i]);
}

/// Where mounts cannot be made, no resource shows one.
pub proof fn law_mounts_are_hidden_where_unavailable(
    context: AppContext,
    uri: Seq<char>,
    r: Result<ResourceBody, ResourceError>,
)
    requires
        !can_mount(context.ssh_capabilities),
        resource_reads(context, uri, r),
    ensures
        !(r matches Ok(ResourceBody::Mounts(_))),
        !(r matches Ok(ResourceBody::Mount(_))),
{
}

/// The address of a session reads as what is known of it; behind it, `/buffer` reads as
/// its lines from the first on, as many as it counts, and `/tail` as its last hundred
/// lines, or all of them where there are fewer.
pub proof fn law_session_addresses_read_the_session(
    context: AppContext,
    id: Seq<char>,
    session: Result<ResourceBody, ResourceError>,
    buffer: Result<ResourceBody, ResourceError>,
    tail: Result<ResourceBody, ResourceError>,
)
    requires
        is_one_part(id),
        resource_reads(context, "pty://sessions/"@ + id, session),
        resource_reads(context, "pty://sessions/"@ + id + "/buffer"@, buffer),
        resource_reads(context, "pty://sessions/"@ + id + "/tail"@, tail),
    ensures
        ({
            let known = context.registry.sessions().contains_key(id);
            let e = context.registry.sessions()[id];
            let all = shown(e.buffer@, BufferView::Plain);
            let n = e.summary.buffer_stats.line_count;
            let not_found = Err::<ResourceBody, ResourceError>(ResourceError::NotFound);
            &&& !known ==> session == not_found && buffer == not_found && tail == not_found
            &&& known ==> {
                &&& session matches Ok(ResourceBody::Session(s))
                &&& e.summary.same_as(s)
            }
            &&& known ==> {
                &&& buffer matches Ok(ResourceBody::Buffer { session_id, status, page })
                &&& session_id@ == id
                &&& status == e.summary.status
                &&& n > 0 ==> is_part_of(page_lines(page.lines@), all, 0, n as int)
                &&& n == 0 ==> is_part_of(page_lines(page.lines@), all, 0, 1)
                &&& page.total_lines == all.len()
            }
            &&& known ==> {
                &&& tail matches Ok(ResourceBody::Tail { session_id, status, page })
                &&& session_id@ == id
                &&& status == e.summary.status
                &&& n > 100 ==> is_part_of(page_lines(page.lines@), all, n - 100, 100)
                &&& n <= 100 ==> is_part_of(page_lines(page.lines@), all, 0, 100)
                &&& page.total_lines == all.len()
            }
        }),
{
    lemma_addresses();
    let prefix = "pty://sessions/"@;
    lemma_behind_prefix(prefix, id);
    lemma_behind_prefix(prefix, id + "/buffer"@);
    lemma_behind_prefix(prefix, id + "/tail"@);
    assert(prefix + id + "/buffer"@ =~= prefix + (id + "/buffer"@));
    assert(prefix + id + "/tail"@ =~= prefix + (id + "/tail"@));
    assert(id.len() > 0);
    lemma_session_address_parts(id);
    reveal_strlit("buffer");
    reveal_strlit("tail");
    assert("buffer"@.len() == 6 && "tail"@.len() == 4);
    if context.registry.sessions().contains_key(id) {
        let e = context.registry.sessions()[id];
        law_page_shows_what_is_asked(
            e.buffer@,
            buffer_request(e.summary),
            buffer->Ok_0->Buffer_page,
        );
        law_page_shows_what_is_asked(e.buffer@, tail_request(e.summary), tail->Ok_0->Tail_page);
    }
}

/// The addresses of connections and mounts read as what is known of them, those of mounts
/// only where mounts can be made, and an address that names nothing is not found.
pub proof fn law_ssh_addresses_read_what_they_name(
    context: AppContext,
    id: Seq<char>,
    connection: Result<ResourceBody, ResourceError>,
    mount: Result<ResourceBody, ResourceError>,
)
    requires
        is_one_part(id),
        !is_blank(id),
        resource_reads(context, "ssh://connections/"@ + id, connection),
        resource_reads(context, "ssh://mounts/"@ + id, mount),
    ensures
        ({
            let not_found = Err::<ResourceBody, ResourceError>(ResourceError::NotFound);
            let connections = context.ssh_registry.connections();
            let mounts = context.ssh_registry.mounts();
            &&& connections.contains_key(id) ==> connection == Ok::<ResourceBody, ResourceError>(
                ResourceBody::Connection(connections[id]),
            )
            &&& !connections.contains_key(id) ==> connection == not_found
            &&& can_mount(context.ssh_capabilities) && mounts.contains_key(id) ==> mount == Ok::<
                ResourceBody,
                ResourceError,
            >(ResourceBody::Mount(mounts[id]))
            &&& !(can_mount(context.ssh_capabilities) && mounts.contains_key(id)) ==> mount
                == not_found
        }),
{
    lemma_addresses();
    lemma_behind_prefix("ssh://connections/"@, id);
    lemma_behind_prefix("ssh://mounts/"@, id);
    let c = "ssh://connections/"@ + id;
    let m = "ssh://mounts/"@ + id;
    assert(c[6] == 'c');
    assert(m[6] == 'm');
    assert(id.len() > 0);
    if "ssh://docs/mount-setup/"@.is_prefix_of(m) {
        assert(m[6] == "ssh://docs/mount-setup/"@[6]);
    }
    if "ssh://connections/"@.is_prefix_of(m) {
        assert(m[6] == "ssh://connections/"@[6]);
    }
    if "pty://sessions/"@.is_prefix_of(m) {
        assert(m[0] == "pty://sessions/"@[0]);
    }
    if "pty://sessions/"@.is_prefix_of(c) {
        assert(c[0] == "pty://sessions/"@[0]);
    }
}

/// The lists read as everything there is, in the order of identifiers, and the guide to
/// mounts reads as itself and, behind a platform, as the guide for that.
pub proof fn law_lists_read_everything(
    context: AppContext,
    platform: Seq<char>,
    connections: Result<ResourceBody, ResourceError>,
    overview: Result<ResourceBody, ResourceError>,
    guide: Result<ResourceBody, ResourceError>,
)
    requires
        is_one_part(platform),
        resource_reads(context, "ssh://connections"@, connections),
        resource_reads(context, "ssh://docs/mount-setup"@, overview),
        resource_reads(context, "ssh://docs/mount-setup/"@ + platform, guide),
    ensures
        connections matches Ok(ResourceBody::Connections(list)) && list@
            == context.ssh_registry.connection_ids().map_values(
            |k: Seq<char>| context.ssh_registry.connections()[k],
        ),
        overview == Ok::<ResourceBody, ResourceError>(ResourceBody::Guide(MountGuide::Overview)),
        guide is Ok && guide->Ok_0 is Guide,
        platform == "macos"@ || platform == "darwin"@ ==> guide->Ok_0->Guide_0
            == MountGuide::Macos,
        platform == "linux"@ ==> guide->Ok_0->Guide_0 == MountGuide::Linux,
        platform != "macos"@ && platform != "darwin"@ && platform != "linux"@
            ==> guide->Ok_0->Guide_0 == MountGuide::Generic,
{
    lemma_addresses();
    reveal_strlit("macos");
    reveal_strlit("darwin");
    reveal_strlit("linux");
    assert("macos"@[0] == 'm' && "darwin"@[0] == 'd' && "linux"@[0] == 'l');
    lemma_behind_prefix("ssh://docs/mount-setup/"@, platform);
    let g = "ssh://docs/mount-setup/"@ + platform;
    assert(g[6] == 'd');
    assert(platform.len() > 0);
    if "ssh://mounts/"@.is_prefix_of(g) {
        assert(g[6] == "ssh://mounts/"@[6]);
    }
    if "ssh://connections/"@.is_prefix_of(g) {
        assert(g[6] == "ssh://connections/"@[6]);
    }
    if "pty://sessions/"@.is_prefix_of(g) {
        assert(g[0] == "pty://sessions/"@[0]);
    }
}

/// The templates name the addresses that can be read, those of mounts exactly where mounts
/// can be made.
pub proof fn law_templates_name_addresses(mounts: bool)
    ensures
        ({
            let t = all_templates(mounts);
            &&& t[0].uri == "pty://sessions/{id}"@
            &&& t[1].uri == "pty://sessions/{id}/buffer"@
            &&& t[2].uri == "pty://sessions/{id}/tail"@
            &&& t[3].uri == "ssh://connections/{id}"@
            &&& t[4].uri == "ssh://docs/mount-setup/{platform}"@
            &&& !mounts ==> t.len() == 5
            &&& mounts ==> t.len() == 6 && t[5].uri == "ssh://mounts/{id}"@
            &&& forall|i: int|
                0 <= i < t.len() && i != 4 ==> (#[trigger] t[i]).mime_type == "application/json"@
            &&& t[4].mime_type == "text/markdown"@
        }),
        TAIL_LINE_COUNT == 100,
{
}

} // verus!
