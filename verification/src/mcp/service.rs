//! What the server says of itself.
use crate::text::cat5;
use vstd::prelude::*;

verus! {

/// The tools about SSH, as they are named to users.
pub open spec fn ssh_tools_text(mounts: bool) -> Seq<char> {
    if mounts {
        "ssh_connect, ssh_session_spawn, ssh_exec, ssh_run, ssh_read_file, ssh_write_file, ssh_list_dir, ssh_mkdir, ssh_tunnel_open, ssh_tunnel_close, ssh_mount, ssh_unmount, ssh_list, and ssh_disconnect"@
    } else {
        "ssh_connect, ssh_session_spawn, ssh_exec, ssh_run, ssh_read_file, ssh_write_file, ssh_list_dir, ssh_mkdir, ssh_tunnel_open, ssh_tunnel_close, ssh_list, and ssh_disconnect"@
    }
}

/// The resources about SSH, as they are named to users.
pub open spec fn ssh_resources_text(mounts: bool) -> Seq<char> {
    if mounts {
        "ssh://connections, ssh://tunnels, and ssh://mounts"@
    } else {
        "ssh://connections and ssh://tunnels"@
    }
}

/// The instructions of the server.
pub open spec fn instructions_text(mounts: bool) -> Seq<char> {
    "Manage PTY sessions through tools. Use pty_spawn, pty_write, pty_read, pty_list, pty_kill, and pty_wait for the main PTY workflow. PTY reads are agent-first: default to compact page.text, request line_number_mode=embedded only when precise line references matter, and set capture_limit only when you need initial_output. output_view=raw cannot be combined with line_number_mode=embedded. Use "@
        + ssh_tools_text(mounts)
        + " to manage SSH connections, remote sessions, remote files, tunnel summaries, and mount summaries. ssh_connect requires explicit auth_kind. SSH tunnels default to bind_host=127.0.0.1 and remote_host=127.0.0.1; non-loopback bind_host values must be explicitly allowed by policy. Resources expose read-only snapshots, including pty://sessions plus "@
        + ssh_resources_text(mounts)
        + ". When SSH mount support is unavailable or a mount fails because local prerequisites are missing, read ssh://docs/mount-setup and the matching ssh://docs/mount-setup/{platform} guide before suggesting installation steps. Tasks are available as an optional enhancement."@
}

/// The instructions of the server.
pub fn server_instructions(mounts: bool) -> (r: String)
    ensures
        r@ == instructions_text(mounts),
{
    let tools = if mounts {
        "ssh_connect, ssh_session_spawn, ssh_exec, ssh_run, ssh_read_file, ssh_write_file, ssh_list_dir, ssh_mkdir, ssh_tunnel_open, ssh_tunnel_close, ssh_mount, ssh_unmount, ssh_list, and ssh_disconnect"
    } else {
        "ssh_connect, ssh_session_spawn, ssh_exec, ssh_run, ssh_read_file, ssh_write_file, ssh_list_dir, ssh_mkdir, ssh_tunnel_open, ssh_tunnel_close, ssh_list, and ssh_disconnect"
    };
    let resources = if mounts {
        "ssh://connections, ssh://tunnels, and ssh://mounts"
    } else {
        "ssh://connections and ssh://tunnels"
    };
    cat5(
        "Manage PTY sessions through tools. Use pty_spawn, pty_write, pty_read, pty_list, pty_kill, and pty_wait for the main PTY workflow. PTY reads are agent-first: default to compact page.text, request line_number_mode=embedded only when precise line references matter, and set capture_limit only when you need initial_output. output_view=raw cannot be combined with line_number_mode=embedded. Use ",
        tools,
        " to manage SSH connections, remote sessions, remote files, tunnel summaries, and mount summaries. ssh_connect requires explicit auth_kind. SSH tunnels default to bind_host=127.0.0.1 and remote_host=127.0.0.1; non-loopback bind_host values must be explicitly allowed by policy. Resources expose read-only snapshots, including pty://sessions plus ",
        resources,
        ". When SSH mount support is unavailable or a mount fails because local prerequisites are missing, read ssh://docs/mount-setup and the matching ssh://docs/mount-setup/{platform} guide before suggesting installation steps. Tasks are available as an optional enhancement.",
    )
}

/// The server tells of the tools and the resources that there are: of those about mounts
/// exactly where mounts can be made.
pub proof fn law_server_tells_of_its_tools()
    ensures
        ssh_tools_text(true)
            == "ssh_connect, ssh_session_spawn, ssh_exec, ssh_run, ssh_read_file, ssh_write_file, ssh_list_dir, ssh_mkdir, ssh_tunnel_open, ssh_tunnel_close, ssh_mount, ssh_unmount, ssh_list, and ssh_disconnect"@,
        ssh_tools_text(false)
            == "ssh_connect, ssh_session_spawn, ssh_exec, ssh_run, ssh_read_file, ssh_write_file, ssh_list_dir, ssh_mkdir, ssh_tunnel_open, ssh_tunnel_close, ssh_list, and ssh_disconnect"@,
        ssh_resources_text(true) == "ssh://connections, ssh://tunnels, and ssh://mounts"@,
        ssh_resources_text(false) == "ssh://connections and ssh://tunnels"@,
{
}

} // verus!
