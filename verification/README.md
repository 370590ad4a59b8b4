# pty_mcp

A server for pseudo terminals and SSH: local sessions, SSH connections, remote sessions,
remote files, tunnels and mounts, offered as tools and resources of the Model Context
Protocol.

- `src/` is the library, verified with Verus: the registries of sessions, connections,
  mounts and tunnels, the output buffer, the permission and SSH policies, the configuration,
  the building of commands and the reading of what they print, and the steps of every
  operation. It does no input or output: each step says what is to be done next, and takes
  in what came of it.
- `app/` does that work: it starts programs, reads files and the environment, and speaks the
  protocol.
- `tests/` runs the library on concrete values.

What the library takes on trust stands in `src/outside.rs`: the few functions of `regex`,
`strip-ansi-escapes`, `uuid`, `chrono` and the standard library that it calls.
