//! SSH connections, mounts and tunnels.
pub mod model;
pub mod registry;
pub mod remote_path;
pub mod shell;
pub mod guard;
pub mod policy;
pub mod capability_probe;
pub mod runtime;
