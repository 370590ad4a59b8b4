//! The application: its state and the services that work on it.
pub mod context;
pub mod history;
pub mod local_sessions;
pub mod ssh_connections;
pub mod ssh_files;
pub mod ssh_mounts;
pub mod ssh_sessions;
pub mod ssh_tunnels;
pub mod state;
pub mod support;
pub mod types;
