//! The line buffer that keeps what a terminal session has printed.
pub mod store;
pub mod view;
