//! What local sessions may run, where, and in which environment.
pub mod guard;
pub mod policy;
