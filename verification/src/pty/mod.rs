//! Programs on pseudo terminals.
pub mod runtime;
