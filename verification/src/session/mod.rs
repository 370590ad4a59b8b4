//! Terminal sessions and the registry that keeps them.
pub mod model;
pub mod registry;
