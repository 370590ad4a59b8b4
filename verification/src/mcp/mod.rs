//! The application as tools and resources.
pub mod resources;
pub mod service;
pub mod tools;
