use vstd::prelude::*;

pub mod app;
pub mod buffer;
pub mod config;
pub mod error;
pub mod json;
pub mod mcp;
pub mod ordered;
pub mod outside;
pub mod path;
pub mod permission;
pub mod pty;
pub mod session;
pub mod ssh;
pub mod text;
pub mod timestamp;

verus! {

} // verus!
