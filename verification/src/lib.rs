//! Core logic of the Dystellar launcher: configuration, manifests, sessions,
//! launch arguments and the task queue, with their contracts.
use vstd::prelude::*;

pub mod text;
pub mod json;
pub mod config;
pub mod dirs;
pub mod manifest;
pub mod session;
pub mod tasks;
pub mod platform;
pub mod launch;
pub mod archive;
pub mod storage;

verus! {

} // verus!
