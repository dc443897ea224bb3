//! Verified core of an unattended asset-installation engine.
//!
//! Given a destination directory and a variant preference, the library
//! resolves the correct downloadable archives from a release catalog,
//! plans a resumable ranged download, and plans a safe extraction of the
//! downloaded archive, while reporting fine-grained progress and honoring
//! cooperative cancellation at well-defined checkpoints.

use vstd::prelude::*;

pub mod archive;
pub mod catalog;
pub mod download;
pub mod errors;
pub mod extract;
pub mod orchestrator;
pub mod state;
pub mod strutil;
pub mod utils;

verus! {

/// Size of downloadable content, in bytes.
pub type ContentSize = u64;

} // verus!
