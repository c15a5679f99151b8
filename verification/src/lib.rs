//! Core of `kopy`, a one-way directory synchronization engine.
//!
//! The library holds the verified logic: the data model (file entries, trees,
//! actions, plans), the diff engine, the per-action decisions of the executor,
//! and the trash bookkeeping. Filesystem access, argument parsing and progress
//! rendering live outside the library and hand it plain values.

pub mod action;
pub mod compare;
pub mod config;
pub mod diff;
pub mod entry;
pub mod exec;
pub mod filter;
pub mod hash;
pub mod error;
pub mod pathutil;
pub mod plan;
pub mod report;
pub mod scanmode;
pub mod tree;
pub mod pool;
pub mod textutil;
pub mod trash;

pub use action::DeleteMode;
pub use action::SyncAction;
pub use config::Config;
pub use entry::FileEntry;
pub use error::KopyError;
pub use tree::FileTree;

use vstd::prelude::*;

verus! {

/// Number of bytes a plan entry may have before the parallel executor treats
/// the transfer as large and runs it on the calling thread.
pub const LARGE_TRANSFER_THRESHOLD_BYTES: u64 = 16777216;

} // verus!
