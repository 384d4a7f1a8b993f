//! A local configuration-file version store: files and directory trees are
//! tracked under a managed root (a "bin"), every distinct content revision is
//! kept as an immutable, content-addressed blob, and metadata (identity, tags,
//! classification, version lineage) lives in three relational tables.
//!
//! This crate holds the storage engine itself: identity derivation, the
//! blob/version lifecycle for single files, the directory snapshot mechanism,
//! and the push/pull resolution algorithms. All filesystem and SQL plumbing
//! stays outside; the engine works on in-memory tables, blob bytes and
//! manifests, and callers persist those as they see fit.

use vstd::prelude::*;

pub mod bin;
pub mod config;
pub mod db;
pub mod dirmap;
pub mod hash;
pub mod laws;
pub mod mapper;
pub mod numtext;
pub mod pull;
pub mod push;
pub mod version;

pub use bin::Bin;
pub use bin::Blob;
pub use bin::Manifest;
pub use bin::ManifestEntry;
pub use config::Config;
pub use config::ConfigRow;
pub use config::UpdateType;
pub use db::Database;
pub use dirmap::DirectoryMap;
pub use dirmap::MapRow;
pub use hash::hash_contents;
pub use hash::hash_path;
pub use mapper::map_to_real_path;
pub use pull::PullAction;
pub use pull::PullPlan;
pub use pull::pull_file;
pub use pull::pull_member;
pub use pull::resolve_pull;
pub use pull::select_version;
pub use push::push_config;
pub use push::push_map;
pub use version::Version;

verus! {

/// Everything that can go wrong in the store. `Internal` marks invariant
/// violations that callers should treat as unreachable-but-defended; all the
/// other variants are expected failure modes that callers must inspect.
#[derive(Debug)]
pub enum Error {
    /// The metadata backend failed.
    StoreError { msg: String },
    /// A filesystem operation failed.
    IOError { msg: String },
    /// A bin could not be created or opened in a valid state.
    InitFailed { msg: String },
    /// A bin already exists where one was to be created.
    BinAlreadyExists,
    /// The parent directories of a new bin do not exist.
    ParentsDontExist,
    /// The requested identity has never been tracked.
    FileNotFound,
    /// The blob for a selected version is not in the store.
    BlobNotFound,
    /// A requested tag matches no version and falling back was not allowed.
    TagNotFound,
    /// A requested version number matches no version and falling back was not
    /// allowed.
    VersionNotFound,
    /// Nothing needed to be done.
    UpdateNotNeeded,
    /// An internal invariant was violated.
    Internal,
}

} // verus!
