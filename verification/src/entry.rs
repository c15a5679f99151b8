//! `FileEntry`: one record per file-like leaf found by a scan.

use vstd::prelude::*;

verus! {

/// A file or symlink inside a tree, identified by its path relative to the
/// tree root. `mtime` is an absolute instant, measured in nanoseconds since
/// the Unix epoch. `size` is the byte size of the entry itself (for a symlink,
/// of the link, not its target). `hash` optionally caches the 32-byte content
/// digest. A symlink entry carries its target path verbatim.
#[derive(Debug, PartialEq)]
pub struct FileEntry {
    /// Path relative to the tree root.
    pub path: String,
    /// Size in bytes.
    pub size: u64,
    /// Modification instant, nanoseconds since the Unix epoch.
    pub mtime: u64,
    /// Unix permission bits (callers pass `0o644` where the platform has none).
    pub permissions: u32,
    /// Cached 32-byte content digest, if one was computed.
    pub hash: Option<[u8; 32]>,
    /// Whether the entry is a symlink.
    pub is_symlink: bool,
    /// The link target, present exactly when `is_symlink` holds.
    pub symlink_target: Option<String>,
}

impl FileEntry {
    /// The shape every well-formed entry has: a symlink knows its target,
    /// a regular file has none.
    pub open spec fn wf(self) -> bool {
        self.is_symlink <==> self.symlink_target is Some
    }

    /// Create an entry for a regular file.
    pub fn new(path: String, size: u64, mtime: u64, permissions: u32) -> (r: Self)
        ensures
            r.path == path,
            r.size == size,
            r.mtime == mtime,
            r.permissions == permissions,
            r.hash is None,
            !r.is_symlink,
            r.symlink_target is None,
            r.wf(),
    {
        FileEntry {
            path,
            size,
            mtime,
            permissions,
            hash: None,
            is_symlink: false,
            symlink_target: None,
        }
    }

    /// Create an entry for a symlink with the given target.
    pub fn new_symlink(path: String, size: u64, mtime: u64, permissions: u32, target: String) -> (r:
        Self)
        ensures
            r.path == path,
            r.size == size,
            r.mtime == mtime,
            r.permissions == permissions,
            r.hash is None,
            r.is_symlink,
            r.symlink_target == Some(target),
            r.wf(),
    {
        FileEntry {
            path,
            size,
            mtime,
            permissions,
            hash: None,
            is_symlink: true,
            symlink_target: Some(target),
        }
    }

    /// Attach a content digest to the entry.
    pub fn with_hash(self, hash: [u8; 32]) -> (r: Self)
        ensures
            r == (Self { hash: Some(hash), ..self }),
    {
        Self { hash: Some(hash), ..self }
    }

    /// Whether a content digest is cached.
    pub fn has_hash(&self) -> (r: bool)
        ensures
            r == (self.hash is Some),
    {
        self.hash.is_some()
    }
}

impl Clone for FileEntry {
    fn clone(&self) -> (r: Self)
        ensures
            r == *self,
    {
        FileEntry {
            path: self.path.clone(),
            size: self.size,
            mtime: self.mtime,
            permissions: self.permissions,
            hash: self.hash,
            is_symlink: self.is_symlink,
            symlink_target: match &self.symlink_target {
                Some(t) => Some(t.clone()),
                None => None,
            },
        }
    }
}

} // verus!
