//! Per-file comparison: the cascade that decides, for a path present on both
//! sides, whether the destination is overwritten or left alone.

use vstd::prelude::*;
use crate::action::SyncAction;
use crate::config::Config;
use crate::entry::FileEntry;

verus! {

/// Whether two symlink entries point at the same target, verbatim.
pub open spec fn targets_match(src: FileEntry, dest: FileEntry) -> bool {
    match (src.symlink_target, dest.symlink_target) {
        (Some(a), Some(b)) => a@ == b@,
        (Option::None, Option::None) => true,
        _ => false,
    }
}

/// The comparison cascade, in order: a kind mismatch (symlink against regular
/// file) always overwrites; two symlinks agree exactly when their targets
/// match verbatim; then a size difference overwrites; then, in checksum mode,
/// the cached digests decide, a missing digest counting as different; and last
/// the timestamps: only a strictly newer source overwrites, an equal or newer
/// destination is left alone.
pub open spec fn spec_compare(src: FileEntry, dest: FileEntry, checksum_mode: bool) -> SyncAction {
    if src.is_symlink != dest.is_symlink {
        SyncAction::Overwrite(src)
    } else if src.is_symlink && dest.is_symlink {
        if targets_match(src, dest) {
            SyncAction::Skip
        } else {
            SyncAction::Overwrite(src)
        }
    } else if src.size != dest.size {
        SyncAction::Overwrite(src)
    } else if checksum_mode {
        match (src.hash, dest.hash) {
            (Some(h1), Some(h2)) => if h1@ == h2@ {
                SyncAction::Skip
            } else {
                SyncAction::Overwrite(src)
            },
            _ => SyncAction::Overwrite(src),
        }
    } else {
        if src.mtime > dest.mtime {
            SyncAction::Overwrite(src)
        } else {
            SyncAction::Skip
        }
    }
}

/// Whether two cached digests hold the same 32 bytes.
fn digests_equal(a: &[u8; 32], b: &[u8; 32]) -> (r: bool)
    ensures
        r == (a@ == b@),
{
    let mut i: usize = 0;
    while i < 32
        invariant
            i <= 32,
            forall|k: int| 0 <= k < i ==> a@[k] == b@[k],
        decreases 32 - i,
    {
        if a[i] != b[i] {
            return false;
        }
        i = i + 1;
    }
    proof {
        assert(a@ =~= b@);
    }
    true
}

/// Compare two entries for the same relative path and decide the action. The
/// result is a function of the two entries and `config.checksum_mode` alone.
///
/// The content tier reads the digests cached in the entries; computing a
/// digest from file content is the caller's task (see the hash module), and a
/// digest that could not be obtained counts, conservatively, as different.
pub fn compare_files(src: &FileEntry, dest: &FileEntry, config: &Config) -> (r: SyncAction)
    ensures
        r == spec_compare(*src, *dest, config.checksum_mode),
{
    if src.is_symlink != dest.is_symlink {
        return SyncAction::Overwrite(src.clone());
    }
    if src.is_symlink && dest.is_symlink {
        let same = match (&src.symlink_target, &dest.symlink_target) {
            (Some(a), Some(b)) => crate::textutil::str_eq(a.as_str(), b.as_str()),
            (Option::None, Option::None) => true,
            _ => false,
        };
        if same {
            return SyncAction::Skip;
        } else {
            return SyncAction::Overwrite(src.clone());
        }
    }
    if src.size != dest.size {
        return SyncAction::Overwrite(src.clone());
    }
    if config.checksum_mode {
        match (&src.hash, &dest.hash) {
            (Some(h1), Some(h2)) => {
                if digests_equal(h1, h2) {
                    SyncAction::Skip
                } else {
                    SyncAction::Overwrite(src.clone())
                }
            },
            _ => SyncAction::Overwrite(src.clone()),
        }
    } else {
        if src.mtime > dest.mtime {
            SyncAction::Overwrite(src.clone())
        } else {
            SyncAction::Skip
        }
    }
}

/// The comparison never asks for anything but an overwrite or a skip.
pub proof fn lemma_compare_is_overwrite_or_skip(src: FileEntry, dest: FileEntry, checksum: bool)
    ensures
        spec_compare(src, dest, checksum) is Overwrite || spec_compare(src, dest, checksum)
            is Skip,
        spec_compare(src, dest, checksum) is Overwrite ==> spec_compare(src, dest, checksum)
            == SyncAction::Overwrite(src),
{
}

/// Comparing an entry against an identical destination entry asks for no
/// work, provided the content tier has digests to read (or is off): the second
/// run of an unchanged sync plans no transfer for the path.
pub proof fn lemma_compare_idempotent(e: FileEntry, checksum: bool)
    requires
        checksum ==> e.hash is Some,
    ensures
        spec_compare(e, e, checksum) == SyncAction::Skip,
{
}

} // verus!
