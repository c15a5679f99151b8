//! `SyncAction`: what the diff engine decided for one path, and `DeleteMode`:
//! how orphan destination entries are handled.

use vstd::prelude::*;
use crate::entry::FileEntry;

verus! {

/// One planned operation. `Move` exists in the data model but the planner
/// never emits it.
#[derive(Debug, PartialEq)]
pub enum SyncAction {
    /// Copy a file that exists in the source and not in the destination.
    CopyNew(FileEntry),
    /// Overwrite a destination file that differs from its source.
    Overwrite(FileEntry),
    /// Remove a destination entry at the given relative path.
    Delete(String),
    /// Reserved rename action; never produced by the planner.
    Move { from: String, to: String },
    /// The sides agree; nothing to do.
    Skip,
}

impl SyncAction {
    /// The relative path the action operates on, if any (`Skip` has none).
    pub open spec fn spec_path(self) -> Option<String> {
        match self {
            SyncAction::CopyNew(e) => Some(e.path),
            SyncAction::Overwrite(e) => Some(e.path),
            SyncAction::Delete(p) => Some(p),
            SyncAction::Move { from, to } => Some(to),
            SyncAction::Skip => None,
        }
    }

    /// The entry carried by the action, if any.
    pub open spec fn spec_file_entry(self) -> Option<FileEntry> {
        match self {
            SyncAction::CopyNew(e) => Some(e),
            SyncAction::Overwrite(e) => Some(e),
            _ => None,
        }
    }

    /// The displayable name of the action.
    pub open spec fn spec_action_name(self) -> Seq<char> {
        match self {
            SyncAction::CopyNew(_) => "Copy"@,
            SyncAction::Overwrite(_) => "Update"@,
            SyncAction::Delete(_) => "Delete"@,
            SyncAction::Move { .. } => "Move"@,
            SyncAction::Skip => "Skip"@,
        }
    }

    /// Whether the action moves file bytes (`CopyNew` or `Overwrite`).
    pub open spec fn spec_requires_transfer(self) -> bool {
        self is CopyNew || self is Overwrite
    }

    pub fn is_copy_new(&self) -> (r: bool)
        ensures
            r == (self is CopyNew),
    {
        matches!(self, SyncAction::CopyNew(_))
    }

    pub fn is_overwrite(&self) -> (r: bool)
        ensures
            r == (self is Overwrite),
    {
        matches!(self, SyncAction::Overwrite(_))
    }

    pub fn is_delete(&self) -> (r: bool)
        ensures
            r == (self is Delete),
    {
        matches!(self, SyncAction::Delete(_))
    }

    pub fn is_move(&self) -> (r: bool)
        ensures
            r == (self is Move),
    {
        matches!(self, SyncAction::Move { .. })
    }

    pub fn is_skip(&self) -> (r: bool)
        ensures
            r == (self is Skip),
    {
        matches!(self, SyncAction::Skip)
    }

    /// Whether executing the action transfers file content.
    pub fn requires_transfer(&self) -> (r: bool)
        ensures
            r == self.spec_requires_transfer(),
    {
        matches!(self, SyncAction::CopyNew(_) | SyncAction::Overwrite(_))
    }

    /// The relative path the action operates on (`None` for `Skip`).
    pub fn path(&self) -> (r: Option<&String>)
        ensures
            match r {
                Some(p) => self.spec_path() == Some(*p),
                None => self.spec_path() is None,
            },
    {
        match self {
            SyncAction::CopyNew(e) => Some(&e.path),
            SyncAction::Overwrite(e) => Some(&e.path),
            SyncAction::Delete(p) => Some(p),
            SyncAction::Move { to, .. } => Some(to),
            SyncAction::Skip => None,
        }
    }

    /// The entry carried by a `CopyNew` or `Overwrite`.
    pub fn file_entry(&self) -> (r: Option<&FileEntry>)
        ensures
            match r {
                Some(e) => self.spec_file_entry() == Some(*e),
                None => self.spec_file_entry() is None,
            },
    {
        match self {
            SyncAction::CopyNew(e) => Some(e),
            SyncAction::Overwrite(e) => Some(e),
            _ => None,
        }
    }

    /// The displayable name of the action.
    pub fn action_name(&self) -> (r: &'static str)
        ensures
            r@ == self.spec_action_name(),
    {
        match self {
            SyncAction::CopyNew(_) => "Copy",
            SyncAction::Overwrite(_) => "Update",
            SyncAction::Delete(_) => "Delete",
            SyncAction::Move { .. } => "Move",
            SyncAction::Skip => "Skip",
        }
    }
}

impl Clone for SyncAction {
    fn clone(&self) -> (r: Self)
        ensures
            r == *self,
    {
        match self {
            SyncAction::CopyNew(e) => SyncAction::CopyNew(e.clone()),
            SyncAction::Overwrite(e) => SyncAction::Overwrite(e.clone()),
            SyncAction::Delete(p) => SyncAction::Delete(p.clone()),
            SyncAction::Move { from, to } => SyncAction::Move {
                from: from.clone(),
                to: to.clone(),
            },
            SyncAction::Skip => SyncAction::Skip,
        }
    }
}

/// How the executor handles a `Delete` action.
#[derive(Debug, Clone, Copy, PartialEq, Eq, Structural)]
pub enum DeleteMode {
    /// Leave orphan destination entries alone.
    Off,
    /// Move them under the destination's trash area (recoverable).
    Trash,
    /// Unlink them permanently.
    Permanent,
}

impl Default for DeleteMode {
    fn default() -> (r: Self)
        ensures
            r == DeleteMode::Off,
    {
        DeleteMode::Off
    }
}

impl DeleteMode {
    /// Non-destructive modes: `Off` and `Trash`.
    pub fn is_safe(&self) -> (r: bool)
        ensures
            r == (*self == DeleteMode::Off || *self == DeleteMode::Trash),
    {
        matches!(self, DeleteMode::Off | DeleteMode::Trash)
    }

    /// `Permanent` is the only destructive mode.
    pub fn is_destructive(&self) -> (r: bool)
        ensures
            r == (*self == DeleteMode::Permanent),
    {
        matches!(self, DeleteMode::Permanent)
    }

    /// A short human-readable description of the mode.
    pub fn description(&self) -> (r: &'static str)
        ensures
            *self == DeleteMode::Off ==> r@ == "No deletions"@,
            *self == DeleteMode::Trash ==> r@ == "Move to trash (recoverable)"@,
            *self == DeleteMode::Permanent ==> r@ == "Permanent deletion (DANGEROUS)"@,
    {
        match self {
            DeleteMode::Off => "No deletions",
            DeleteMode::Trash => "Move to trash (recoverable)",
            DeleteMode::Permanent => "Permanent deletion (DANGEROUS)",
        }
    }
}

} // verus!
