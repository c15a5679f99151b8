//! Error taxonomy. Kinds carry intent: classification happens where the
//! operating system reported the failure, and the rest of the engine works on
//! these typed values.

use vstd::prelude::*;
use crate::textutil::spec_decimal;
use crate::textutil::u64_to_string;

verus! {

/// The aspects of an operating-system I/O failure the engine reads.
#[derive(Debug, Clone, Copy, PartialEq, Eq, Structural)]
pub enum IoErrorKind {
    NotFound,
    PermissionDenied,
    AlreadyExists,
    WriteZero,
    BrokenPipe,
    UnexpectedEof,
    StorageFull,
    CrossesDevices,
    Other,
}

/// A plain-value record of one I/O failure: its kind, the raw OS error code if
/// one was reported, and the system's message text.
#[derive(Debug, PartialEq)]
pub struct IoErrorData {
    pub kind: IoErrorKind,
    pub raw_os: Option<i32>,
    pub message: String,
}

impl IoErrorData {
    pub fn new(kind: IoErrorKind, message: String) -> (r: Self)
        ensures
            r.kind == kind,
            r.raw_os is None,
            r.message == message,
    {
        IoErrorData { kind, raw_os: None, message }
    }

    pub fn with_raw_os(kind: IoErrorKind, raw_os: i32, message: String) -> (r: Self)
        ensures
            r.kind == kind,
            r.raw_os == Some(raw_os),
            r.message == message,
    {
        IoErrorData { kind, raw_os: Some(raw_os), message }
    }
}

impl Clone for IoErrorData {
    fn clone(&self) -> (r: Self)
        ensures
            r == *self,
    {
        IoErrorData { kind: self.kind, raw_os: self.raw_os, message: self.message.clone() }
    }
}

/// Error type of the engine.
#[derive(Debug, PartialEq)]
pub enum KopyError {
    /// An I/O failure that no more specific kind describes.
    Io(IoErrorData),
    /// Invalid configuration.
    Config(String),
    /// A logic-level check failed.
    Validation(String),
    /// The OS denied access to a path.
    PermissionDenied { path: String },
    /// The destination device is out of space.
    DiskFull { available: u64, needed: u64 },
    /// Content verification failed (reserved for future verification work).
    ChecksumMismatch { path: String },
    /// A transfer stopped partway (reserved for partial-write recovery).
    TransferInterrupted { path: String, offset: u64 },
    /// Remote transport failure (reserved).
    SshError(String),
    /// Dry-run mode: execution was skipped on purpose.
    DryRun,
}

impl KopyError {
    /// The message text of the error, as a plain string.
    pub open spec fn spec_message(self) -> Seq<char> {
        match self {
            KopyError::Io(e) => "IO error: "@ + e.message@,
            KopyError::Config(m) => "Configuration error: "@ + m@,
            KopyError::Validation(m) => "Validation error: "@ + m@,
            KopyError::PermissionDenied { path } => "Permission denied: "@ + path@,
            KopyError::DiskFull { available, needed } => "Disk full: "@ + spec_decimal(
                available as nat,
            ) + " bytes available, "@ + spec_decimal(needed as nat) + " bytes needed"@,
            KopyError::ChecksumMismatch { path } => "Checksum mismatch: "@ + path@,
            KopyError::TransferInterrupted { path, offset } => "Transfer interrupted: "@ + path@
                + " at offset "@ + spec_decimal(offset as nat) + " bytes"@,
            KopyError::SshError(m) => "SSH connection failed: "@ + m@,
            KopyError::DryRun => "Dry run mode: no changes were made"@,
        }
    }

    /// Render the error as a message line.
    pub fn message(&self) -> (r: String)
        ensures
            r@ == self.spec_message(),
    {
        match self {
            KopyError::Io(e) => {
                let mut s = "IO error: ".to_owned();
                s.append(e.message.as_str());
                s
            },
            KopyError::Config(m) => {
                let mut s = "Configuration error: ".to_owned();
                s.append(m.as_str());
                s
            },
            KopyError::Validation(m) => {
                let mut s = "Validation error: ".to_owned();
                s.append(m.as_str());
                s
            },
            KopyError::PermissionDenied { path } => {
                let mut s = "Permission denied: ".to_owned();
                s.append(path.as_str());
                s
            },
            KopyError::DiskFull { available, needed } => {
                let mut s = "Disk full: ".to_owned();
                let a = u64_to_string(*available);
                s.append(a.as_str());
                s.append(" bytes available, ");
                let n = u64_to_string(*needed);
                s.append(n.as_str());
                s.append(" bytes needed");
                s
            },
            KopyError::ChecksumMismatch { path } => {
                let mut s = "Checksum mismatch: ".to_owned();
                s.append(path.as_str());
                s
            },
            KopyError::TransferInterrupted { path, offset } => {
                let mut s = "Transfer interrupted: ".to_owned();
                s.append(path.as_str());
                s.append(" at offset ");
                let o = u64_to_string(*offset);
                s.append(o.as_str());
                s.append(" bytes");
                s
            },
            KopyError::SshError(m) => {
                let mut s = "SSH connection failed: ".to_owned();
                s.append(m.as_str());
                s
            },
            KopyError::DryRun => "Dry run mode: no changes were made".to_owned(),
        }
    }

    /// Recoverable failures: an interrupted transfer and the dry-run marker.
    pub fn is_recoverable(&self) -> (r: bool)
        ensures
            r == (self is TransferInterrupted || self is DryRun),
    {
        matches!(self, KopyError::TransferInterrupted { .. } | KopyError::DryRun)
    }

    /// Configuration and validation failures.
    pub fn is_validation_error(&self) -> (r: bool)
        ensures
            r == (self is Validation || self is Config),
    {
        matches!(self, KopyError::Validation(_) | KopyError::Config(_))
    }

    /// Whether the error reports denied access.
    pub fn is_permission_error(&self) -> (r: bool)
        ensures
            r == (self is PermissionDenied),
    {
        matches!(self, KopyError::PermissionDenied { .. })
    }

    /// Whether the error reports a full disk.
    pub fn is_disk_space_error(&self) -> (r: bool)
        ensures
            r == (self is DiskFull),
    {
        matches!(self, KopyError::DiskFull { .. })
    }
}

/// Copy an error so it can travel in an event while the original is kept.
pub fn clone_error_for_event(error: &KopyError) -> (r: KopyError)
    ensures
        r == *error,
{
    match error {
        KopyError::Io(e) => KopyError::Io(e.clone()),
        KopyError::Config(m) => KopyError::Config(m.clone()),
        KopyError::Validation(m) => KopyError::Validation(m.clone()),
        KopyError::PermissionDenied { path } => KopyError::PermissionDenied { path: path.clone() },
        KopyError::DiskFull { available, needed } => KopyError::DiskFull {
            available: *available,
            needed: *needed,
        },
        KopyError::ChecksumMismatch { path } => KopyError::ChecksumMismatch { path: path.clone() },
        KopyError::TransferInterrupted { path, offset } => KopyError::TransferInterrupted {
            path: path.clone(),
            offset: *offset,
        },
        KopyError::SshError(m) => KopyError::SshError(m.clone()),
        KopyError::DryRun => KopyError::DryRun,
    }
}

/// Classify an I/O failure seen while reading or writing `path`: access
/// violations become `PermissionDenied`, a full disk (by kind, or by the
/// platform codes 28 and 122) becomes `DiskFull`, everything else stays `Io`.
pub fn map_file_error(path: &String, error: IoErrorData) -> (r: KopyError)
    ensures
        error.kind == IoErrorKind::PermissionDenied ==> r == (KopyError::PermissionDenied {
            path: *path,
        }),
        error.kind != IoErrorKind::PermissionDenied && (error.kind == IoErrorKind::StorageFull
            || error.raw_os == Some(28int as i32) || error.raw_os == Some(122int as i32)) ==> r == (
        KopyError::DiskFull { available: 0, needed: 1 }),
        error.kind != IoErrorKind::PermissionDenied && !(error.kind == IoErrorKind::StorageFull
            || error.raw_os == Some(28int as i32) || error.raw_os == Some(122int as i32)) ==> r == (
        KopyError::Io(error)),
{
    if is_permission_error(&error) {
        KopyError::PermissionDenied { path: path.clone() }
    } else if is_disk_full_error(&error) {
        KopyError::DiskFull { available: 0, needed: 1 }
    } else {
        KopyError::Io(error)
    }
}

/// Whether the OS report means an access violation.
pub fn is_permission_error(error: &IoErrorData) -> (r: bool)
    ensures
        r == (error.kind == IoErrorKind::PermissionDenied),
{
    matches!(error.kind, IoErrorKind::PermissionDenied)
}

/// Whether the OS report means the device is out of space, by kind or by the
/// platform-specific numeric codes 28 and 122.
pub fn is_disk_full_error(error: &IoErrorData) -> (r: bool)
    ensures
        r == (error.kind == IoErrorKind::StorageFull || error.raw_os == Some(28int as i32)
            || error.raw_os == Some(122int as i32)),
{
    if matches!(error.kind, IoErrorKind::StorageFull) {
        return true;
    }
    match error.raw_os {
        Some(code) => code == 28 || code == 122,
        None => false,
    }
}

/// Classify an I/O failure seen while deleting `path`; the same mapping as
/// `map_file_error`.
pub fn map_delete_error(path: &String, error: IoErrorData) -> (r: KopyError)
    ensures
        error.kind == IoErrorKind::PermissionDenied ==> r == (KopyError::PermissionDenied {
            path: *path,
        }),
        error.kind != IoErrorKind::PermissionDenied && (error.kind == IoErrorKind::StorageFull
            || error.raw_os == Some(28int as i32) || error.raw_os == Some(122int as i32)) ==> r == (
        KopyError::DiskFull { available: 0, needed: 1 }),
        error.kind != IoErrorKind::PermissionDenied && !(error.kind == IoErrorKind::StorageFull
            || error.raw_os == Some(28int as i32) || error.raw_os == Some(122int as i32)) ==> r == (
        KopyError::Io(error)),
{
    map_file_error(path, error)
}

} // verus!
