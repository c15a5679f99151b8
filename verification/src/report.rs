//! Run reporting: the dry-run action listing, the per-error plain-English
//! message and remedy, and the end-of-run summary that groups failures by
//! kind. Also the small orchestration decisions of a sync run that do not
//! touch the filesystem.

use vstd::prelude::*;
use crate::action::SyncAction;
use crate::config::Config;
use crate::error::IoErrorKind;
use crate::error::KopyError;
use crate::pathutil::spec_file_name;
use crate::pathutil::spec_path_join;
use crate::plan::DiffPlan;
use crate::plan::count_skip;
use crate::plan::lemma_plan_total_bounds;
use crate::textutil::spec_decimal;
use crate::textutil::usize_to_string;

verus! {

/// Whether an event's action name belongs to a transfer (`Copy` or `Update`).
pub fn is_transfer_action(action: &str) -> (r: bool)
    ensures
        r == (action@ == "Copy"@ || action@ == "Update"@),
{
    crate::textutil::str_eq(action, "Copy") || crate::textutil::str_eq(action, "Update")
}

/// Whether the plan holds anything besides `Skip` actions.
pub fn has_executable_actions(plan: &DiffPlan) -> (r: bool)
    ensures
        r == exists|k: int| 0 <= k < plan.actions@.len() && !((#[trigger] plan.actions@[k]) is Skip),
{
    let n = plan.actions.len();
    let mut i: usize = 0;
    while i < n
        invariant
            i <= n,
            n == plan.actions@.len(),
            forall|k: int| 0 <= k < i ==> (#[trigger] plan.actions@[k]) is Skip,
        decreases n - i,
    {
        if !plan.actions[i].is_skip() {
            return true;
        }
        i = i + 1;
    }
    false
}

/// The destination path a single-file sync writes to: inside an existing
/// destination directory the source's file name is appended, otherwise the
/// destination path is used verbatim.
pub fn resolve_single_file_destination_path(config: &Config, destination_is_dir: bool) -> (r:
    Result<String, KopyError>)
    ensures
        destination_is_dir && spec_file_name(config.source@).len() > 0 ==> (r matches Ok(p) && p@
            == spec_path_join(config.destination@, spec_file_name(config.source@))),
        destination_is_dir && spec_file_name(config.source@).len() == 0 ==> (r matches Err(e) && (
        e matches KopyError::Config(m) && m@ == "Invalid source file name"@)),
        !destination_is_dir ==> (r matches Ok(p) && p@ == config.destination@),
{
    if destination_is_dir {
        let file_name = crate::pathutil::file_name_of(config.source.as_str());
        if file_name.unicode_len() == 0 {
            return Err(KopyError::Config("Invalid source file name".to_owned()));
        }
        Ok(crate::pathutil::path_join(config.destination.as_str(), file_name.as_str()))
    } else {
        Ok(config.destination.clone())
    }
}

/// The dry-run listing line of one action (`Skip` prints nothing).
pub open spec fn spec_dry_run_line(a: SyncAction) -> Seq<char> {
    match a {
        SyncAction::CopyNew(e) => "\n  COPY      "@ + e.path@,
        SyncAction::Overwrite(e) => "\n  UPDATE    "@ + e.path@,
        SyncAction::Delete(p) => "\n  DELETE    "@ + p@,
        SyncAction::Move { from, to } => "\n  MOVE      "@ + from@ + " -> "@ + to@,
        SyncAction::Skip => Seq::empty(),
    }
}

/// The listing lines of a whole action sequence.
pub open spec fn spec_dry_run_body(s: Seq<SyncAction>) -> Seq<char>
    decreases s.len(),
{
    if s.len() == 0 {
        Seq::empty()
    } else {
        spec_dry_run_body(s.drop_last()) + spec_dry_run_line(s.last())
    }
}

/// The full dry-run report: a heading, one line per planned action in order,
/// and a trailing count of the omitted unchanged files.
pub open spec fn spec_dry_run_report(s: Seq<SyncAction>) -> Seq<char> {
    if s.len() == 0 {
        "Dry-run actions:\n  (no planned actions)"@
    } else {
        "Dry-run actions:"@ + spec_dry_run_body(s) + if count_skip(s) > 0 {
            "\n  ("@ + spec_decimal(count_skip(s) as nat) + " unchanged file(s) omitted)"@
        } else {
            Seq::empty()
        }
    }
}

/// Render the per-action dry-run listing.
#[verifier::loop_isolation(false)]
pub fn format_dry_run_actions(plan: &DiffPlan) -> (r: String)
    requires
        plan.wf(),
    ensures
        r@ == spec_dry_run_report(plan.actions@),
{
    proof {
        reveal_strlit("Dry-run actions:\n  (no planned actions)");
        reveal_strlit("Dry-run actions:");
        reveal_strlit("\n  COPY      ");
        reveal_strlit("\n  UPDATE    ");
        reveal_strlit("\n  DELETE    ");
        reveal_strlit("\n  MOVE      ");
        reveal_strlit(" -> ");
        reveal_strlit("\n  (");
        reveal_strlit(" unchanged file(s) omitted)");
    }
    if plan.actions.is_empty() {
        return "Dry-run actions:\n  (no planned actions)".to_owned();
    }
    let mut out = "Dry-run actions:".to_owned();
    let ghost base = out@;
    let mut skipped: usize = 0;
    let n = plan.actions.len();
    let mut i: usize = 0;
    proof {
        assert(plan.actions@.subrange(0, 0) =~= Seq::<SyncAction>::empty());
        lemma_plan_total_bounds(plan.actions@, 3);
    }
    while i < n
        invariant
            i <= n,
            n == plan.actions@.len(),
            out@ == base + spec_dry_run_body(plan.actions@.subrange(0, i as int)),
            skipped == count_skip(plan.actions@.subrange(0, i as int)),
            skipped <= i,
        decreases n - i,
    {
        proof {
            assert(plan.actions@.subrange(0, i + 1).drop_last() =~= plan.actions@.subrange(
                0,
                i as int,
            ));
            assert(plan.actions@.subrange(0, i + 1).last() == plan.actions@[i as int]);
        }
        match &plan.actions[i] {
            SyncAction::CopyNew(e) => {
                out.append("\n  COPY      ");
                out.append(e.path.as_str());
            },
            SyncAction::Overwrite(e) => {
                out.append("\n  UPDATE    ");
                out.append(e.path.as_str());
            },
            SyncAction::Delete(p) => {
                out.append("\n  DELETE    ");
                out.append(p.as_str());
            },
            SyncAction::Move { from, to } => {
                out.append("\n  MOVE      ");
                out.append(from.as_str());
                out.append(" -> ");
                out.append(to.as_str());
            },
            SyncAction::Skip => {
                skipped = skipped + 1;
            },
        }
        proof {
            assert(out@ =~= base + spec_dry_run_body(plan.actions@.subrange(0, i + 1)));
        }
        i = i + 1;
    }
    proof {
        assert(plan.actions@.subrange(0, n as int) =~= plan.actions@);
    }
    if skipped > 0 {
        out.append("\n  (");
        let c = usize_to_string(skipped);
        out.append(c.as_str());
        out.append(" unchanged file(s) omitted)");
        proof {
            assert(out@ =~= spec_dry_run_report(plan.actions@));
        }
    }
    out
}

/// The plain-English message for an error, as the final summary shows it.
pub open spec fn spec_humanized_message(e: KopyError) -> Seq<char> {
    match e {
        KopyError::Io(io) => {
            if io.kind == IoErrorKind::NotFound {
                "File or directory was not found"@
            } else if io.kind == IoErrorKind::PermissionDenied {
                "Permission denied while accessing file"@
            } else if io.kind == IoErrorKind::AlreadyExists {
                "The destination path already exists as a file or directory"@
            } else if io.kind == IoErrorKind::WriteZero || io.kind == IoErrorKind::BrokenPipe
                || io.kind == IoErrorKind::UnexpectedEof {
                "File transfer was interrupted before completion"@
            } else {
                "I/O operation failed: "@ + io.message@
            }
        },
        KopyError::PermissionDenied { .. } => "Permission denied while accessing file"@,
        KopyError::DiskFull { .. } => "Not enough disk space to complete operation"@,
        KopyError::ChecksumMismatch { .. } => "File content verification failed"@,
        KopyError::TransferInterrupted { .. } => "File transfer was interrupted before completion"@,
        KopyError::Config(m) => m@,
        KopyError::Validation(m) => m@,
        KopyError::SshError(m) => m@,
        KopyError::DryRun => "Dry-run mode: no changes were made"@,
    }
}

/// The suggested remedy for an error, where one helps.
pub open spec fn spec_humanized_suggestion(e: KopyError) -> Option<Seq<char>> {
    match e {
        KopyError::Io(io) => {
            if io.kind == IoErrorKind::NotFound {
                Some("Verify the path still exists and retry."@)
            } else if io.kind == IoErrorKind::PermissionDenied {
                Some("Check file permissions or run with a user that has access."@)
            } else if io.kind == IoErrorKind::AlreadyExists {
                Some("Remove or rename the conflicting path, then retry."@)
            } else if io.kind == IoErrorKind::WriteZero || io.kind == IoErrorKind::BrokenPipe
                || io.kind == IoErrorKind::UnexpectedEof {
                Some("Retry the sync and check disk/network stability."@)
            } else {
                Some(
                    "Retry the sync. If this keeps happening, check disk health and permissions."@,
                )
            }
        },
        KopyError::PermissionDenied { .. } => Some(
            "Check file permissions or run with a user that has access."@,
        ),
        KopyError::DiskFull { .. } => Some("Free disk space on destination and retry."@),
        KopyError::ChecksumMismatch { .. } => Some(
            "Re-run with --checksum and inspect source/destination file integrity."@,
        ),
        KopyError::TransferInterrupted { .. } => Some(
            "Retry the sync. If this keeps happening, check system stability."@,
        ),
        KopyError::Config(_) => Option::None,
        KopyError::Validation(_) => Option::None,
        KopyError::SshError(_) => Some("Check SSH connectivity and credentials."@),
        KopyError::DryRun => Option::None,
    }
}

/// Turn an error into its plain-English message and suggested remedy.
pub fn humanize_error(error: &KopyError) -> (r: (String, Option<String>))
    ensures
        r.0@ == spec_humanized_message(*error),
        match r.1 {
            Some(s) => spec_humanized_suggestion(*error) == Some(s@),
            Option::None => spec_humanized_suggestion(*error) is None,
        },
{
    match error {
        KopyError::Io(io) => {
            match io.kind {
                IoErrorKind::NotFound => (
                    "File or directory was not found".to_owned(),
                    Some("Verify the path still exists and retry.".to_owned()),
                ),
                IoErrorKind::PermissionDenied => (
                    "Permission denied while accessing file".to_owned(),
                    Some("Check file permissions or run with a user that has access.".to_owned()),
                ),
                IoErrorKind::AlreadyExists => (
                    "The destination path already exists as a file or directory".to_owned(),
                    Some("Remove or rename the conflicting path, then retry.".to_owned()),
                ),
                IoErrorKind::WriteZero | IoErrorKind::BrokenPipe | IoErrorKind::UnexpectedEof => (
                    "File transfer was interrupted before completion".to_owned(),
                    Some("Retry the sync and check disk/network stability.".to_owned()),
                ),
                _ => {
                    let mut m = "I/O operation failed: ".to_owned();
                    m.append(io.message.as_str());
                    (
                        m,
                        Some(
                            "Retry the sync. If this keeps happening, check disk health and permissions.".to_owned(),
                        ),
                    )
                },
            }
        },
        KopyError::PermissionDenied { .. } => (
            "Permission denied while accessing file".to_owned(),
            Some("Check file permissions or run with a user that has access.".to_owned()),
        ),
        KopyError::DiskFull { .. } => (
            "Not enough disk space to complete operation".to_owned(),
            Some("Free disk space on destination and retry.".to_owned()),
        ),
        KopyError::ChecksumMismatch { .. } => (
            "File content verification failed".to_owned(),
            Some("Re-run with --checksum and inspect source/destination file integrity.".to_owned()),
        ),
        KopyError::TransferInterrupted { .. } => (
            "File transfer was interrupted before completion".to_owned(),
            Some("Retry the sync. If this keeps happening, check system stability.".to_owned()),
        ),
        KopyError::Config(m) => (m.clone(), None),
        KopyError::Validation(m) => (m.clone(), None),
        KopyError::SshError(m) => (m.clone(), Some("Check SSH connectivity and credentials.".to_owned())),
        KopyError::DryRun => ("Dry-run mode: no changes were made".to_owned(), None),
    }
}

/// The kind label an error is grouped under in the final summary.
pub open spec fn spec_error_kind_label(e: KopyError) -> Seq<char> {
    match e {
        KopyError::Io(_) => "I/O error"@,
        KopyError::Config(_) => "Configuration error"@,
        KopyError::Validation(_) => "Validation error"@,
        KopyError::PermissionDenied { .. } => "Permission denied"@,
        KopyError::DiskFull { .. } => "Disk full"@,
        KopyError::ChecksumMismatch { .. } => "Checksum mismatch"@,
        KopyError::TransferInterrupted { .. } => "Transfer interrupted"@,
        KopyError::SshError(_) => "SSH error"@,
        KopyError::DryRun => "Dry run"@,
    }
}

/// The kind label an error is grouped under.
pub fn error_kind_label(error: &KopyError) -> (r: &'static str)
    ensures
        r@ == spec_error_kind_label(*error),
{
    match error {
        KopyError::Io(_) => "I/O error",
        KopyError::Config(_) => "Configuration error",
        KopyError::Validation(_) => "Validation error",
        KopyError::PermissionDenied { .. } => "Permission denied",
        KopyError::DiskFull { .. } => "Disk full",
        KopyError::ChecksumMismatch { .. } => "Checksum mismatch",
        KopyError::TransferInterrupted { .. } => "Transfer interrupted",
        KopyError::SshError(_) => "SSH error",
        KopyError::DryRun => "Dry run",
    }
}

/// One collected failure, humanized for the final summary.
#[derive(Debug, PartialEq)]
pub struct ErrorRecord {
    /// The kind label the record is grouped under.
    pub kind: &'static str,
    /// The path the failing action operated on, if any.
    pub path: Option<String>,
    /// The plain-English message.
    pub message: String,
    /// The suggested remedy, where one helps.
    pub suggestion: Option<String>,
}

impl Clone for ErrorRecord {
    fn clone(&self) -> (r: Self)
        ensures
            r == *self,
    {
        ErrorRecord {
            kind: self.kind,
            path: match &self.path {
                Some(p) => Some(p.clone()),
                Option::None => None,
            },
            message: self.message.clone(),
            suggestion: match &self.suggestion {
                Some(s) => Some(s.clone()),
                Option::None => None,
            },
        }
    }
}

impl ErrorRecord {
    /// Humanize one failure.
    pub fn new(path: Option<&String>, error: &KopyError) -> (r: Self)
        ensures
            r.kind@ == spec_error_kind_label(*error),
            r.message@ == spec_humanized_message(*error),
            match r.path {
                Some(p) => path matches Some(q) && p@ == q@,
                Option::None => path is None,
            },
            match r.suggestion {
                Some(s) => spec_humanized_suggestion(*error) == Some(s@),
                Option::None => spec_humanized_suggestion(*error) is None,
            },
    {
        let (message, suggestion) = humanize_error(error);
        ErrorRecord {
            kind: error_kind_label(error),
            path: match path {
                Some(p) => Some(p.clone()),
                Option::None => None,
            },
            message,
            suggestion,
        }
    }
}

/// The records carrying the given kind label, in their original order.
pub open spec fn records_of_kind(records: Seq<ErrorRecord>, kind: Seq<char>) -> Seq<ErrorRecord>
    decreases records.len(),
{
    if records.len() == 0 {
        Seq::empty()
    } else {
        let front = records_of_kind(records.drop_last(), kind);
        if records.last().kind@ == kind {
            front.push(records.last())
        } else {
            front
        }
    }
}

/// The summary block of one record: its message, then its path and remedy
/// where present.
pub open spec fn spec_record_block(r: ErrorRecord) -> Seq<char> {
    "\n    - "@ + r.message@ + (match r.path {
        Some(p) => "\n      Path: "@ + p@,
        Option::None => Seq::empty(),
    }) + (match r.suggestion {
        Some(s) => "\n      Try: "@ + s@,
        Option::None => Seq::empty(),
    })
}

/// The blocks of a record list, in order.
pub open spec fn spec_record_blocks(rs: Seq<ErrorRecord>) -> Seq<char>
    decreases rs.len(),
{
    if rs.len() == 0 {
        Seq::empty()
    } else {
        spec_record_blocks(rs.drop_last()) + spec_record_block(rs.last())
    }
}

/// The section of one kind: a heading with the count, the first three records,
/// and a line counting the rest; empty when no record has the kind.
pub open spec fn spec_kind_section(records: Seq<ErrorRecord>, kind: Seq<char>) -> Seq<char> {
    let of = records_of_kind(records, kind);
    if of.len() == 0 {
        Seq::empty()
    } else {
        "\n  "@ + kind + " ("@ + spec_decimal(of.len() as nat) + "):"@ + spec_record_blocks(
            if of.len() <= 3 {
                of
            } else {
                of.subrange(0, 3)
            },
        ) + if of.len() > 3 {
            "\n    - ... "@ + spec_decimal((of.len() - 3) as nat) + " more"@
        } else {
            Seq::empty()
        }
    }
}

/// The whole summary: a heading, then one section per kind label, the kinds in
/// their alphabetical order.
pub open spec fn spec_error_report(records: Seq<ErrorRecord>) -> Seq<char> {
    "Error summary:"@ + spec_kind_section(records, "Checksum mismatch"@) + spec_kind_section(
        records,
        "Configuration error"@,
    ) + spec_kind_section(records, "Disk full"@) + spec_kind_section(records, "Dry run"@)
        + spec_kind_section(records, "I/O error"@) + spec_kind_section(
        records,
        "Permission denied"@,
    ) + spec_kind_section(records, "SSH error"@) + spec_kind_section(
        records,
        "Transfer interrupted"@,
    ) + spec_kind_section(records, "Validation error"@)
}

#[verifier::loop_isolation(false)]
fn collect_of_kind(records: &Vec<ErrorRecord>, kind: &str) -> (r: Vec<ErrorRecord>)
    ensures
        r@ == records_of_kind(records@, kind@),
{
    let mut out: Vec<ErrorRecord> = Vec::new();
    let n = records.len();
    let mut i: usize = 0;
    proof {
        assert(records@.subrange(0, 0) =~= Seq::<ErrorRecord>::empty());
    }
    while i < n
        invariant
            i <= n,
            n == records@.len(),
            out@ == records_of_kind(records@.subrange(0, i as int), kind@),
        decreases n - i,
    {
        proof {
            assert(records@.subrange(0, i + 1).drop_last() =~= records@.subrange(0, i as int));
            assert(records@.subrange(0, i + 1).last() == records@[i as int]);
        }
        if crate::textutil::str_eq(records[i].kind, kind) {
            out.push(records[i].clone());
        }
        i = i + 1;
    }
    proof {
        assert(records@.subrange(0, n as int) =~= records@);
    }
    out
}

fn record_block(r: &ErrorRecord) -> (out: String)
    ensures
        out@ == spec_record_block(*r),
{
    proof {
        reveal_strlit("\n    - ");
        reveal_strlit("\n      Path: ");
        reveal_strlit("\n      Try: ");
    }
    let mut out = "\n    - ".to_owned();
    out.append(r.message.as_str());
    match &r.path {
        Some(p) => {
            out.append("\n      Path: ");
            out.append(p.as_str());
        },
        Option::None => {},
    }
    match &r.suggestion {
        Some(s) => {
            out.append("\n      Try: ");
            out.append(s.as_str());
        },
        Option::None => {},
    }
    proof {
        assert(out@ =~= spec_record_block(*r));
    }
    out
}

#[verifier::loop_isolation(false)]
fn kind_section(records: &Vec<ErrorRecord>, kind: &'static str) -> (out: String)
    ensures
        out@ == spec_kind_section(records@, kind@),
{
    proof {
        reveal_strlit("\n  ");
        reveal_strlit(" (");
        reveal_strlit("):");
        reveal_strlit("\n    - ... ");
        reveal_strlit(" more");
        reveal_strlit("");
    }
    let of = collect_of_kind(records, kind);
    if of.is_empty() {
        proof {
            assert(""@ =~= Seq::<char>::empty());
        }
        return "".to_owned();
    }
    let mut out = "\n  ".to_owned();
    out.append(kind);
    out.append(" (");
    let c = usize_to_string(of.len());
    out.append(c.as_str());
    out.append("):");
    let shown = if of.len() <= 3 {
        of.len()
    } else {
        3
    };
    let ghost shown_seq = if of@.len() <= 3 {
        of@
    } else {
        of@.subrange(0, 3)
    };
    let ghost base = out@;
    let mut i: usize = 0;
    proof {
        assert(shown_seq.subrange(0, 0) =~= Seq::<ErrorRecord>::empty());
    }
    while i < shown
        invariant
            i <= shown,
            shown <= of@.len(),
            shown == shown_seq.len(),
            forall|k: int| 0 <= k < shown ==> shown_seq[k] == of@[k],
            out@ == base + spec_record_blocks(shown_seq.subrange(0, i as int)),
        decreases shown - i,
    {
        proof {
            assert(shown_seq.subrange(0, i + 1).drop_last() =~= shown_seq.subrange(0, i as int));
            assert(shown_seq.subrange(0, i + 1).last() == shown_seq[i as int]);
        }
        let block = record_block(&of[i]);
        out.append(block.as_str());
        proof {
            assert(out@ =~= base + spec_record_blocks(shown_seq.subrange(0, i + 1)));
        }
        i = i + 1;
    }
    proof {
        assert(shown_seq.subrange(0, shown as int) =~= shown_seq);
    }
    if of.len() > 3 {
        out.append("\n    - ... ");
        let more = usize_to_string(of.len() - 3);
        out.append(more.as_str());
        out.append(" more");
    }
    proof {
        assert(out@ =~= spec_kind_section(records@, kind@));
    }
    out
}

/// Render the end-of-run error summary: failures grouped by kind, kinds in
/// alphabetical order, with at most three records shown per kind.
pub fn format_error_summary(records: &Vec<ErrorRecord>) -> (r: String)
    ensures
        r@ == spec_error_report(records@),
{
    proof {
        reveal_strlit("Error summary:");
    }
    let mut out = "Error summary:".to_owned();
    let s1 = kind_section(records, "Checksum mismatch");
    out.append(s1.as_str());
    let s2 = kind_section(records, "Configuration error");
    out.append(s2.as_str());
    let s3 = kind_section(records, "Disk full");
    out.append(s3.as_str());
    let s4 = kind_section(records, "Dry run");
    out.append(s4.as_str());
    let s5 = kind_section(records, "I/O error");
    out.append(s5.as_str());
    let s6 = kind_section(records, "Permission denied");
    out.append(s6.as_str());
    let s7 = kind_section(records, "SSH error");
    out.append(s7.as_str());
    let s8 = kind_section(records, "Transfer interrupted");
    out.append(s8.as_str());
    let s9 = kind_section(records, "Validation error");
    out.append(s9.as_str());
    proof {
        assert(out@ =~= spec_error_report(records@));
    }
    out
}

} // verus!
