use kopy::Config;
use kopy::FileEntry;
use kopy::KopyError;
use kopy::SyncAction;
use kopy::error::IoErrorData;
use kopy::error::IoErrorKind;
use kopy::plan::DiffPlan;
use kopy::report::ErrorRecord;
use kopy::report::format_dry_run_actions;
use kopy::report::format_error_summary;
use kopy::report::has_executable_actions;
use kopy::report::is_transfer_action;
use kopy::report::resolve_single_file_destination_path;

#[test]
fn test_is_transfer_action() {
    assert!(is_transfer_action("Copy"));
    assert!(is_transfer_action("Update"));
    assert!(!is_transfer_action("Delete"));
    assert!(!is_transfer_action("Skip"));
    assert!(!is_transfer_action("Move"));
}

#[test]
fn test_has_executable_actions_skip_only_is_false() {
    let mut plan = DiffPlan::new();
    plan.add_action(SyncAction::Skip);
    plan.add_action(SyncAction::Skip);
    assert!(!has_executable_actions(&plan));
}

#[test]
fn test_has_executable_actions_transfer_is_true() {
    let mut plan = DiffPlan::new();
    plan.add_action(SyncAction::Skip);
    plan.add_action(SyncAction::CopyNew(FileEntry::new("a.txt".to_string(), 0, 1000, 0o644)));
    assert!(has_executable_actions(&plan));
}

#[test]
fn test_format_dry_run_actions_lists_planned_actions() {
    let mut plan = DiffPlan::new();
    plan.add_action(SyncAction::CopyNew(FileEntry::new("copy.txt".to_string(), 1, 1000, 0o644)));
    plan.add_action(SyncAction::Overwrite(FileEntry::new(
        "update.txt".to_string(),
        2,
        2000,
        0o644,
    )));
    plan.add_action(SyncAction::Delete("delete.txt".to_string()));
    plan.add_action(SyncAction::Skip);

    let preview = format_dry_run_actions(&plan);
    assert!(preview.contains("Dry-run actions:"));
    assert!(preview.contains("COPY      copy.txt"));
    assert!(preview.contains("UPDATE    update.txt"));
    assert!(preview.contains("DELETE    delete.txt"));
    assert!(preview.contains("unchanged file(s) omitted"));
}

#[test]
fn test_format_dry_run_actions_handles_empty_plan() {
    let plan = DiffPlan::new();
    let preview = format_dry_run_actions(&plan);
    assert!(preview.contains("(no planned actions)"));
}

#[test]
fn test_format_error_summary_groups_by_kind() {
    let records = vec![
        ErrorRecord {
            kind: "Permission denied",
            path: Some("a.txt".to_string()),
            message: "Permission denied while accessing file".to_string(),
            suggestion: Some(
                "Check file permissions or run with a user that has access.".to_string(),
            ),
        },
        ErrorRecord {
            kind: "Disk full",
            path: Some("b.txt".to_string()),
            message: "Not enough disk space to complete operation".to_string(),
            suggestion: Some("Free disk space on destination and retry.".to_string()),
        },
        ErrorRecord {
            kind: "Permission denied",
            path: Some("c.txt".to_string()),
            message: "Permission denied while creating output file".to_string(),
            suggestion: Some(
                "Check file permissions or run with a user that has access.".to_string(),
            ),
        },
    ];

    let summary = format_error_summary(&records);
    assert!(summary.contains("Error summary:"));
    assert!(summary.contains("Permission denied (2):"));
    assert!(summary.contains("Disk full (1):"));
    assert!(summary.contains("Path: a.txt"));
    assert!(summary.contains("Try: Check file permissions or run with a user that has access."));
}

#[test]
fn test_error_record_io_error_is_plain_english_with_suggestion() {
    let err = KopyError::Io(IoErrorData::new(
        IoErrorKind::AlreadyExists,
        "File exists".to_string(),
    ));
    let record = ErrorRecord::new(Some(&"nested/file.txt".to_string()), &err);

    assert_eq!(record.kind, "I/O error");
    assert!(record.message.contains("destination path already exists as a file"));
    assert!(record.path.as_ref().is_some_and(|p| p == &"nested/file.txt".to_string()));
    assert!(record
        .suggestion
        .as_deref()
        .is_some_and(|s| s.contains("Remove or rename the conflicting path")));
}

#[test]
fn test_format_error_summary_caps_records_per_kind() {
    let mut records = Vec::new();
    for i in 0..5 {
        records.push(ErrorRecord {
            kind: "Disk full",
            path: Some(format!("f{}.bin", i)),
            message: "Not enough disk space to complete operation".to_string(),
            suggestion: None,
        });
    }
    let summary = format_error_summary(&records);
    assert!(summary.contains("Disk full (5):"));
    assert!(summary.contains("- ... 2 more"));
    assert!(summary.contains("Path: f0.bin"));
    assert!(summary.contains("Path: f2.bin"));
    assert!(!summary.contains("Path: f3.bin"));
}

#[test]
fn test_resolve_single_file_destination() {
    let config = Config {
        source: "/home/user/notes.txt".to_string(),
        destination: "/backup".to_string(),
        ..Default::default()
    };
    // Existing destination directory: append the source file name.
    let into_dir = resolve_single_file_destination_path(&config, true).unwrap();
    assert_eq!(into_dir, "/backup/notes.txt");
    // Otherwise the destination path is used verbatim.
    let verbatim = resolve_single_file_destination_path(&config, false).unwrap();
    assert_eq!(verbatim, "/backup");
}

#[test]
fn test_default_config() {
    let config = Config::default();

    assert_eq!(config.delete_mode, kopy::DeleteMode::Off);
    assert!(!config.dry_run);
    assert!(!config.checksum_mode);
    assert!(config.exclude_patterns.is_empty());
    assert!(config.include_patterns.is_empty());
    assert_eq!(config.scan_mode, kopy::config::ScanMode::Auto);
}

#[test]
fn test_validate_roots_rejects_missing_source() {
    let config = Config {
        source: "/nonexistent/path".to_string(),
        destination: "/some/other/path".to_string(),
        ..Default::default()
    };
    let resolved_src = "/nonexistent/path".to_string();
    let resolved_dst = "/some/other/path".to_string();
    let result = config.validate_roots(false, false, false, false, false, &resolved_src, &resolved_dst);
    assert!(result.is_err());
    if let Err(KopyError::Config(msg)) = result {
        assert!(msg.contains("does not exist"));
    } else {
        panic!("Expected Config error");
    }
}

#[test]
fn test_validate_roots_rejects_nested_roots() {
    let config = Config {
        source: "/data/src".to_string(),
        destination: "/data/src/backup".to_string(),
        ..Default::default()
    };
    let resolved_src = "/data/src".to_string();
    let resolved_dst = "/data/src/backup".to_string();
    let result = config.validate_roots(true, true, false, false, false, &resolved_src, &resolved_dst);
    assert!(result.is_err());
    if let Err(KopyError::Config(msg)) = result {
        assert!(msg.contains("cannot be nested"));
    } else {
        panic!("Expected Config error");
    }
}

#[test]
fn test_validate_roots_accepts_siblings() {
    let config = Config {
        source: "/data/src".to_string(),
        destination: "/data/dst".to_string(),
        ..Default::default()
    };
    let resolved_src = "/data/src".to_string();
    let resolved_dst = "/data/dst".to_string();
    let result = config.validate_roots(true, true, false, true, true, &resolved_src, &resolved_dst);
    assert!(result.is_ok());
}
