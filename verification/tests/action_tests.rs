use kopy::DeleteMode;
use kopy::FileEntry;
use kopy::SyncAction;

fn create_test_entry(name: &str, size: u64) -> FileEntry {
    FileEntry::new(name.to_string(), size, 1000, 0o644)
}

// SyncAction Tests

#[test]
fn test_copy_new_variant() {
    let entry = create_test_entry("file.txt", 1024);
    let action = SyncAction::CopyNew(entry.clone());

    assert!(action.is_copy_new());
    assert!(!action.is_overwrite());
    assert!(!action.is_delete());
    assert!(!action.is_move());
    assert!(!action.is_skip());
    assert!(action.requires_transfer());
    assert_eq!(action.action_name(), "Copy");
    assert_eq!(action.path(), Some(&"file.txt".to_string()));
    assert_eq!(action.file_entry(), Some(&entry));
}

#[test]
fn test_overwrite_variant() {
    let entry = create_test_entry("existing.txt", 2048);
    let action = SyncAction::Overwrite(entry.clone());

    assert!(!action.is_copy_new());
    assert!(action.is_overwrite());
    assert!(!action.is_delete());
    assert!(!action.is_move());
    assert!(!action.is_skip());
    assert!(action.requires_transfer());
    assert_eq!(action.action_name(), "Update");
    assert_eq!(action.path(), Some(&"existing.txt".to_string()));
    assert_eq!(action.file_entry(), Some(&entry));
}

#[test]
fn test_delete_variant() {
    let path = "old_file.txt".to_string();
    let action = SyncAction::Delete(path.clone());

    assert!(!action.is_copy_new());
    assert!(!action.is_overwrite());
    assert!(action.is_delete());
    assert!(!action.is_move());
    assert!(!action.is_skip());
    assert!(!action.requires_transfer());
    assert_eq!(action.action_name(), "Delete");
    assert_eq!(action.path(), Some(&path));
    assert_eq!(action.file_entry(), None);
}

#[test]
fn test_skip_variant() {
    let action = SyncAction::Skip;

    assert!(!action.is_copy_new());
    assert!(!action.is_overwrite());
    assert!(!action.is_delete());
    assert!(!action.is_move());
    assert!(action.is_skip());
    assert!(!action.requires_transfer());
    assert_eq!(action.action_name(), "Skip");
    assert_eq!(action.path(), None);
    assert_eq!(action.file_entry(), None);
}

#[test]
fn test_move_variant() {
    let from = "old_location.txt".to_string();
    let to = "new_location.txt".to_string();
    let action = SyncAction::Move { from: from.clone(), to: to.clone() };

    assert!(!action.is_copy_new());
    assert!(!action.is_overwrite());
    assert!(!action.is_delete());
    assert!(action.is_move());
    assert!(!action.is_skip());
    assert!(!action.requires_transfer());
    assert_eq!(action.action_name(), "Move");
    assert_eq!(action.path(), Some(&to));
    assert_eq!(action.file_entry(), None);
}

#[test]
fn test_requires_transfer() {
    let entry = create_test_entry("file.txt", 100);

    assert!(SyncAction::CopyNew(entry.clone()).requires_transfer());
    assert!(SyncAction::Overwrite(entry).requires_transfer());
    assert!(!SyncAction::Delete("file.txt".to_string()).requires_transfer());
    assert!(!SyncAction::Skip.requires_transfer());
    assert!(
        !SyncAction::Move { from: "a".to_string(), to: "b".to_string() }.requires_transfer()
    );
}

#[test]
fn test_path_extraction() {
    let entry = create_test_entry("test.txt", 500);
    let path = "delete.txt".to_string();

    assert_eq!(SyncAction::CopyNew(entry.clone()).path(), Some(&"test.txt".to_string()));
    assert_eq!(SyncAction::Overwrite(entry).path(), Some(&"test.txt".to_string()));
    assert_eq!(SyncAction::Delete(path.clone()).path(), Some(&path));
    assert_eq!(SyncAction::Skip.path(), None);
    assert_eq!(
        SyncAction::Move { from: "old".to_string(), to: "new".to_string() }.path(),
        Some(&"new".to_string())
    );
}

#[test]
fn test_file_entry_extraction() {
    let entry = create_test_entry("file.txt", 1024);

    assert_eq!(SyncAction::CopyNew(entry.clone()).file_entry(), Some(&entry));
    assert_eq!(SyncAction::Overwrite(entry.clone()).file_entry(), Some(&entry));
    assert_eq!(SyncAction::Delete("file.txt".to_string()).file_entry(), None);
    assert_eq!(SyncAction::Skip.file_entry(), None);
    assert_eq!(
        SyncAction::Move { from: "a".to_string(), to: "b".to_string() }.file_entry(),
        None
    );
}

#[test]
fn test_action_name() {
    let entry = create_test_entry("file.txt", 100);

    assert_eq!(SyncAction::CopyNew(entry.clone()).action_name(), "Copy");
    assert_eq!(SyncAction::Overwrite(entry).action_name(), "Update");
    assert_eq!(SyncAction::Delete("file.txt".to_string()).action_name(), "Delete");
    assert_eq!(SyncAction::Skip.action_name(), "Skip");
    assert_eq!(
        SyncAction::Move { from: "a".to_string(), to: "b".to_string() }.action_name(),
        "Move"
    );
}

#[test]
fn test_pattern_matching() {
    let entry = create_test_entry("file.txt", 100);
    let actions = vec![
        SyncAction::CopyNew(entry.clone()),
        SyncAction::Overwrite(entry),
        SyncAction::Delete("old.txt".to_string()),
        SyncAction::Skip,
        SyncAction::Move { from: "a".to_string(), to: "b".to_string() },
    ];

    let mut copy_count = 0;
    let mut overwrite_count = 0;
    let mut delete_count = 0;
    let mut skip_count = 0;
    let mut move_count = 0;

    for action in actions {
        match action {
            SyncAction::CopyNew(_) => copy_count += 1,
            SyncAction::Overwrite(_) => overwrite_count += 1,
            SyncAction::Delete(_) => delete_count += 1,
            SyncAction::Skip => skip_count += 1,
            SyncAction::Move { .. } => move_count += 1,
        }
    }

    assert_eq!(copy_count, 1);
    assert_eq!(overwrite_count, 1);
    assert_eq!(delete_count, 1);
    assert_eq!(skip_count, 1);
    assert_eq!(move_count, 1);
}

#[test]
fn test_sync_action_equality() {
    let entry1 = create_test_entry("file.txt", 100);
    let entry2 = create_test_entry("file.txt", 100);
    let entry3 = create_test_entry("other.txt", 200);

    assert_eq!(SyncAction::CopyNew(entry1.clone()), SyncAction::CopyNew(entry2));
    assert_ne!(SyncAction::CopyNew(entry1), SyncAction::CopyNew(entry3));
    assert_eq!(SyncAction::Skip, SyncAction::Skip);
    assert_ne!(
        SyncAction::Delete("a.txt".to_string()),
        SyncAction::Delete("b.txt".to_string())
    );
}

// DeleteMode Tests

#[test]
fn test_delete_mode_default() {
    let mode: DeleteMode = Default::default();
    assert_eq!(mode, DeleteMode::Off);
}

#[test]
fn test_delete_mode_safety() {
    assert!(DeleteMode::Off.is_safe());
    assert!(DeleteMode::Trash.is_safe());
    assert!(!DeleteMode::Permanent.is_safe());

    assert!(!DeleteMode::Off.is_destructive());
    assert!(!DeleteMode::Trash.is_destructive());
    assert!(DeleteMode::Permanent.is_destructive());
}

#[test]
fn test_delete_mode_description() {
    assert_eq!(DeleteMode::Off.description(), "No deletions");
    assert_eq!(DeleteMode::Trash.description(), "Move to trash (recoverable)");
    assert_eq!(DeleteMode::Permanent.description(), "Permanent deletion (DANGEROUS)");
}

#[test]
fn test_delete_mode_equality() {
    assert_eq!(DeleteMode::Off, DeleteMode::Off);
    assert_eq!(DeleteMode::Trash, DeleteMode::Trash);
    assert_eq!(DeleteMode::Permanent, DeleteMode::Permanent);

    assert_ne!(DeleteMode::Off, DeleteMode::Trash);
    assert_ne!(DeleteMode::Trash, DeleteMode::Permanent);
    assert_ne!(DeleteMode::Off, DeleteMode::Permanent);
}

#[test]
fn test_delete_mode_copy() {
    let mode1 = DeleteMode::Trash;
    let mode2 = mode1; // Copy trait

    assert_eq!(mode1, mode2);
    assert_eq!(mode1, DeleteMode::Trash);
}
