//! Diff engine tests: comparing file trees and generating sync plans.

use kopy::Config;
use kopy::DeleteMode;
use kopy::FileEntry;
use kopy::FileTree;
use kopy::SyncAction;
use kopy::compare::compare_files;
use kopy::config::ScanMode;
use kopy::diff::generate_sync_plan;

fn create_test_entry(name: &str, size: u64, mtime_secs: u64) -> FileEntry {
    FileEntry::new(name.to_string(), size, mtime_secs, 0o644)
}

fn create_test_symlink_entry(name: &str, target: &str, mtime_secs: u64) -> FileEntry {
    FileEntry::new_symlink(name.to_string(), 0, mtime_secs, 0o777, target.to_string())
}

fn create_test_config(delete_mode: DeleteMode) -> Config {
    Config {
        source: "/src".to_string(),
        destination: "/dest".to_string(),
        delete_mode,
        dry_run: false,
        checksum_mode: false,
        exclude_patterns: vec![],
        include_patterns: vec![],
        threads: 4,
        scan_mode: ScanMode::Auto,
        bandwidth_limit: None,
        backup_dir: None,
        watch: false,
        watch_settle: 2,
    }
}

#[test]
fn test_compare_size_mismatch() {
    let src = create_test_entry("file.txt", 1024, 1000);
    let dest = create_test_entry("file.txt", 2048, 1000); // Different size
    let config = create_test_config(DeleteMode::Off);

    let action = compare_files(&src, &dest, &config);

    assert!(action.is_overwrite(), "Size mismatch should trigger Overwrite");
    if let SyncAction::Overwrite(entry) = action {
        assert_eq!(entry.size, 1024);
    }
}

#[test]
fn test_compare_src_newer() {
    let src = create_test_entry("file.txt", 1024, 2000); // Newer
    let dest = create_test_entry("file.txt", 1024, 1000);
    let config = create_test_config(DeleteMode::Off);

    let action = compare_files(&src, &dest, &config);

    assert!(action.is_overwrite(), "Source newer should trigger Overwrite");
}

#[test]
fn test_compare_dest_newer() {
    let src = create_test_entry("file.txt", 1024, 1000);
    let dest = create_test_entry("file.txt", 1024, 2000); // Newer
    let config = create_test_config(DeleteMode::Off);

    let action = compare_files(&src, &dest, &config);

    assert!(action.is_skip(), "Dest newer should skip");
}

#[test]
fn test_compare_identical() {
    let src = create_test_entry("file.txt", 1024, 1000);
    let dest = create_test_entry("file.txt", 1024, 1000); // Identical
    let config = create_test_config(DeleteMode::Off);

    let action = compare_files(&src, &dest, &config);

    assert!(action.is_skip(), "Identical files should Skip");
}

#[test]
fn test_compare_symlink_target_mismatch() {
    let src = create_test_symlink_entry("link", "a.txt", 1000);
    let dest = create_test_symlink_entry("link", "b.txt", 2000);
    let config = create_test_config(DeleteMode::Off);

    let action = compare_files(&src, &dest, &config);
    assert!(action.is_overwrite());
}

#[test]
fn test_compare_file_kind_mismatch_symlink_vs_regular() {
    let src = create_test_symlink_entry("entry", "real.txt", 1000);
    let dest = create_test_entry("entry", 0, 1000);
    let config = create_test_config(DeleteMode::Off);

    let action = compare_files(&src, &dest, &config);
    assert!(action.is_overwrite());
}

#[test]
fn test_compare_checksum_equal_content_different_mtimes() {
    // With matching digests the content tier skips, whatever the timestamps
    // say; with the tier off, an older source is not copied either.
    let content = b"identical-bytes";
    let src = kopy::hash::entry_with_hashed_content(
        create_test_entry("file.txt", 15, 1000),
        content,
    );
    let dest = kopy::hash::entry_with_hashed_content(
        create_test_entry("file.txt", 15, 2000),
        content,
    );

    let mut config = create_test_config(DeleteMode::Off);
    config.checksum_mode = true;
    assert!(compare_files(&src, &dest, &config).is_skip());

    config.checksum_mode = false;
    assert!(compare_files(&src, &dest, &config).is_skip());
}

#[test]
fn test_compare_checksum_different_content_same_size() {
    let src = kopy::hash::entry_with_hashed_content(
        create_test_entry("file.txt", 3, 1000),
        b"aaa",
    );
    let dest = kopy::hash::entry_with_hashed_content(
        create_test_entry("file.txt", 3, 1000),
        b"bbb",
    );
    let mut config = create_test_config(DeleteMode::Off);
    config.checksum_mode = true;
    assert!(compare_files(&src, &dest, &config).is_overwrite());
}

#[test]
fn test_diff_copy_new() {
    let mut src_tree = FileTree::new("/src".to_string());
    src_tree.insert("new_file.txt".to_string(), create_test_entry("new_file.txt", 1024, 1000));

    let dest_tree = FileTree::new("/dest".to_string());
    let config = create_test_config(DeleteMode::Off);

    let plan = generate_sync_plan(&src_tree, &dest_tree, &config);

    assert_eq!(plan.stats.copy_count, 1);
    assert_eq!(plan.stats.total_files, 1);
    assert_eq!(plan.stats.total_bytes, 1024);
    assert_eq!(plan.actions.len(), 1);
    assert!(plan.actions[0].is_copy_new());
}

#[test]
fn test_diff_overwrite_size() {
    let mut src_tree = FileTree::new("/src".to_string());
    src_tree.insert("file.txt".to_string(), create_test_entry("file.txt", 2048, 1000));

    let mut dest_tree = FileTree::new("/dest".to_string());
    dest_tree.insert(
        "file.txt".to_string(),
        create_test_entry("file.txt", 1024, 1000), // Different size
    );

    let config = create_test_config(DeleteMode::Off);
    let plan = generate_sync_plan(&src_tree, &dest_tree, &config);

    assert_eq!(plan.stats.overwrite_count, 1);
    assert_eq!(plan.stats.total_files, 1);
    assert_eq!(plan.stats.total_bytes, 2048);
    assert!(plan.actions[0].is_overwrite());
}

#[test]
fn test_diff_overwrite_newer() {
    let mut src_tree = FileTree::new("/src".to_string());
    src_tree.insert(
        "file.txt".to_string(),
        create_test_entry("file.txt", 1024, 2000), // Newer
    );

    let mut dest_tree = FileTree::new("/dest".to_string());
    dest_tree.insert("file.txt".to_string(), create_test_entry("file.txt", 1024, 1000));

    let config = create_test_config(DeleteMode::Off);
    let plan = generate_sync_plan(&src_tree, &dest_tree, &config);

    assert_eq!(plan.stats.overwrite_count, 1);
    assert!(plan.actions[0].is_overwrite());
}

#[test]
fn test_diff_skip_older() {
    let mut src_tree = FileTree::new("/src".to_string());
    src_tree.insert("file.txt".to_string(), create_test_entry("file.txt", 1024, 1000));

    let mut dest_tree = FileTree::new("/dest".to_string());
    dest_tree.insert(
        "file.txt".to_string(),
        create_test_entry("file.txt", 1024, 2000), // Newer
    );

    let config = create_test_config(DeleteMode::Off);
    let plan = generate_sync_plan(&src_tree, &dest_tree, &config);

    assert_eq!(plan.stats.skip_count, 1);
    assert_eq!(plan.stats.overwrite_count, 0);
    assert_eq!(plan.stats.total_files, 0); // Skips don't count as transfers
}

#[test]
fn test_diff_delete_trash() {
    let src_tree = FileTree::new("/src".to_string());

    let mut dest_tree = FileTree::new("/dest".to_string());
    dest_tree.insert("old_file.txt".to_string(), create_test_entry("old_file.txt", 512, 1000));

    let config = create_test_config(DeleteMode::Trash);
    let plan = generate_sync_plan(&src_tree, &dest_tree, &config);

    assert_eq!(plan.stats.delete_count, 1);
    assert_eq!(plan.actions.len(), 1);
    assert!(plan.actions[0].is_delete());
    if let SyncAction::Delete(path) = &plan.actions[0] {
        assert_eq!(path, &"old_file.txt".to_string());
    }
}

#[test]
fn test_diff_delete_none() {
    let src_tree = FileTree::new("/src".to_string());

    let mut dest_tree = FileTree::new("/dest".to_string());
    dest_tree.insert("orphan.txt".to_string(), create_test_entry("orphan.txt", 256, 1000));

    let config = create_test_config(DeleteMode::Off);
    let plan = generate_sync_plan(&src_tree, &dest_tree, &config);

    assert_eq!(plan.stats.delete_count, 0);
    assert_eq!(plan.actions.len(), 0);
}

#[test]
fn test_diff_plan_stats() {
    let mut src_tree = FileTree::new("/src".to_string());
    src_tree.insert("new.txt".to_string(), create_test_entry("new.txt", 1000, 1000));
    src_tree.insert(
        "update.txt".to_string(),
        create_test_entry("update.txt", 2000, 2000), // Newer
    );
    src_tree.insert("same.txt".to_string(), create_test_entry("same.txt", 500, 1000));

    let mut dest_tree = FileTree::new("/dest".to_string());
    dest_tree.insert(
        "update.txt".to_string(),
        create_test_entry("update.txt", 2000, 1000), // Older
    );
    dest_tree.insert(
        "same.txt".to_string(),
        create_test_entry("same.txt", 500, 1000), // Identical
    );
    dest_tree.insert("old.txt".to_string(), create_test_entry("old.txt", 300, 1000));

    let config = create_test_config(DeleteMode::Trash);
    let plan = generate_sync_plan(&src_tree, &dest_tree, &config);

    assert_eq!(plan.stats.copy_count, 1); // new.txt
    assert_eq!(plan.stats.overwrite_count, 1); // update.txt
    assert_eq!(plan.stats.skip_count, 1); // same.txt
    assert_eq!(plan.stats.delete_count, 1); // old.txt

    assert_eq!(plan.stats.total_files, 2);
    assert_eq!(plan.stats.total_bytes, 3000); // 1000 + 2000
}

#[test]
fn test_diff_sorting_by_path() {
    let mut src_tree = FileTree::new("/src".to_string());
    src_tree.insert("z_file.txt".to_string(), create_test_entry("z_file.txt", 100, 1000));
    src_tree.insert("a_file.txt".to_string(), create_test_entry("a_file.txt", 200, 1000));
    src_tree.insert("m_file.txt".to_string(), create_test_entry("m_file.txt", 300, 1000));

    let dest_tree = FileTree::new("/dest".to_string());
    let config = create_test_config(DeleteMode::Off);

    let plan = generate_sync_plan(&src_tree, &dest_tree, &config);

    assert_eq!(plan.actions.len(), 3);
    assert_eq!(plan.actions[0].path(), Some(&"a_file.txt".to_string()));
    assert_eq!(plan.actions[1].path(), Some(&"m_file.txt".to_string()));
    assert_eq!(plan.actions[2].path(), Some(&"z_file.txt".to_string()));
}

#[test]
fn test_diff_delete_permanent() {
    let src_tree = FileTree::new("/src".to_string());

    let mut dest_tree = FileTree::new("/dest".to_string());
    dest_tree.insert("doomed.txt".to_string(), create_test_entry("doomed.txt", 100, 1000));

    let config = create_test_config(DeleteMode::Permanent);
    let plan = generate_sync_plan(&src_tree, &dest_tree, &config);

    assert_eq!(plan.stats.delete_count, 1);
    assert!(plan.actions[0].is_delete());
}

#[test]
fn test_diff_empty_trees() {
    let src_tree = FileTree::new("/src".to_string());
    let dest_tree = FileTree::new("/dest".to_string());
    let config = create_test_config(DeleteMode::Off);

    let plan = generate_sync_plan(&src_tree, &dest_tree, &config);

    assert_eq!(plan.actions.len(), 0);
    assert_eq!(plan.stats.total_files, 0);
    assert_eq!(plan.stats.total_bytes, 0);
}

#[test]
fn test_diff_nested_paths() {
    let mut src_tree = FileTree::new("/src".to_string());
    src_tree.insert(
        "dir/subdir/file.txt".to_string(),
        create_test_entry("dir/subdir/file.txt", 1024, 1000),
    );

    let dest_tree = FileTree::new("/dest".to_string());
    let config = create_test_config(DeleteMode::Off);

    let plan = generate_sync_plan(&src_tree, &dest_tree, &config);

    assert_eq!(plan.stats.copy_count, 1);
    assert!(plan.actions[0].is_copy_new());
}

#[test]
fn test_diff_conflict_source_file_vs_destination_directory_entries() {
    let mut src_tree = FileTree::new("/src".to_string());
    src_tree.insert("a".to_string(), create_test_entry("a", 10, 1000));

    let mut dest_tree = FileTree::new("/dest".to_string());
    dest_tree.insert("a/old.txt".to_string(), create_test_entry("a/old.txt", 4, 900));

    let config = create_test_config(DeleteMode::Trash);
    let plan = generate_sync_plan(&src_tree, &dest_tree, &config);

    assert!(plan
        .actions
        .iter()
        .any(|a| matches!(a, SyncAction::Delete(path) if path == &"a".to_string())));
    assert!(plan
        .actions
        .iter()
        .any(|a| matches!(a, SyncAction::CopyNew(entry) if entry.path == "a")));
    // The clearing delete comes before the copy that fills the path.
    let delete_at = plan.actions.iter().position(|a| a.is_delete()).unwrap();
    let copy_at = plan.actions.iter().position(|a| a.is_copy_new()).unwrap();
    assert!(delete_at < copy_at);
}

#[test]
fn test_diff_conflict_source_nested_vs_destination_file() {
    let mut src_tree = FileTree::new("/src".to_string());
    src_tree.insert("a/b.txt".to_string(), create_test_entry("a/b.txt", 12, 1000));

    let mut dest_tree = FileTree::new("/dest".to_string());
    dest_tree.insert("a".to_string(), create_test_entry("a", 1, 900));

    let config = create_test_config(DeleteMode::Trash);
    let plan = generate_sync_plan(&src_tree, &dest_tree, &config);

    assert!(plan
        .actions
        .iter()
        .any(|a| matches!(a, SyncAction::Delete(path) if path == &"a".to_string())));
    assert!(plan
        .actions
        .iter()
        .any(|a| matches!(a, SyncAction::CopyNew(entry) if entry.path == "a/b.txt")));
    // Delete(ancestor) precedes the nested CopyNew.
    let delete_at = plan.actions.iter().position(|a| a.is_delete()).unwrap();
    let copy_at = plan.actions.iter().position(|a| a.is_copy_new()).unwrap();
    assert!(delete_at < copy_at);
}

#[test]
fn test_diff_conflict_in_none_mode_is_non_destructive() {
    let mut src_tree = FileTree::new("/src".to_string());
    src_tree.insert("a".to_string(), create_test_entry("a", 10, 1000));

    let mut dest_tree = FileTree::new("/dest".to_string());
    dest_tree.insert("a/old.txt".to_string(), create_test_entry("a/old.txt", 4, 900));

    let config = create_test_config(DeleteMode::Off);
    let plan = generate_sync_plan(&src_tree, &dest_tree, &config);

    assert!(!plan.actions.iter().any(|a| a.is_delete()));
    assert!(plan
        .actions
        .iter()
        .any(|a| matches!(a, SyncAction::CopyNew(entry) if entry.path == "a")));
}

#[test]
fn test_diff_empty_source_trash_deletes_every_destination_entry() {
    let src_tree = FileTree::new("/src".to_string());
    let mut dest_tree = FileTree::new("/dest".to_string());
    dest_tree.insert("one.txt".to_string(), create_test_entry("one.txt", 1, 1000));
    dest_tree.insert("two.txt".to_string(), create_test_entry("two.txt", 2, 1000));
    dest_tree.insert("sub/three.txt".to_string(), create_test_entry("sub/three.txt", 3, 1000));

    let config = create_test_config(DeleteMode::Trash);
    let plan = generate_sync_plan(&src_tree, &dest_tree, &config);

    assert_eq!(plan.actions.len(), 3);
    assert_eq!(plan.stats.delete_count, 3);
    assert!(plan.actions.iter().all(|a| a.is_delete()));
}

#[test]
fn test_diff_unchanged_trees_plan_only_skips() {
    // A second run over an unchanged source and destination plans no work.
    let mut src_tree = FileTree::new("/src".to_string());
    src_tree.insert("a.txt".to_string(), create_test_entry("a.txt", 10, 1000));
    src_tree.insert("b/c.txt".to_string(), create_test_entry("b/c.txt", 20, 2000));
    let dest_tree = src_tree.clone();

    let config = create_test_config(DeleteMode::Trash);
    let plan = generate_sync_plan(&src_tree, &dest_tree, &config);

    assert_eq!(plan.actions.len(), 2);
    assert_eq!(plan.stats.skip_count, 2);
    assert_eq!(plan.stats.copy_count, 0);
    assert_eq!(plan.stats.overwrite_count, 0);
    assert_eq!(plan.stats.delete_count, 0);
    assert_eq!(plan.stats.total_files, 0);
}

#[test]
fn test_compare_is_deterministic() {
    // The decision is a function of the two entries and the checksum flag
    // alone: repeated calls agree, and the flag is the only other input.
    let src = create_test_entry("file.txt", 1024, 2000);
    let dest = create_test_entry("file.txt", 1024, 1000);
    let mut config_a = create_test_config(DeleteMode::Off);
    let mut config_b = create_test_config(DeleteMode::Permanent);
    config_a.threads = 1;
    config_b.source = "/elsewhere".to_string();

    let first = compare_files(&src, &dest, &config_a);
    let second = compare_files(&src, &dest, &config_a);
    let third = compare_files(&src, &dest, &config_b);
    assert_eq!(first, second);
    assert_eq!(first, third);
    assert!(first.is_overwrite());
}
