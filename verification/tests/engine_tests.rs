use kopy::FileEntry;
use kopy::SyncAction;
use kopy::plan::DiffPlan;
use kopy::plan::PlanStats;

fn create_test_entry(name: &str, size: u64) -> FileEntry {
    FileEntry::new(name.to_string(), size, 1000, 0o644)
}

#[test]
fn test_new_plan() {
    let plan = DiffPlan::new();
    assert!(plan.actions.is_empty());
    assert_eq!(plan.stats.total_files, 0);
    assert_eq!(plan.stats.total_bytes, 0);
}

#[test]
fn test_add_copy_new_action() {
    let mut plan = DiffPlan::new();
    let entry = create_test_entry("file.txt", 1024);

    plan.add_action(SyncAction::CopyNew(entry));

    assert_eq!(plan.actions.len(), 1);
    assert_eq!(plan.stats.copy_count, 1);
    assert_eq!(plan.stats.total_files, 1);
    assert_eq!(plan.stats.total_bytes, 1024);
}

#[test]
fn test_add_overwrite_action() {
    let mut plan = DiffPlan::new();
    let entry = create_test_entry("file.txt", 2048);

    plan.add_action(SyncAction::Overwrite(entry));

    assert_eq!(plan.actions.len(), 1);
    assert_eq!(plan.stats.overwrite_count, 1);
    assert_eq!(plan.stats.total_files, 1);
    assert_eq!(plan.stats.total_bytes, 2048);
}

#[test]
fn test_add_delete_action() {
    let mut plan = DiffPlan::new();

    plan.add_action(SyncAction::Delete("old.txt".to_string()));

    assert_eq!(plan.actions.len(), 1);
    assert_eq!(plan.stats.delete_count, 1);
    assert_eq!(plan.stats.total_files, 0); // Deletes don't count as transfers
    assert_eq!(plan.stats.total_bytes, 0);
}

#[test]
fn test_add_skip_action() {
    let mut plan = DiffPlan::new();

    plan.add_action(SyncAction::Skip);

    assert_eq!(plan.actions.len(), 1);
    assert_eq!(plan.stats.skip_count, 1);
    assert_eq!(plan.stats.total_files, 0);
    assert_eq!(plan.stats.total_bytes, 0);
}

#[test]
fn test_sort_by_path() {
    let mut plan = DiffPlan::new();

    plan.add_action(SyncAction::CopyNew(create_test_entry("z.txt", 100)));
    plan.add_action(SyncAction::CopyNew(create_test_entry("a.txt", 200)));
    plan.add_action(SyncAction::CopyNew(create_test_entry("m.txt", 300)));

    plan.sort_by_path();

    assert_eq!(plan.actions[0].path(), Some(&"a.txt".to_string()));
    assert_eq!(plan.actions[1].path(), Some(&"m.txt".to_string()));
    assert_eq!(plan.actions[2].path(), Some(&"z.txt".to_string()));
}

#[test]
fn test_mixed_actions_stats() {
    let mut plan = DiffPlan::new();

    plan.add_action(SyncAction::CopyNew(create_test_entry("new.txt", 1000)));
    plan.add_action(SyncAction::Overwrite(create_test_entry("update.txt", 2000)));
    plan.add_action(SyncAction::Delete("old.txt".to_string()));
    plan.add_action(SyncAction::Skip);

    assert_eq!(plan.stats.copy_count, 1);
    assert_eq!(plan.stats.overwrite_count, 1);
    assert_eq!(plan.stats.delete_count, 1);
    assert_eq!(plan.stats.skip_count, 1);
    assert_eq!(plan.stats.total_files, 2); // Only CopyNew + Overwrite
    assert_eq!(plan.stats.total_bytes, 3000);
}

#[test]
fn test_sort_preserves_stats() {
    let mut plan = DiffPlan::new();
    plan.add_action(SyncAction::CopyNew(create_test_entry("z.txt", 7)));
    plan.add_action(SyncAction::Skip);
    plan.add_action(SyncAction::Delete("a.txt".to_string()));
    plan.add_action(SyncAction::Overwrite(create_test_entry("b.txt", 5)));
    let before = plan.stats;
    plan.sort_by_path();
    assert_eq!(plan.stats, before);
    assert_eq!(plan.actions.len(), 4);
    // Path-less actions sort after all others.
    assert!(plan.actions[3].is_skip());
}

// ═══════════════════════════════════════════════════════════
// Time Estimation Tests
// ═══════════════════════════════════════════════════════════

fn stats_with(total_bytes: u64, total_files: usize) -> PlanStats {
    PlanStats { total_bytes, total_files, ..Default::default() }
}

#[test]
fn test_estimate_duration_basic() {
    let stats = stats_with(1_000_000_000, 100); // 1 GB

    // At 100 MB/s
    let bytes_per_sec = 100 * 1024 * 1024;
    let duration = stats.estimate_duration(bytes_per_sec);

    // 1 GB / 100 MB/s = 9 seconds (integer division)
    // 100 files * 10ms = 1 second overhead
    assert_eq!(duration, 10); // 9 + 1
}

#[test]
fn test_estimate_duration_with_file_overhead() {
    let stats = stats_with(10_000, 1000); // 10 KB, many small files

    // At 10 MB/s
    let bytes_per_sec = 10 * 1024 * 1024;
    let duration = stats.estimate_duration(bytes_per_sec);

    // 10 KB / 10 MB/s = ~0 seconds
    // 1000 files * 10ms = 10 seconds overhead
    assert_eq!(duration, 10); // File overhead dominates
}

#[test]
fn test_estimate_duration_zero_bytes() {
    let stats = stats_with(0, 0);

    let duration = stats.estimate_duration(100 * 1024 * 1024);
    assert_eq!(duration, 0);
}

#[test]
fn test_estimate_duration_zero_speed() {
    let stats = stats_with(1_000_000, 10);

    let duration = stats.estimate_duration(0);
    assert_eq!(duration, 0); // Avoid division by zero
}

#[test]
fn test_estimate_duration_human_seconds() {
    let stats = stats_with(5_000_000, 10); // 5 MB

    // At 1 MB/s
    let estimate = stats.estimate_duration_human(1024 * 1024);
    assert_eq!(estimate, "4s"); // 4 seconds (integer division)
}

#[test]
fn test_estimate_duration_human_minutes() {
    let stats = stats_with(300_000_000, 100); // 300 MB

    // At 5 MB/s
    let bytes_per_sec = 5 * 1024 * 1024;
    let estimate = stats.estimate_duration_human(bytes_per_sec);
    // 300 MB / 5 MB/s = 57 seconds + 1s overhead = 58s
    assert_eq!(estimate, "58s");
}

#[test]
fn test_estimate_duration_human_minutes_seconds() {
    let stats = stats_with(150_000_000, 50); // 150 MB

    // At 10 MB/s
    let bytes_per_sec = 10 * 1024 * 1024;
    let estimate = stats.estimate_duration_human(bytes_per_sec);
    // 150 MB / 10 MB/s = 14 seconds (integer division)
    assert_eq!(estimate, "14s");
}

#[test]
fn test_estimate_duration_human_hours() {
    let stats = stats_with(10_000_000_000, 1000); // 10 GB

    // At 1 MB/s (slow network)
    let bytes_per_sec = 1024 * 1024;
    let estimate = stats.estimate_duration_human(bytes_per_sec);
    // 10 GB / 1 MB/s = 9536 seconds + 10s overhead = 9546s = 2h 39m
    assert_eq!(estimate, "2h 39m");
}

#[test]
fn test_estimate_duration_human_hours_only() {
    let stats = stats_with(3_600_000_000, 100); // ~3.6 GB

    // At 1 MB/s
    let bytes_per_sec = 1024 * 1024;
    let estimate = stats.estimate_duration_human(bytes_per_sec);
    // 3.6 GB / 1 MB/s = 3433 seconds + 1s overhead = 3434s = 57m 14s
    assert_eq!(estimate, "57m 14s");
}

#[test]
fn test_estimate_duration_human_zero() {
    let stats = stats_with(0, 0);

    let estimate = stats.estimate_duration_human(100 * 1024 * 1024);
    assert_eq!(estimate, "0s");
}
