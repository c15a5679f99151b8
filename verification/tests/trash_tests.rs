use kopy::trash::DeletedFile;
use kopy::trash::TrashManifest;
use kopy::trash::json_escape;
use kopy::trash::resolve_unique_trash_path;
use kopy::trash::trash_candidate;
use kopy::trash::trash_snapshot_dir;

fn deleted(original: &str, trash: &str, at: &str, size: u64) -> DeletedFile {
    DeletedFile {
        original_path: original.to_string(),
        trash_path: trash.to_string(),
        deleted_at: at.to_string(),
        size,
    }
}

#[test]
fn test_trash_snapshot_dir_layout() {
    let dir = trash_snapshot_dir(&"/dest".to_string(), &"2026-01-02_030405".to_string());
    assert_eq!(dir, "/dest/.kopy_trash/2026-01-02_030405");
}

#[test]
fn test_trash_candidates() {
    let rel = "subdir/file.txt".to_string();
    assert_eq!(trash_candidate(&rel, 0), "subdir/file.txt");
    assert_eq!(trash_candidate(&rel, 1), "subdir/file.txt.~kopy1");
    assert_eq!(trash_candidate(&rel, 12), "subdir/file.txt.~kopy12");
    let flat = "file.txt".to_string();
    assert_eq!(trash_candidate(&flat, 2), "file.txt.~kopy2");
}

#[test]
fn test_resolve_unique_trash_path_prefers_original_name() {
    let occupied: Vec<String> = vec!["other.txt".to_string()];
    let (n, name) = resolve_unique_trash_path(&"subdir/file.txt".to_string(), &occupied);
    assert_eq!(n, 0);
    assert_eq!(name, "subdir/file.txt");
}

#[test]
fn test_resolve_unique_trash_path_appends_suffix_on_collision() {
    let relative = "subdir/file.txt".to_string();
    let occupied: Vec<String> = vec!["subdir/file.txt".to_string()];
    let (n, unique) = resolve_unique_trash_path(&relative, &occupied);
    assert_eq!(n, 1);
    assert_ne!(unique, relative);
    assert!(unique.contains(".~kopy"));
    assert_eq!(unique, "subdir/file.txt.~kopy1");

    let crowded: Vec<String> = vec![
        "subdir/file.txt".to_string(),
        "subdir/file.txt.~kopy1".to_string(),
        "subdir/file.txt.~kopy2".to_string(),
    ];
    let (n2, third) = resolve_unique_trash_path(&relative, &crowded);
    assert_eq!(n2, 3);
    assert_eq!(third, "subdir/file.txt.~kopy3");
}

#[test]
fn test_manifest_records_files_in_order() {
    let mut manifest = TrashManifest::new();
    assert!(manifest.files.is_empty());
    manifest.add_file(deleted("old.txt", "old.txt", "2026-01-02T03:04:05+00:00", 9));
    manifest.add_file(deleted("b.txt", "b.txt.~kopy1", "2026-01-02T03:04:06+00:00", 2));
    assert_eq!(manifest.files.len(), 2);
    assert_eq!(manifest.files[0].original_path, "old.txt");
    assert_eq!(manifest.files[1].trash_path, "b.txt.~kopy1");
}

#[test]
fn test_manifest_json_empty() {
    let manifest = TrashManifest::new();
    assert_eq!(manifest.to_json(), "{\n  \"files\": []\n}");
}

#[test]
fn test_manifest_json_round_trip() {
    // Writing the manifest and reading it back gives structurally equal
    // content; an ordinary JSON reader stands in for the reading side.
    let mut manifest = TrashManifest::new();
    manifest.add_file(deleted("old.txt", "old.txt", "2026-01-02T03:04:05+00:00", 9));
    manifest.add_file(deleted(
        "di\"r/we\\ird.txt",
        "di\"r/we\\ird.txt.~kopy1",
        "2026-01-02T03:04:06+00:00",
        77,
    ));
    let text = manifest.to_json();

    let value: serde_json::Value = serde_json::from_str(&text).expect("manifest parses as JSON");
    let files = value.get("files").and_then(|v| v.as_array()).expect("files array");
    assert_eq!(files.len(), 2);
    assert_eq!(files[0].get("original_path").and_then(|v| v.as_str()), Some("old.txt"));
    assert_eq!(files[0].get("size").and_then(|v| v.as_u64()), Some(9));
    assert_eq!(
        files[1].get("original_path").and_then(|v| v.as_str()),
        Some("di\"r/we\\ird.txt")
    );
    assert_eq!(
        files[1].get("trash_path").and_then(|v| v.as_str()),
        Some("di\"r/we\\ird.txt.~kopy1")
    );
    assert_eq!(
        files[1].get("deleted_at").and_then(|v| v.as_str()),
        Some("2026-01-02T03:04:06+00:00")
    );
    assert_eq!(files[1].get("size").and_then(|v| v.as_u64()), Some(77));
}

#[test]
fn test_json_escape_specials() {
    assert_eq!(json_escape("plain"), "plain");
    assert_eq!(json_escape("a\"b"), "a\\\"b");
    assert_eq!(json_escape("a\\b"), "a\\\\b");
    assert_eq!(json_escape("a\nb\tc"), "a\\nb\\tc");
    assert_eq!(json_escape("bell\u{7}"), "bell\\u0007");
}
