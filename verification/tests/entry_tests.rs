use kopy::FileEntry;

fn create_test_entry(name: &str, size: u64) -> FileEntry {
    FileEntry::new(name.to_string(), size, 1000, 0o644)
}

#[test]
fn test_new_file_entry() {
    let path = "test/file.txt".to_string();
    let size = 1024;
    let mtime = 1000;
    let permissions = 0o644;

    let entry = FileEntry::new(path.clone(), size, mtime, permissions);

    assert_eq!(entry.path, path);
    assert_eq!(entry.size, size);
    assert_eq!(entry.mtime, mtime);
    assert_eq!(entry.permissions, permissions);
    assert_eq!(entry.hash, None);
    assert!(!entry.is_symlink);
    assert_eq!(entry.symlink_target, None);
}

#[test]
fn test_new_symlink_entry() {
    let path = "test/link.txt".to_string();
    let target = "test/target.txt".to_string();
    let size = 0;
    let mtime = 2000;
    let permissions = 0o777;

    let entry = FileEntry::new_symlink(path.clone(), size, mtime, permissions, target.clone());

    assert_eq!(entry.path, path);
    assert_eq!(entry.size, size);
    assert_eq!(entry.mtime, mtime);
    assert_eq!(entry.permissions, permissions);
    assert!(entry.is_symlink);
    assert_eq!(entry.symlink_target, Some(target));
    assert_eq!(entry.hash, None);
}

#[test]
fn test_with_hash() {
    let path = "test/file.txt".to_string();
    let size = 2048;
    let mtime = 3000;
    let permissions = 0o755;
    let hash = [42u8; 32];

    let entry = FileEntry::new(path, size, mtime, permissions).with_hash(hash);

    assert_eq!(entry.hash, Some(hash));
    assert!(entry.has_hash());
}

#[test]
fn test_has_hash_returns_false_when_no_hash() {
    let path = "test/file.txt".to_string();
    let size = 512;
    let mtime = 4000;
    let permissions = 0o600;

    let entry = FileEntry::new(path, size, mtime, permissions);

    assert!(!entry.has_hash());
}

#[test]
fn entry_test_clone() {
    let path = "test/clone.txt".to_string();
    let size = 8192;
    let mtime = 6000;
    let permissions = 0o755;

    let entry = FileEntry::new(path.clone(), size, mtime, permissions);
    let cloned = entry.clone();

    assert_eq!(entry, cloned);
    assert_eq!(entry.path, cloned.path);
    assert_eq!(entry.size, cloned.size);
}

#[test]
fn test_large_file_size() {
    let path = "test/large.bin".to_string();
    let size = u64::MAX; // Maximum file size
    let mtime = 8000;
    let permissions = 0o644;

    let entry = FileEntry::new(path, size, mtime, permissions);

    assert_eq!(entry.size, u64::MAX);
}

#[test]
fn test_zero_size_file() {
    let path = "test/empty.txt".to_string();
    let size = 0;
    let mtime = 9000;
    let permissions = 0o644;

    let entry = FileEntry::new(path, size, mtime, permissions);

    assert_eq!(entry.size, 0);
}

#[test]
fn test_various_permissions() {
    let test_cases = vec![
        0o000, // No permissions
        0o400, // Read only (owner)
        0o644, // Standard file
        0o755, // Executable
        0o777, // All permissions
    ];

    for perm in test_cases {
        let path = format!("test/perm_{:o}.txt", perm);
        let entry = FileEntry::new(path, 100, 0, perm);
        assert_eq!(entry.permissions, perm);
    }
}

#[test]
fn test_entry_hash_from_content_is_deterministic() {
    let a = create_test_entry("a.txt", 5);
    let b = create_test_entry("b.txt", 5);
    let hashed_a = kopy::hash::entry_with_hashed_content(a, b"hello");
    let hashed_b = kopy::hash::entry_with_hashed_content(b, b"hello");
    assert_eq!(hashed_a.hash, hashed_b.hash);
    assert!(hashed_a.has_hash());
}
