use kopy::FileEntry;
use kopy::FileTree;

fn create_test_entry(name: &str, size: u64) -> FileEntry {
    FileEntry::new(name.to_string(), size, 1000, 0o644)
}

#[test]
fn test_new_tree() {
    let root = "/test/root".to_string();
    let tree = FileTree::new(root.clone());

    assert_eq!(tree.root_path, root);
    assert_eq!(tree.total_size, 0);
    assert_eq!(tree.total_files, 0);
    assert_eq!(tree.total_dirs, 0);
    assert_eq!(tree.scan_duration, 0);
    assert!(tree.is_empty());
    assert_eq!(tree.len(), 0);
}

#[test]
fn test_insert_single_entry() {
    let mut tree = FileTree::new("/root".to_string());
    let path = "file.txt".to_string();
    let entry = create_test_entry("file.txt", 1024);

    tree.insert(path.clone(), entry.clone());

    assert_eq!(tree.len(), 1);
    assert_eq!(tree.total_files, 1);
    assert_eq!(tree.total_size, 1024);
    assert!(tree.contains(&path));
    assert_eq!(tree.get(&path), Some(&entry));
}

#[test]
fn test_insert_multiple_entries() {
    let mut tree = FileTree::new("/root".to_string());

    let files = vec![("file1.txt", 100), ("file2.txt", 200), ("dir/file3.txt", 300)];

    for (name, size) in &files {
        let path = name.to_string();
        let entry = create_test_entry(name, *size);
        tree.insert(path, entry);
    }

    assert_eq!(tree.len(), 3);
    assert_eq!(tree.total_files, 3);
    assert_eq!(tree.total_size, 600);
    assert!(!tree.is_empty());
}

#[test]
fn test_get_existing_entry() {
    let mut tree = FileTree::new("/root".to_string());
    let path = "test.txt".to_string();
    let entry = create_test_entry("test.txt", 512);

    tree.insert(path.clone(), entry.clone());

    let retrieved = tree.get(&path);
    assert!(retrieved.is_some());
    assert_eq!(retrieved.unwrap(), &entry);
}

#[test]
fn test_get_nonexistent_entry() {
    let tree = FileTree::new("/root".to_string());
    let path = "nonexistent.txt".to_string();

    assert_eq!(tree.get(&path), None);
}

#[test]
fn test_contains() {
    let mut tree = FileTree::new("/root".to_string());
    let path1 = "exists.txt".to_string();
    let path2 = "not_exists.txt".to_string();

    tree.insert(path1.clone(), create_test_entry("exists.txt", 100));

    assert!(tree.contains(&path1));
    assert!(!tree.contains(&path2));
}

#[test]
fn test_len_and_is_empty() {
    let mut tree = FileTree::new("/root".to_string());

    assert!(tree.is_empty());
    assert_eq!(tree.len(), 0);

    tree.insert("file1.txt".to_string(), create_test_entry("file1.txt", 100));
    assert!(!tree.is_empty());
    assert_eq!(tree.len(), 1);

    tree.insert("file2.txt".to_string(), create_test_entry("file2.txt", 200));
    assert_eq!(tree.len(), 2);
}

#[test]
fn test_iteration() {
    let mut tree = FileTree::new("/root".to_string());

    let files = vec![("a.txt", 100), ("b.txt", 200), ("c.txt", 300)];

    for (name, size) in &files {
        tree.insert(name.to_string(), create_test_entry(name, *size));
    }

    let count = tree.iter().len();
    assert_eq!(count, 3);

    let paths = tree.paths();
    assert_eq!(paths.len(), 3);

    for (name, _) in &files {
        let path = name.to_string();
        assert!(paths.contains(&path));
    }
}

#[test]
fn test_duplicate_insertion() {
    let mut tree = FileTree::new("/root".to_string());
    let path = "file.txt".to_string();

    // Insert first version
    let entry1 = create_test_entry("file.txt", 1000);
    tree.insert(path.clone(), entry1);

    assert_eq!(tree.len(), 1);
    assert_eq!(tree.total_files, 1);
    assert_eq!(tree.total_size, 1000);

    // Insert second version (same path, different size)
    let entry2 = create_test_entry("file.txt", 2000);
    tree.insert(path.clone(), entry2.clone());

    // Should still have 1 entry, but updated statistics
    assert_eq!(tree.len(), 1);
    assert_eq!(tree.total_files, 1);
    assert_eq!(tree.total_size, 2000); // Updated size
    assert_eq!(tree.get(&path), Some(&entry2));
}

#[test]
fn test_scan_duration() {
    let mut tree = FileTree::new("/root".to_string());

    assert_eq!(tree.scan_duration, 0);

    tree.set_scan_duration(1_500_000_000);

    assert_eq!(tree.scan_duration, 1_500_000_000);
}

#[test]
fn test_directory_counting() {
    let mut tree = FileTree::new("/root".to_string());

    assert_eq!(tree.total_dirs, 0);

    tree.increment_dirs();
    assert_eq!(tree.total_dirs, 1);

    tree.increment_dirs();
    tree.increment_dirs();
    assert_eq!(tree.total_dirs, 3);
}

#[test]
fn test_large_tree() {
    let mut tree = FileTree::new("/root".to_string());

    // Insert 1000 files
    for i in 0..1000 {
        let path = format!("file_{}.txt", i);
        let entry = create_test_entry(&format!("file_{}.txt", i), 1024);
        tree.insert(path, entry);
    }

    assert_eq!(tree.len(), 1000);
    assert_eq!(tree.total_files, 1000);
    assert_eq!(tree.total_size, 1024 * 1000);
}

#[test]
fn test_zero_size_files() {
    let mut tree = FileTree::new("/root".to_string());

    tree.insert("empty.txt".to_string(), create_test_entry("empty.txt", 0));
    tree.insert("also_empty.txt".to_string(), create_test_entry("also_empty.txt", 0));

    assert_eq!(tree.len(), 2);
    assert_eq!(tree.total_files, 2);
    assert_eq!(tree.total_size, 0);
}

#[test]
fn tree_test_clone() {
    let mut tree = FileTree::new("/root".to_string());
    tree.insert("file.txt".to_string(), create_test_entry("file.txt", 500));
    tree.set_scan_duration(5_000_000_000);
    tree.increment_dirs();

    let cloned = tree.clone();

    assert_eq!(tree, cloned);
    assert_eq!(cloned.len(), 1);
    assert_eq!(cloned.total_size, 500);
    assert_eq!(cloned.scan_duration, 5_000_000_000);
    assert_eq!(cloned.total_dirs, 1);
}

#[test]
fn test_totals_do_not_depend_on_insertion_order() {
    // Two walks that find the same entries in different orders agree on the
    // aggregates and on the stored paths.
    let entries = vec![("a.txt", 10u64), ("sub/b.txt", 20u64), ("z.txt", 30u64)];

    let mut forward = FileTree::new("/root".to_string());
    for (name, size) in &entries {
        forward.insert(name.to_string(), create_test_entry(name, *size));
    }
    let mut backward = FileTree::new("/root".to_string());
    for (name, size) in entries.iter().rev() {
        backward.insert(name.to_string(), create_test_entry(name, *size));
    }

    assert_eq!(forward.total_files, backward.total_files);
    assert_eq!(forward.total_size, backward.total_size);
    let mut fp = forward.paths();
    let mut bp = backward.paths();
    fp.sort();
    bp.sort();
    assert_eq!(fp, bp);
}
