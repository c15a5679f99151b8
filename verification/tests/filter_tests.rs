use kopy::Config;
use kopy::filter::compile_patterns;
use kopy::filter::is_destination_internal_trash;
use kopy::filter::should_include_path;

#[test]
fn test_exclude_pattern_rejects_matching_path() {
    let excludes = compile_patterns(&vec!["*.log".to_string()]).unwrap();
    let includes = compile_patterns(&vec![]).unwrap();
    assert!(!should_include_path(&"debug.log".to_string(), &excludes, &includes));
    assert!(should_include_path(&"keep.txt".to_string(), &excludes, &includes));
}

#[test]
fn test_include_overrides_exclude() {
    let excludes = compile_patterns(&vec!["*.log".to_string()]).unwrap();
    let includes = compile_patterns(&vec!["important.log".to_string()]).unwrap();
    assert!(should_include_path(&"important.log".to_string(), &excludes, &includes));
    assert!(!should_include_path(&"other.log".to_string(), &excludes, &includes));
    assert!(should_include_path(&"note.txt".to_string(), &excludes, &includes));
}

#[test]
fn test_include_alone_does_not_reject_anything() {
    let excludes = compile_patterns(&vec![]).unwrap();
    let includes = compile_patterns(&vec!["only.rs".to_string()]).unwrap();
    assert!(should_include_path(&"anything.txt".to_string(), &excludes, &includes));
}

#[test]
fn test_compile_patterns_rejects_invalid_glob() {
    let result = compile_patterns(&vec!["[invalid".to_string()]);
    assert!(result.is_err());
    let err = result.unwrap_err();
    assert!(err.message().contains("Invalid pattern '[invalid'"));
}

#[test]
fn test_validate_patterns_checks_both_lists() {
    let good = Config {
        source: "/s".to_string(),
        destination: "/d".to_string(),
        exclude_patterns: vec!["*.tmp".to_string(), "node_modules/".to_string()],
        include_patterns: vec!["*.rs".to_string()],
        ..Default::default()
    };
    assert!(good.validate_patterns().is_ok());

    let bad = Config {
        exclude_patterns: vec!["[broken".to_string()],
        ..Default::default()
    };
    let err = bad.validate_patterns().unwrap_err();
    assert!(err.message().contains("Invalid exclude pattern"));

    let bad_include = Config {
        include_patterns: vec!["**[".to_string()],
        ..Default::default()
    };
    let err2 = bad_include.validate_patterns().unwrap_err();
    assert!(err2.message().contains("Invalid include pattern"));
}

#[test]
fn test_destination_scan_excludes_kopy_trash() {
    let config = Config {
        source: "/src".to_string(),
        destination: "/dest".to_string(),
        ..Default::default()
    };
    let root = "/dest".to_string();
    assert!(is_destination_internal_trash(
        &root,
        &config,
        &".kopy_trash/2026-01-01_120000/deleted.txt".to_string()
    ));
    assert!(is_destination_internal_trash(&root, &config, &".kopy_trash".to_string()));
    assert!(!is_destination_internal_trash(&root, &config, &"regular.txt".to_string()));
    assert!(!is_destination_internal_trash(&root, &config, &".kopy_trashy".to_string()));
    // Only a destination scan hides the trash area.
    let other_root = "/src".to_string();
    assert!(!is_destination_internal_trash(
        &other_root,
        &config,
        &".kopy_trash/x".to_string()
    ));
}
