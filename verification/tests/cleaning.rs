use rustyclean::cleaning::{
    clean_directory_advanced, format_bytes, matches_pattern, CleaningError, CleaningOptions,
    CleaningSummary, DirNode, Entry, FileAge, FileMeta, FileNode, Listing,
};

const DAY: u64 = 86400;

fn file(dir: &str, name: &str, size: u64, age: FileAge) -> Entry {
    Entry::File(FileNode {
        name: name.to_string(),
        path: format!("{}\\{}", dir, name),
        metadata: Ok(FileMeta { size, age }),
        removal: None,
        removed: false,
    })
}

fn dir(path: &str, entries: Vec<Entry>) -> DirNode {
    DirNode {
        path: path.to_string(),
        listing: Listing::Entries(entries),
        removal: None,
        removed: false,
    }
}

#[test]
fn test_format_bytes() {
    assert_eq!(format_bytes(0), "0.0 Bytes");
    assert_eq!(format_bytes(1024), "1.00 KB");
    assert_eq!(format_bytes(1048576), "1.00 MB");
    assert_eq!(format_bytes(1073741824), "1.00 GB");
}

#[test]
fn test_matches_pattern() {
    assert!(matches_pattern("test.txt", "*.txt"));
    assert!(matches_pattern("thumbcache_1024.db", "thumbcache_*.db"));
    assert!(!matches_pattern("test.log", "*.txt"));
    assert!(matches_pattern("test.txt", "test.txt"));
}

#[test]
fn test_cleaning_summary() {
    let mut summary = CleaningSummary::new();
    assert_eq!(summary.deleted_files, 0);
    assert_eq!(summary.total_size, 0);
    assert_eq!(summary.success_rate_percent(), 100);

    summary.deleted_files = 10;
    summary.skipped_files = 5;
    summary.add_error(CleaningError::PermissionDenied("test".to_string()));

    assert!(summary.success_rate_percent() > 60 && summary.success_rate_percent() < 70);
}

#[test]
fn test_temp_directory_cleaning() {
    let mut root = dir(
        "C:\\tmp",
        vec![file("C:\\tmp", "test.tmp", 13, FileAge::SecondsAgo(0))],
    );

    let mut options = CleaningOptions::default();
    options.min_file_age_days = 0;
    options.dry_run = true;

    let mut summary = CleaningSummary::new();

    let result = clean_directory_advanced(&mut root, "Test", &mut summary, &options);
    assert!(result.is_ok());
    assert_eq!(summary.deleted_files, 1);
    assert_eq!(summary.total_size, 13);
}

#[test]
fn scenario_one_old_one_new_one_protected() {
    let mut root = dir(
        "C:\\loc",
        vec![
            file("C:\\loc", "a.tmp", 10, FileAge::SecondsAgo(2 * DAY)),
            file("C:\\loc", "b.cache", 10, FileAge::SecondsAgo(0)),
            file("C:\\loc", "desktop.ini", 10, FileAge::SecondsAgo(2 * DAY)),
        ],
    );
    let mut options = CleaningOptions::default();
    options.min_file_age_days = 1;
    let mut summary = CleaningSummary::new();
    let result = clean_directory_advanced(&mut root, "Some Location", &mut summary, &options);
    assert!(result.is_ok());
    assert_eq!(summary.deleted_files, 1);
    assert_eq!(summary.total_size, 10);
    assert_eq!(summary.skipped_files, 2);
    assert_eq!(summary.errors.len(), 0);
    match &root.listing {
        Listing::Entries(entries) => {
            assert!(matches!(&entries[0], Entry::File(f) if f.removed));
            assert!(matches!(&entries[1], Entry::File(f) if !f.removed));
            assert!(matches!(&entries[2], Entry::File(f) if !f.removed));
        }
        _ => panic!("the listing is gone"),
    }
}
