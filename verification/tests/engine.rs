use rustyclean::cleaning::{
    classify_io_error, clean_directory_advanced, is_directory_empty, is_eligible,
    is_file_in_use_error, is_file_older_than_days, process_file, remove_empty_directories_safe, CleaningError,
    CleaningOptions, CleaningSummary, DirNode, Entry, FileAge, FileMeta, FileNode, IoErrorKind,
    IoFailure, Listing,
};

const DAY: u64 = 86400;

fn node(dir: &str, name: &str, size: u64, age: FileAge) -> FileNode {
    FileNode {
        name: name.to_string(),
        path: format!("{}\\{}", dir, name),
        metadata: Ok(FileMeta { size, age }),
        removal: None,
        removed: false,
    }
}

fn old_file(dir: &str, name: &str, size: u64) -> Entry {
    Entry::File(node(dir, name, size, FileAge::SecondsAgo(30 * DAY)))
}

fn dir(path: &str, entries: Vec<Entry>) -> DirNode {
    DirNode {
        path: path.to_string(),
        listing: Listing::Entries(entries),
        removal: None,
        removed: false,
    }
}

fn failure(kind: IoErrorKind, code: Option<i32>, message: &str) -> IoFailure {
    IoFailure { kind, windows_code: code, message: message.to_string() }
}

fn entries(d: &DirNode) -> &Vec<Entry> {
    match &d.listing {
        Listing::Entries(entries) => entries,
        _ => panic!("no entries"),
    }
}

fn file_at(d: &DirNode, i: usize) -> &FileNode {
    match &entries(d)[i] {
        Entry::File(f) => f,
        _ => panic!("no file"),
    }
}

fn dir_at(d: &DirNode, i: usize) -> &DirNode {
    match &entries(d)[i] {
        Entry::Dir(sub) => sub,
        _ => panic!("no directory"),
    }
}

fn texts(errors: &Vec<CleaningError>) -> Vec<String> {
    errors.iter().map(|e| e.message()).collect()
}

fn run(root: &mut DirNode, options: &CleaningOptions) -> CleaningSummary {
    let mut summary = CleaningSummary::new();
    let result = clean_directory_advanced(root, "Test", &mut summary, options);
    assert!(result.is_ok());
    summary
}

/// A tree with a directory that can go and one that has to stay.
fn sample_tree() -> DirNode {
    dir(
        "C:\\t",
        vec![
            old_file("C:\\t", "a.tmp", 100),
            Entry::Dir(dir(
                "C:\\t\\gone",
                vec![
                    old_file("C:\\t\\gone", "b.tmp", 20),
                    Entry::Dir(dir(
                        "C:\\t\\gone\\deep",
                        vec![old_file("C:\\t\\gone\\deep", "c.tmp", 3)],
                    )),
                    Entry::Dir(dir("C:\\t\\gone\\void", vec![])),
                ],
            )),
            Entry::Dir(dir(
                "C:\\t\\stays",
                vec![
                    old_file("C:\\t\\stays", "desktop.ini", 1),
                    old_file("C:\\t\\stays", "d.tmp", 4000),
                    Entry::Dir(dir(
                        "C:\\t\\stays\\inner",
                        vec![old_file("C:\\t\\stays\\inner", "e.tmp", 50000)],
                    )),
                ],
            )),
        ],
    )
}

#[test]
fn thorough_run_removes_what_is_left_empty() {
    let mut root = sample_tree();
    let summary = run(&mut root, &CleaningOptions::default());
    assert_eq!(summary.deleted_files, 5);
    assert_eq!(summary.total_size, 100 + 20 + 3 + 4000 + 50000);
    assert_eq!(summary.skipped_files, 1);
    assert_eq!(summary.errors.len(), 0);
    // deep, void, gone and inner
    assert_eq!(summary.empty_dirs_removed, 4);
    assert!(!root.removed);
    assert!(file_at(&root, 0).removed);
    let gone = dir_at(&root, 1);
    assert!(gone.removed);
    assert!(dir_at(gone, 1).removed);
    assert!(dir_at(gone, 2).removed);
    let stays = dir_at(&root, 2);
    assert!(!stays.removed);
    assert!(!file_at(stays, 0).removed);
    assert!(file_at(stays, 1).removed);
    assert!(dir_at(stays, 2).removed);
}

#[test]
fn dry_run_changes_nothing_and_repeats() {
    let mut options = CleaningOptions::default();
    options.dry_run = true;
    let mut root = sample_tree();
    let first = run(&mut root, &options);
    assert_eq!(format!("{:?}", root), format!("{:?}", sample_tree()));
    let second = run(&mut root, &options);
    assert_eq!(format!("{:?}", root), format!("{:?}", sample_tree()));
    assert_eq!(format!("{:?}", first), format!("{:?}", second));
    assert_eq!(first.deleted_files, 5);
    assert_eq!(first.total_size, 54123);
    assert_eq!(first.skipped_files, 1);
    assert_eq!(first.errors.len(), 0);
}

#[test]
fn dry_run_counts_as_the_run_does() {
    let mut dry = CleaningOptions::default();
    dry.dry_run = true;
    let mut kept = sample_tree();
    let counted = run(&mut kept, &dry);
    let mut taken = sample_tree();
    let done = run(&mut taken, &CleaningOptions::default());
    assert_eq!(format!("{:?}", counted), format!("{:?}", done));
    assert_eq!(counted.empty_dirs_removed, 4);
    assert_eq!(format!("{:?}", kept), format!("{:?}", sample_tree()));
}

#[test]
fn dry_run_counts_directories_that_would_become_empty() {
    let mut dry = CleaningOptions::default();
    dry.dry_run = true;
    // `a` holds nothing but the empty directory `b`.
    let nested = || {
        dir(
            "C:\\d",
            vec![Entry::Dir(dir("C:\\d\\a", vec![Entry::Dir(dir("C:\\d\\a\\b", vec![]))]))],
        )
    };
    let mut root = nested();
    let mut summary = CleaningSummary::new();
    remove_empty_directories_safe(&mut root, &mut summary, &dry);
    assert_eq!(summary.empty_dirs_removed, 2);
    assert_eq!(format!("{:?}", root), format!("{:?}", nested()));

    // `a` holds the empty directories `b` and `c`.
    let forked = || {
        dir(
            "C:\\d",
            vec![Entry::Dir(dir(
                "C:\\d\\a",
                vec![
                    Entry::Dir(dir("C:\\d\\a\\b", vec![])),
                    Entry::Dir(dir("C:\\d\\a\\c", vec![])),
                ],
            ))],
        )
    };
    let mut root = forked();
    let summary = run(&mut root, &dry);
    assert_eq!(summary.empty_dirs_removed, 3);
    assert_eq!(format!("{:?}", root), format!("{:?}", forked()));
    let mut root = forked();
    let summary = run(&mut root, &CleaningOptions::default());
    assert_eq!(summary.empty_dirs_removed, 3);
}

#[test]
fn dry_run_takes_every_deletion_as_done() {
    let mut dry = CleaningOptions::default();
    dry.dry_run = true;
    let mut locked = node("C:\\t", "locked.tmp", 5, FileAge::SecondsAgo(9 * DAY));
    locked.removal = Some(failure(IoErrorKind::Other, Some(32), "in use"));
    let mut stuck = dir("C:\\t\\stuck", vec![]);
    stuck.removal = Some(failure(IoErrorKind::Other, None, "busy"));
    let mut root = dir("C:\\t", vec![Entry::File(locked.clone()), Entry::Dir(stuck)]);
    let before = format!("{:?}", root);
    let summary = run(&mut root, &dry);
    assert_eq!(summary.deleted_files, 1);
    assert_eq!(summary.total_size, 5);
    assert_eq!(summary.skipped_files, 0);
    assert_eq!(summary.empty_dirs_removed, 1);
    assert_eq!(summary.errors.len(), 0);
    assert_eq!(format!("{:?}", root), before);

    let mut one = CleaningSummary::new();
    process_file(&mut locked, "Test", &mut one, &dry);
    assert_eq!((one.deleted_files, one.total_size, one.skipped_files), (1, 5, 0));
    assert!(!locked.removed);
    assert!(locked.removal.is_some());
}

#[test]
fn zero_days_takes_every_age_but_not_the_future() {
    let mut options = CleaningOptions::default();
    options.min_file_age_days = 0;
    let mut root = dir(
        "C:\\t",
        vec![
            Entry::File(node("C:\\t", "now.tmp", 1, FileAge::SecondsAgo(0))),
            Entry::File(node("C:\\t", "old.tmp", 2, FileAge::SecondsAgo(400 * DAY))),
            Entry::File(node("C:\\t", "ahead.tmp", 4, FileAge::InFuture)),
            Entry::File(node("C:\\t", "unknown.tmp", 8, FileAge::Unknown)),
            Entry::File(node("C:\\t", "thumbs.db", 16, FileAge::SecondsAgo(5))),
        ],
    );
    let summary = run(&mut root, &options);
    assert_eq!(summary.deleted_files, 2);
    assert_eq!(summary.total_size, 3);
    assert_eq!(summary.skipped_files, 3);
    assert!(file_at(&root, 0).removed);
    assert!(file_at(&root, 1).removed);
    assert!(!file_at(&root, 2).removed);
    assert!(!file_at(&root, 3).removed);
    assert!(!file_at(&root, 4).removed);
}

#[test]
fn far_future_age_takes_nothing() {
    for days in [u64::MAX, u64::MAX / 86400 + 1, 1_000_000_000] {
        let mut options = CleaningOptions::default();
        options.min_file_age_days = days;
        let mut root = dir(
            "C:\\t",
            vec![
                Entry::File(node("C:\\t", "a.tmp", 1, FileAge::SecondsAgo(u64::MAX))),
                Entry::File(node("C:\\t", "b.tmp", 1, FileAge::SecondsAgo(0))),
            ],
        );
        let summary = run(&mut root, &options);
        let expected = if days == 1_000_000_000 { 1 } else { 0 };
        assert_eq!(summary.deleted_files, expected, "for {} days", days);
        assert_eq!(summary.skipped_files, 2 - expected);
    }
}

#[test]
fn age_is_counted_in_whole_days() {
    assert!(is_file_older_than_days(FileAge::SecondsAgo(DAY), 1));
    assert!(!is_file_older_than_days(FileAge::SecondsAgo(DAY - 1), 1));
    assert!(is_file_older_than_days(FileAge::SecondsAgo(0), 0));
    assert!(!is_file_older_than_days(FileAge::InFuture, 0));
    assert!(!is_file_older_than_days(FileAge::Unknown, 0));
    assert!(!is_file_older_than_days(FileAge::SecondsAgo(u64::MAX), u64::MAX));
    assert!(is_file_older_than_days(FileAge::SecondsAgo(u64::MAX), u64::MAX / DAY));
}

#[test]
fn links_are_counted_and_never_followed() {
    let mut root = dir(
        "C:\\t",
        vec![
            Entry::DirLink("C:\\t\\up".to_string()),
            Entry::Dir(dir(
                "C:\\t\\sub",
                vec![Entry::DirLink("C:\\t\\sub\\back".to_string())],
            )),
            Entry::Other("C:\\t\\pipe".to_string()),
        ],
    );
    let before = format!("{:?}", root);
    let summary = run(&mut root, &CleaningOptions::default());
    assert_eq!(summary.skipped_files, 2);
    assert_eq!(summary.deleted_files, 0);
    assert_eq!(summary.empty_dirs_removed, 0);
    assert_eq!(summary.errors.len(), 0);
    assert_eq!(format!("{:?}", root), before);

    let mut flat = CleaningOptions::default();
    flat.recursive = false;
    let summary = run(&mut root, &flat);
    assert_eq!(summary.skipped_files, 0);
    assert_eq!(format!("{:?}", root), before);
}

#[test]
fn without_recursion_subdirectories_keep_their_files() {
    let mut options = CleaningOptions::default();
    options.recursive = false;
    options.remove_empty_dirs = false;
    let mut root = sample_tree();
    let summary = run(&mut root, &options);
    assert_eq!(summary.deleted_files, 1);
    assert_eq!(summary.total_size, 100);
    assert_eq!(summary.empty_dirs_removed, 0);
    assert!(!file_at(dir_at(&root, 1), 0).removed);

    // The pass for empty directories goes down all the same.
    let mut options = CleaningOptions::default();
    options.recursive = false;
    let mut root = sample_tree();
    let summary = run(&mut root, &options);
    assert_eq!(summary.deleted_files, 1);
    assert_eq!(summary.empty_dirs_removed, 1);
    assert!(dir_at(dir_at(&root, 1), 2).removed);
    assert!(!dir_at(&root, 1).removed);
}

#[test]
fn the_limit_on_files_stops_the_run() {
    let mut options = CleaningOptions::default();
    options.max_files = 2;
    let mut root = dir(
        "C:\\t",
        vec![
            old_file("C:\\t", "a.tmp", 1),
            old_file("C:\\t", "desktop.ini", 1),
            old_file("C:\\t", "b.tmp", 2),
            old_file("C:\\t", "c.tmp", 4),
            Entry::Dir(dir("C:\\t\\sub", vec![old_file("C:\\t\\sub", "d.tmp", 8)])),
        ],
    );
    let summary = run(&mut root, &options);
    assert_eq!(summary.deleted_files, 2);
    assert_eq!(summary.total_size, 3);
    assert_eq!(summary.skipped_files, 1);
    assert!(!file_at(&root, 3).removed);
    assert!(!file_at(dir_at(&root, 4), 0).removed);
    assert!(!dir_at(&root, 4).removed);

    // Once the limit is reached, a further call does nothing.
    let mut again = CleaningSummary::new();
    again.deleted_files = 2;
    let before = format!("{:?}", root);
    assert!(clean_directory_advanced(&mut root, "Test", &mut again, &options).is_ok());
    assert_eq!(again.deleted_files, 2);
    assert_eq!(again.skipped_files, 0);
    assert_eq!(format!("{:?}", root), before);
}

#[test]
fn extensions_and_sizes_hold_files_back() {
    let mut options = CleaningOptions::default();
    options.target_extensions = Some(vec!["TMP".to_string(), "bak".to_string()]);
    options.min_file_size = 10;
    options.max_file_size = 100;
    let mut root = dir(
        "C:\\t",
        vec![
            old_file("C:\\t", "a.tmp", 10),
            old_file("C:\\t", "b.Bak", 100),
            old_file("C:\\t", "c.txt", 50),
            old_file("C:\\t", "noext", 50),
            old_file("C:\\t", "dot.", 50),
            old_file("C:\\t", "small.tmp", 9),
            old_file("C:\\t", "large.tmp", 101),
            old_file("C:\\t", "archive.tar.bak", 11),
        ],
    );
    let summary = run(&mut root, &options);
    assert_eq!(summary.deleted_files, 3);
    assert_eq!(summary.total_size, 121);
    assert_eq!(summary.skipped_files, 5);
    assert!(file_at(&root, 0).removed);
    assert!(file_at(&root, 1).removed);
    assert!(file_at(&root, 7).removed);
}

#[test]
fn failures_are_recorded_and_the_run_goes_on() {
    let mut locked = node("C:\\t", "locked.tmp", 5, FileAge::SecondsAgo(9 * DAY));
    locked.removal = Some(failure(IoErrorKind::Other, Some(32), "in use"));
    let mut denied = node("C:\\t", "denied.tmp", 5, FileAge::SecondsAgo(9 * DAY));
    denied.removal = Some(failure(IoErrorKind::PermissionDenied, None, "denied"));
    let mut broken = node("C:\\t", "broken.tmp", 5, FileAge::SecondsAgo(9 * DAY));
    broken.removal = Some(failure(IoErrorKind::Other, Some(1117), "device error"));
    let mut blind = node("C:\\t", "blind.tmp", 5, FileAge::SecondsAgo(9 * DAY));
    blind.metadata = Err(failure(IoErrorKind::Other, None, "no metadata"));
    let mut stuck = dir("C:\\t\\stuck", vec![]);
    stuck.removal = Some(failure(IoErrorKind::Other, None, "busy"));
    let mut closed = dir("C:\\t\\closed", vec![]);
    closed.listing =
        Listing::Unreadable(failure(IoErrorKind::PermissionDenied, Some(5), "access denied"));
    let mut root = dir(
        "C:\\t",
        vec![
            Entry::File(locked),
            Entry::Unreadable(failure(IoErrorKind::Other, None, "bad entry")),
            Entry::File(denied),
            Entry::File(broken),
            Entry::File(blind),
            Entry::Dir(stuck),
            Entry::Dir(closed),
            old_file("C:\\t", "last.tmp", 7),
        ],
    );
    let summary = run(&mut root, &CleaningOptions::default());
    assert_eq!(summary.deleted_files, 1);
    assert_eq!(summary.total_size, 7);
    assert_eq!(summary.skipped_files, 3);
    assert_eq!(summary.empty_dirs_removed, 0);
    assert_eq!(
        texts(&summary.errors),
        vec![
            "Datei in Verwendung: C:\\t\\locked.tmp",
            "IO-Fehler bei C:\\t: bad entry",
            "Datei in Verwendung: C:\\t\\denied.tmp",
            "IO-Fehler bei C:\\t\\broken.tmp: device error",
            "IO-Fehler bei C:\\t\\blind.tmp: no metadata",
            "Keine Berechtigung: C:\\t\\closed",
            "IO-Fehler bei C:\\t\\stuck: busy",
        ]
    );
    assert!(!dir_at(&root, 5).removed);
    assert!(!dir_at(&root, 6).removed);
    assert!(file_at(&root, 7).removed);
}

#[test]
fn what_is_no_directory_fails() {
    let mut summary = CleaningSummary::new();
    let options = CleaningOptions::default();
    let mut missing = dir("C:\\nowhere", vec![]);
    missing.listing = Listing::NotADirectory;
    let result = clean_directory_advanced(&mut missing, "Test", &mut summary, &options);
    assert!(matches!(&result, Err(CleaningError::DirectoryNotFound(p)) if p == "C:\\nowhere"));
    let mut removed = dir("C:\\was", vec![]);
    removed.removed = true;
    let result = clean_directory_advanced(&mut removed, "Test", &mut summary, &options);
    assert_eq!(
        result.map_err(|e| e.message()),
        Err("Verzeichnis nicht gefunden: C:\\was".to_string())
    );
    let mut closed = dir("C:\\closed", vec![]);
    closed.listing = Listing::Unreadable(failure(IoErrorKind::Other, None, "nein"));
    let result = clean_directory_advanced(&mut closed, "Test", &mut summary, &options);
    assert_eq!(
        result.map_err(|e| e.message()),
        Err("IO-Fehler bei C:\\closed: nein".to_string())
    );
    closed.listing = Listing::Unreadable(failure(IoErrorKind::PermissionDenied, None, "nein"));
    let result = clean_directory_advanced(&mut closed, "Test", &mut summary, &options);
    assert!(matches!(&result, Err(CleaningError::PermissionDenied(p)) if p == "C:\\closed"));
    assert_eq!(summary.errors.len(), 0);
    assert_eq!(summary.skipped_files, 0);
}

#[test]
fn want_of_permission_is_told_apart() {
    let mut blind = node("C:\\t", "blind.tmp", 5, FileAge::SecondsAgo(9 * DAY));
    blind.metadata = Err(failure(IoErrorKind::PermissionDenied, Some(5), "denied"));
    let mut stuck = dir("C:\\t\\stuck", vec![]);
    stuck.removal = Some(failure(IoErrorKind::PermissionDenied, None, "denied"));
    let mut root = dir(
        "C:\\t",
        vec![
            Entry::File(blind),
            Entry::Unreadable(failure(IoErrorKind::PermissionDenied, None, "denied")),
            Entry::Dir(stuck),
        ],
    );
    let summary = run(&mut root, &CleaningOptions::default());
    assert_eq!(
        texts(&summary.errors),
        vec![
            "Keine Berechtigung: C:\\t\\blind.tmp",
            "Keine Berechtigung: C:\\t",
            "Keine Berechtigung: C:\\t\\stuck",
        ]
    );
    assert_eq!(summary.skipped_files, 0);
    assert_eq!(summary.deleted_files, 0);
}

#[test]
fn process_file_counts_one_file() {
    let options = CleaningOptions::default();
    let mut summary = CleaningSummary::new();
    let mut keep = node("C:\\t", ".hidden", 5, FileAge::SecondsAgo(9 * DAY));
    process_file(&mut keep, "Test", &mut summary, &options);
    assert!(!keep.removed);
    assert_eq!((summary.deleted_files, summary.skipped_files), (0, 1));
    let mut take = node("C:\\t", "x.tmp", 5, FileAge::SecondsAgo(9 * DAY));
    process_file(&mut take, "Test", &mut summary, &options);
    assert!(take.removed);
    assert_eq!((summary.deleted_files, summary.skipped_files), (1, 1));
    assert_eq!(summary.total_size, 5);
}

#[test]
fn counters_stop_at_the_largest_number() {
    let options = CleaningOptions::default();
    let mut summary = CleaningSummary::new();
    summary.deleted_files = usize::MAX;
    summary.total_size = u64::MAX - 3;
    let mut take = node("C:\\t", "x.tmp", 5, FileAge::SecondsAgo(9 * DAY));
    process_file(&mut take, "Test", &mut summary, &options);
    assert!(take.removed);
    assert_eq!(summary.deleted_files, usize::MAX);
    assert_eq!(summary.total_size, u64::MAX);
}

#[test]
fn sweeping_removes_from_the_bottom_up() {
    let mut root = dir(
        "C:\\t",
        vec![
            Entry::Dir(dir(
                "C:\\t\\a",
                vec![Entry::Dir(dir("C:\\t\\a\\b", vec![Entry::Dir(dir("C:\\t\\a\\b\\c", vec![]))]))],
            )),
            Entry::Dir(dir("C:\\t\\full", vec![old_file("C:\\t\\full", "x.tmp", 1)])),
        ],
    );
    let mut summary = CleaningSummary::new();
    remove_empty_directories_safe(&mut root, &mut summary, &CleaningOptions::default());
    assert_eq!(summary.empty_dirs_removed, 3);
    assert!(dir_at(&root, 0).removed);
    assert!(dir_at(dir_at(&root, 0), 0).removed);
    assert!(!dir_at(&root, 1).removed);
    assert!(!root.removed);
    assert!(!is_directory_empty(&root));
    assert!(is_directory_empty(dir_at(&root, 0)));
}

#[test]
fn sharing_and_lock_violations_mean_in_use() {
    assert!(is_file_in_use_error(&failure(IoErrorKind::Other, Some(32), "")));
    assert!(is_file_in_use_error(&failure(IoErrorKind::Other, Some(33), "")));
    assert!(is_file_in_use_error(&failure(IoErrorKind::PermissionDenied, None, "")));
    assert!(is_file_in_use_error(&failure(IoErrorKind::PermissionDenied, Some(5), "")));
    assert!(!is_file_in_use_error(&failure(IoErrorKind::Other, Some(5), "")));
    assert!(!is_file_in_use_error(&failure(IoErrorKind::Other, Some(0), "")));
    assert!(!is_file_in_use_error(&failure(IoErrorKind::NotFound, None, "")));
}

#[test]
fn classification_of_failures() {
    let held = failure(IoErrorKind::Other, Some(33), "locked");
    let denied = failure(IoErrorKind::PermissionDenied, Some(5), "denied");
    let gone = failure(IoErrorKind::NotFound, Some(2), "not found");
    assert_eq!(classify_io_error("p", &held, true).message(), "Datei in Verwendung: p");
    assert_eq!(classify_io_error("p", &held, false).message(), "Datei in Verwendung: p");
    assert_eq!(classify_io_error("p", &denied, true).message(), "Datei in Verwendung: p");
    assert_eq!(classify_io_error("p", &denied, false).message(), "Keine Berechtigung: p");
    assert_eq!(classify_io_error("p", &gone, true).message(), "IO-Fehler bei p: not found");
    assert_eq!(classify_io_error("p", &gone, false).message(), "IO-Fehler bei p: not found");
    assert!(matches!(classify_io_error("p", &denied, false), CleaningError::PermissionDenied(_)));
}

#[test]
fn eligibility_of_single_files() {
    let options = CleaningOptions::default();
    let old = node("C:\\t", "x.tmp", 5, FileAge::SecondsAgo(9 * DAY));
    assert!(is_eligible(&old, "Test", &options));
    let young = node("C:\\t", "x.tmp", 5, FileAge::SecondsAgo(DAY - 1));
    assert!(!is_eligible(&young, "Test", &options));
    let protected = node("C:\\t", "pagefile.sys", 5, FileAge::SecondsAgo(9 * DAY));
    assert!(!is_eligible(&protected, "Test", &options));
    assert!(is_eligible(&protected, "Windows Temp", &options));
    let mut blind = node("C:\\t", "x.tmp", 5, FileAge::SecondsAgo(9 * DAY));
    blind.metadata = Err(failure(IoErrorKind::Other, None, "no"));
    assert!(!is_eligible(&blind, "Test", &options));
    let mut locked = node("C:\\t", "x.tmp", 5, FileAge::SecondsAgo(9 * DAY));
    locked.removal = Some(failure(IoErrorKind::Other, Some(32), "in use"));
    assert!(is_eligible(&locked, "Test", &options));
}

#[test]
fn a_copy_is_equal_and_apart() {
    let source = sample_tree();
    let mut copy = source.duplicate();
    assert_eq!(format!("{:?}", copy), format!("{:?}", source));
    let _ = run(&mut copy, &CleaningOptions::default());
    assert_eq!(format!("{:?}", source), format!("{:?}", sample_tree()));
    assert!(format!("{:?}", copy) != format!("{:?}", source));
}

#[test]
fn what_a_run_leaves_to_do() {
    let mut root = sample_tree();
    let _ = run(&mut root, &CleaningOptions::default());
    let mut files = vec!["first".to_string()];
    root.marked_files(&mut files);
    assert_eq!(
        files,
        vec![
            "first",
            "C:\\t\\a.tmp",
            "C:\\t\\gone\\b.tmp",
            "C:\\t\\gone\\deep\\c.tmp",
            "C:\\t\\stays\\d.tmp",
            "C:\\t\\stays\\inner\\e.tmp",
        ]
    );
    let mut dirs = Vec::new();
    root.marked_dirs(&mut dirs);
    assert_eq!(
        dirs,
        vec!["C:\\t\\gone\\deep", "C:\\t\\gone\\void", "C:\\t\\gone", "C:\\t\\stays\\inner"]
    );
    let mut untouched = Vec::new();
    sample_tree().marked_files(&mut untouched);
    sample_tree().marked_dirs(&mut untouched);
    assert!(untouched.is_empty());
}

#[test]
fn a_refusal_is_noted_once() {
    let held = failure(IoErrorKind::Other, Some(32), "in use");
    let mut root = sample_tree();
    assert!(root.note_refusal("C:\\t\\gone\\deep\\c.tmp", &held));
    assert!(!root.note_refusal("C:\\t\\gone\\deep\\c.tmp", &held));
    assert!(!root.note_refusal("C:\\t\\nothing", &held));
    assert!(!root.note_refusal("C:\\t", &held));
    assert!(root.note_refusal("C:\\t\\gone\\void", &held));
    let summary = run(&mut root, &CleaningOptions::default());
    assert_eq!(summary.deleted_files, 4);
    assert_eq!(summary.skipped_files, 2);
    assert_eq!(summary.empty_dirs_removed, 1);
    assert_eq!(
        texts(&summary.errors),
        vec![
            "Datei in Verwendung: C:\\t\\gone\\deep\\c.tmp",
            "Datei in Verwendung: C:\\t\\gone\\void",
            "Datei in Verwendung: C:\\t\\gone\\void",
        ]
    );
    assert!(!dir_at(&root, 1).removed);
}
