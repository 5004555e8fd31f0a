//! The traversal: files first, then subdirectories, then the directories
//! that are left empty.

use vstd::prelude::*;
use crate::cleaning::error::{classified, classify_io_error, CleaningError, CleaningErrorView};
use crate::cleaning::filter::{
    extension_wanted, has_wanted_extension, is_file_older_than_days, is_protected,
    is_size_allowed, old_enough, should_skip_file_advanced, size_allowed,
};
use crate::cleaning::host::{
    entry_is_absent, entry_views, is_absent, is_directory_empty, is_empty_dir, unhindered,
    DirNode, DirView, Entry, EntryView, FileNode, Listing, ListingView,
};
use crate::cleaning::options::{CleaningOptions, OptionsView};
use crate::cleaning::summary::{
    grown, with_deleted, with_empty_dir, with_error, with_skipped, CleaningSummary, SummaryView,
};

verus! {

/// A file is eligible if it is not protected, has a wanted extension, has
/// metadata that can be read, is within the size limits and is old enough.
pub open spec fn eligible(file: FileNode, location: Seq<char>, options: OptionsView)
    -> bool {
    &&& !is_protected(file.name@, location, options)
    &&& extension_wanted(file.name@, options)
    &&& file.metadata matches Ok(meta) && size_allowed(meta.size, options) && old_enough(
        meta.age,
        options.min_file_age_days,
    )
}

/// Whether a run may delete `file` at the location `location_name`.
pub fn is_eligible(file: &FileNode, location_name: &str, options: &CleaningOptions) -> (r: bool)
    ensures
        r == eligible(*file, location_name@, options@),
{
    if should_skip_file_advanced(file.name.as_str(), location_name, options) {
        return false;
    }
    if !has_wanted_extension(file.name.as_str(), options) {
        return false;
    }
    match &file.metadata {
        Ok(meta) => is_size_allowed(meta.size, options) && is_file_older_than_days(
            meta.age,
            options.min_file_age_days,
        ),
        Err(_) => false,
    }
}

/// What processing one file does to the summary and to the file.
///
/// A protected file and a file that a filter holds back are counted as kept.
/// Metadata that cannot be read is recorded as an error, classified by its
/// kind, and the file is not counted. An eligible file is deleted and counted
/// as deleted, with its size. Where deleting fails, the failure is recorded
/// and the file is counted as kept.
pub open spec fn file_step(
    summary: SummaryView,
    file: FileNode,
    location: Seq<char>,
    options: OptionsView,
) -> (SummaryView, FileNode) {
    if is_protected(file.name@, location, options) || !extension_wanted(file.name@, options) {
        (with_skipped(summary), file)
    } else {
        match file.metadata {
            Err(failure) => (with_error(summary, classified(file.path@, failure, false)), file),
            Ok(meta) => {
                if !size_allowed(meta.size, options) || !old_enough(
                    meta.age,
                    options.min_file_age_days,
                ) {
                    (with_skipped(summary), file)
                } else {
                    match file.removal {
                        None => (with_deleted(summary, meta.size), FileNode { removed: true, ..file }),
                        Some(failure) => (
                            with_skipped(with_error(summary, classified(file.path@, failure, true))),
                            file,
                        ),
                    }
                }
            },
        }
    }
}

/// Processes one file of the tree on which a run works: keeps it, or
/// deletes it and counts it.
pub(crate) fn process_file_at_work(
    file: &mut FileNode,
    location_name: &str,
    summary: &mut CleaningSummary,
    options: &CleaningOptions,
)
    ensures
        (final(summary)@, *final(file)) == file_step(
            old(summary)@,
            *old(file),
            location_name@,
            options@,
        ),
        final(summary).cleaned_locations == old(summary).cleaned_locations,
        grown(old(summary)@, final(summary)@),
{
    if should_skip_file_advanced(file.name.as_str(), location_name, options) {
        summary.count_skipped();
        return;
    }
    if !has_wanted_extension(file.name.as_str(), options) {
        summary.count_skipped();
        return;
    }
    let meta = match &file.metadata {
        Ok(meta) => *meta,
        Err(failure) => {
            summary.add_error(classify_io_error(file.path.as_str(), failure, false));
            return;
        },
    };
    if !is_size_allowed(meta.size, options) {
        summary.count_skipped();
        return;
    }
    if !is_file_older_than_days(meta.age, options.min_file_age_days) {
        summary.count_skipped();
        return;
    }
    match &file.removal {
        None => {
            file.removed = true;
            summary.count_deleted(meta.size);
        },
        Some(failure) => {
            summary.add_error(classify_io_error(file.path.as_str(), failure, true));
            summary.count_skipped();
        },
    }
}

/// The file as a run takes it: the file itself, or, in a dry run, the file
/// with nothing that resists its deletion.
pub open spec fn file_at_work(file: FileNode, options: OptionsView) -> FileNode {
    if options.dry_run {
        FileNode { removal: None, ..file }
    } else {
        file
    }
}

/// Processes one file: keeps it, or deletes it and counts it. A dry run
/// counts as a run would in which the deletion succeeds, and leaves the file
/// as it is.
pub fn process_file(
    file: &mut FileNode,
    location_name: &str,
    summary: &mut CleaningSummary,
    options: &CleaningOptions,
)
    ensures
        final(summary)@ == file_step(
            old(summary)@,
            file_at_work(*old(file), options@),
            location_name@,
            options@,
        ).0,
        *final(file) == (if options.dry_run {
            *old(file)
        } else {
            file_step(old(summary)@, *old(file), location_name@, options@).1
        }),
        final(summary).cleaned_locations == old(summary).cleaned_locations,
        grown(old(summary)@, final(summary)@),
{
    if options.dry_run {
        let mut copy = file.clone();
        copy.removal = None;
        process_file_at_work(&mut copy, location_name, summary, options);
    } else {
        process_file_at_work(file, location_name, summary, options);
    }
}

/// The run has deleted as many files as it may; a limit of 0 is no limit.
pub open spec fn budget_spent(summary: SummaryView, options: OptionsView) -> bool {
    options.max_files > 0 && summary.deleted_files >= options.max_files
}

/// Whether the run has deleted as many files as it may.
pub fn is_budget_spent(summary: &CleaningSummary, options: &CleaningOptions) -> (spent: bool)
    ensures
        spent == budget_spent(summary@, options@),
{
    options.max_files > 0 && summary.deleted_files >= options.max_files
}

/// What an attempt to remove a directory does, once all below it had their
/// turn: an empty directory is removed and counted; where removing fails,
/// the failure is recorded, classified by its kind. A directory that still
/// holds something stays untouched.
pub open spec fn settle_dir(summary: SummaryView, dir: DirView, options: OptionsView) -> (
    SummaryView,
    DirView,
) {
    if !is_empty_dir(dir) {
        (summary, dir)
    } else {
        match dir.removal {
            None => (with_empty_dir(summary), DirView { removed: true, ..dir }),
            Some(failure) => (with_error(summary, classified(dir.path@, failure, false)), dir),
        }
    }
}

/// The pass that removes empty directories below `dir`, deepest first.
/// Symbolic links are not followed, and `dir` itself stays.
pub open spec fn sweep(summary: SummaryView, dir: DirView, options: OptionsView) -> (
    SummaryView,
    DirView,
)
    decreases dir,
{
    match dir.listing {
        ListingView::Entries(entries) => {
            let (swept, left) = sweep_entries(summary, entries, options);
            (swept, DirView { listing: ListingView::Entries(left), ..dir })
        },
        _ => (summary, dir),
    }
}

/// The pass over the entries of one directory, in order.
pub open spec fn sweep_entries(
    summary: SummaryView,
    entries: Seq<EntryView>,
    options: OptionsView,
) -> (SummaryView, Seq<EntryView>)
    decreases entries,
{
    if entries.len() == 0 {
        (summary, Seq::empty())
    } else {
        let (before, done) = sweep_entries(summary, entries.drop_last(), options);
        let (after, entry) = sweep_entry(before, entries.last(), options);
        (after, done.push(entry))
    }
}

/// The pass at one entry: a directory that is there is swept and then
/// settled; anything else stays as it is.
pub open spec fn sweep_entry(summary: SummaryView, entry: EntryView, options: OptionsView)
    -> (SummaryView, EntryView)
    decreases entry,
{
    match entry {
        EntryView::Dir(sub) => {
            if sub.removed {
                (summary, entry)
            } else {
                let (swept, below) = sweep(summary, sub, options);
                let (settled, left) = settle_dir(swept, below, options);
                (settled, EntryView::Dir(left))
            }
        },
        _ => (summary, entry),
    }
}

/// Removes the empty directories below `dir`, deepest first, on the tree on
/// which a run works.
pub(crate) fn sweep_at_work(
    dir: &mut DirNode,
    summary: &mut CleaningSummary,
    options: &CleaningOptions,
)
    ensures
        (final(summary)@, final(dir)@) == sweep(old(summary)@, old(dir)@, options@),
        final(summary).cleaned_locations == old(summary).cleaned_locations,
        grown(old(summary)@, final(summary)@),
    decreases *old(dir),
{
    match &mut dir.listing {
        Listing::Entries(entries) => {
            let ghost before = entries@;
            let ghost views = entry_views(before);
            let ghost start = summary@;
            let n = entries.len();
            let mut i: usize = 0;
            proof {
                assert(views.take(0) =~= Seq::<EntryView>::empty());
                assert(entry_views(entries@).take(0) =~= Seq::<EntryView>::empty());
            }
            while i < n
                invariant
                    i <= n,
                    entries@.len() == n,
                    before.len() == n,
                    views == entry_views(before),
                    old(dir).listing is Entries,
                    old(dir).listing->Entries_0@ == before,
                    forall|k: int| i <= k < n ==> entries@[k] == before[k],
                    sweep_entries(start, views.take(i as int), options@) == (
                        summary@,
                        entry_views(entries@).take(i as int),
                    ),
                    summary.cleaned_locations == old(summary).cleaned_locations,
                    grown(old(summary)@, summary@),
                decreases n - i,
            {
                let ghost prior = entries@;
                let ghost at = summary@;
                proof {
                    let listed = old(dir).listing->Entries_0;
                    assert(decreases_to!(*old(dir) => old(dir).listing));
                    assert(decreases_to!(old(dir).listing => listed));
                    assert(decreases_to!(listed => listed@[i as int]));
                    assert(decreases_to!(*old(dir) => before[i as int]));
                }
                match &mut entries[i] {
                    Entry::Dir(sub) => {
                        assert(decreases_to!(before[i as int] => *sub));
                        if !sub.removed {
                            sweep_at_work(sub, summary, options);
                            if is_directory_empty(sub) {
                                match &sub.removal {
                                    None => {
                                        sub.removed = true;
                                        summary.count_empty_dir();
                                    },
                                    Some(failure) => {
                                        summary.add_error(
                                            classify_io_error(sub.path.as_str(), failure, false),
                                        );
                                    },
                                }
                            }
                        }
                    },
                    _ => {},
                }
                proof {
                    assert(views.take(i + 1).drop_last() =~= views.take(i as int));
                    assert(views.take(i + 1).last() == before[i as int]@);
                    assert((summary@, entries@[i as int]@) == sweep_entry(
                        at,
                        before[i as int]@,
                        options@,
                    ));
                    assert(entry_views(entries@).take(i + 1) =~= entry_views(prior).take(
                        i as int,
                    ).push(entries@[i as int]@));
                }
                i += 1;
            }
            proof {
                assert(views.take(n as int) =~= views);
                assert(entry_views(entries@).take(n as int) =~= entry_views(entries@));
            }
        },
        _ => {},
    }
}

/// The directory as a run takes it: the directory itself, or, in a dry run,
/// the directory with nothing in it that resists deletion.
pub open spec fn tree_at_work(dir: DirView, options: OptionsView) -> DirView {
    if options.dry_run {
        unhindered(dir)
    } else {
        dir
    }
}

/// Removes the empty directories below `dir`, deepest first. A dry run
/// counts as a run would in which every removal succeeds, and leaves the
/// directory as it is.
pub fn remove_empty_directories_safe(
    dir: &mut DirNode,
    summary: &mut CleaningSummary,
    options: &CleaningOptions,
)
    ensures
        final(summary)@ == sweep(old(summary)@, tree_at_work(old(dir)@, options@), options@).0,
        final(dir)@ == (if options.dry_run {
            old(dir)@
        } else {
            sweep(old(summary)@, old(dir)@, options@).1
        }),
        final(summary).cleaned_locations == old(summary).cleaned_locations,
        grown(old(summary)@, final(summary)@),
{
    if options.dry_run {
        let mut copy = dir.unhindered_copy();
        sweep_at_work(&mut copy, summary, options);
    } else {
        sweep_at_work(dir, summary, options);
    }
}

/// The first pass over the entries of a directory, as far as it has come.
pub struct Scan {
    pub summary: SummaryView,
    /// The entries, with the files that were deleted marked.
    pub entries: Seq<EntryView>,
    /// The number of entries that were passed before the pass stopped.
    pub reached: int,
    /// Whether the pass stopped because no more files may be deleted.
    pub stopped: bool,
}

/// What the first pass does at one entry that is there: a file is processed,
/// a symbolic link to a directory is counted as kept where the run is
/// recursive, and anything else is left to later.
pub open spec fn scan_entry(
    summary: SummaryView,
    entry: EntryView,
    location: Seq<char>,
    options: OptionsView,
) -> (SummaryView, EntryView) {
    match entry {
        EntryView::File(file) => {
            let (counted, left) = file_step(summary, file, location, options);
            (counted, EntryView::File(left))
        },
        EntryView::DirLink(_) => {
            if options.recursive {
                (with_skipped(summary), entry)
            } else {
                (summary, entry)
            }
        },
        _ => (summary, entry),
    }
}

/// The first pass over the entries of the directory at `dir_path`, in order.
///
/// An entry that is absent is passed over. An entry that could not be read
/// is recorded as an error of the directory. At the first other entry at
/// which no more files may be deleted, the pass stops.
pub open spec fn scan(
    summary: SummaryView,
    entries: Seq<EntryView>,
    dir_path: Seq<char>,
    location: Seq<char>,
    options: OptionsView,
) -> Scan
    decreases entries.len(),
{
    if entries.len() == 0 {
        Scan { summary, entries: Seq::empty(), reached: 0, stopped: false }
    } else {
        let before = scan(summary, entries.drop_last(), dir_path, location, options);
        let entry = entries.last();
        if before.stopped {
            Scan { entries: before.entries.push(entry), ..before }
        } else if is_absent(entry) {
            Scan { entries: before.entries.push(entry), reached: before.reached + 1, ..before }
        } else if entry is Unreadable {
            Scan {
                summary: with_error(
                    before.summary,
                    classified(dir_path, entry->Unreadable_0, false),
                ),
                entries: before.entries.push(entry),
                reached: before.reached + 1,
                stopped: false,
            }
        } else if budget_spent(before.summary, options) {
            Scan { entries: before.entries.push(entry), stopped: true, ..before }
        } else {
            let (counted, left) = scan_entry(before.summary, entry, location, options);
            Scan {
                summary: counted,
                entries: before.entries.push(left),
                reached: before.reached + 1,
                stopped: false,
            }
        }
    }
}

/// What cleaning a directory gives: the summary and the directory after it,
/// and the failure where the directory could not be cleaned.
pub struct Cleaned {
    pub summary: SummaryView,
    pub dir: DirView,
    pub error: Option<CleaningErrorView>,
}

/// `summary` with the failure to clean a directory, if there was one.
pub open spec fn with_failure(summary: SummaryView, error: Option<CleaningErrorView>)
    -> SummaryView {
    match error {
        Some(failure) => with_error(summary, failure),
        None => summary,
    }
}

/// Cleaning the directory `dir`.
///
/// A path that names no directory fails as a directory that is not found,
/// and a directory that cannot be read fails with that failure, classified
/// by its kind; neither changes anything. Where no more files may be deleted,
/// nothing is done. Else the files of the directory are processed in order;
/// then, in a recursive run, each subdirectory that was passed is cleaned in
/// the same way, a failure there being recorded as an error; then, where empty
/// directories are to be removed, the directories below `dir` are swept.
pub open spec fn clean_dir(
    summary: SummaryView,
    dir: DirView,
    location: Seq<char>,
    options: OptionsView,
) -> Cleaned
    decreases dir,
{
    if dir.removed {
        Cleaned { summary, dir, error: Some(CleaningErrorView::DirectoryNotFound(dir.path@)) }
    } else {
        match dir.listing {
            ListingView::NotADirectory => Cleaned {
                summary,
                dir,
                error: Some(CleaningErrorView::DirectoryNotFound(dir.path@)),
            },
            ListingView::Unreadable(failure) => Cleaned {
                summary,
                dir,
                error: if budget_spent(summary, options) {
                    None
                } else {
                    Some(classified(dir.path@, failure, false))
                },
            },
            ListingView::Entries(entries) => if budget_spent(summary, options) {
                Cleaned { summary, dir, error: None }
            } else {
                let scanned = scan(summary, entries, dir.path@, location, options);
                let (cleaned, left) = descend(
                    scanned.summary,
                    entries,
                    scanned.entries,
                    scanned.reached,
                    location,
                    options,
                );
                let below = DirView { listing: ListingView::Entries(left), ..dir };
                if options.remove_empty_dirs {
                    let (swept, after) = sweep(cleaned, below, options);
                    Cleaned { summary: swept, dir: after, error: None }
                } else {
                    Cleaned { summary: cleaned, dir: below, error: None }
                }
            },
        }
    }
}

/// The second pass over the entries of a directory: in a recursive run each
/// subdirectory that is there, and that the first pass came by, is cleaned.
/// `found` are the entries before the first pass and `scanned` the
/// entries after it; the first pass leaves subdirectories as they are.
pub open spec fn descend(
    summary: SummaryView,
    found: Seq<EntryView>,
    scanned: Seq<EntryView>,
    reached: int,
    location: Seq<char>,
    options: OptionsView,
) -> (SummaryView, Seq<EntryView>)
    decreases found,
{
    if found.len() == 0 {
        (summary, Seq::empty())
    } else {
        let (before, done) = descend(
            summary,
            found.drop_last(),
            scanned.drop_last(),
            reached,
            location,
            options,
        );
        match found.last() {
            EntryView::Dir(sub) => {
                if options.recursive && found.len() - 1 < reached && !sub.removed {
                    let cleaned = clean_dir(before, sub, location, options);
                    (
                        with_failure(cleaned.summary, cleaned.error),
                        done.push(EntryView::Dir(cleaned.dir)),
                    )
                } else {
                    (before, done.push(scanned.last()))
                }
            },
            _ => (before, done.push(scanned.last())),
        }
    }
}

/// Cleans the directory `dir` for the location `location_name`, on the tree
/// on which a run works.
pub(crate) fn clean_at_work(
    dir: &mut DirNode,
    location_name: &str,
    summary: &mut CleaningSummary,
    options: &CleaningOptions,
) -> (result: Result<(), CleaningError>)
    ensures
        final(summary)@ == clean_dir(old(summary)@, old(dir)@, location_name@, options@).summary,
        final(dir)@ == clean_dir(old(summary)@, old(dir)@, location_name@, options@).dir,
        match result {
            Ok(_) => clean_dir(old(summary)@, old(dir)@, location_name@, options@).error is None,
            Err(failure) => clean_dir(old(summary)@, old(dir)@, location_name@, options@).error
                == Some(failure@),
        },
        final(summary).cleaned_locations == old(summary).cleaned_locations,
        grown(old(summary)@, final(summary)@),
    decreases *old(dir),
{
    if dir.removed {
        return Err(CleaningError::DirectoryNotFound(dir.path.clone()));
    }
    let dir_path = dir.path.clone();
    let ghost start = summary@;
    match &mut dir.listing {
        Listing::NotADirectory => {
            return Err(CleaningError::DirectoryNotFound(dir_path));
        },
        Listing::Unreadable(failure) => {
            if is_budget_spent(summary, options) {
                return Ok(());
            }
            return Err(classify_io_error(dir_path.as_str(), failure, false));
        },
        Listing::Entries(entries) => {
            if is_budget_spent(summary, options) {
                return Ok(());
            }
            let ghost before = entries@;
            let ghost views = entry_views(before);
            let n = entries.len();
            // The files of this directory.
            let mut reached: usize = 0;
            let mut stopped = false;
            let mut i: usize = 0;
            proof {
                assert(views.take(0) =~= Seq::<EntryView>::empty());
                assert(entry_views(entries@).take(0) =~= Seq::<EntryView>::empty());
            }
            while i < n
                invariant
                    i <= n,
                    entries@.len() == n,
                    before.len() == n,
                    views == entry_views(before),
                    dir_path@ == old(dir).path@,
                    forall|k: int| i <= k < n ==> entries@[k] == before[k],
                    forall|k: int|
                        0 <= k < n ==> (#[trigger] entries@[k]) == before[k] || (entries@[k] is File
                            && before[k] is File),
                    scan(start, views.take(i as int), dir_path@, location_name@, options@) == (Scan {
                        summary: summary@,
                        entries: entry_views(entries@).take(i as int),
                        reached: reached as int,
                        stopped,
                    }),
                    reached <= i,
                    summary.cleaned_locations == old(summary).cleaned_locations,
                    grown(old(summary)@, summary@),
                decreases n - i,
            {
                let ghost prior = entries@;
                let ghost at = summary@;
                if stopped {
                } else if entry_is_absent(&entries[i]) {
                    reached = reached + 1;
                } else {
                    match &mut entries[i] {
                        Entry::Unreadable(failure) => {
                            summary.add_error(
                                classify_io_error(dir_path.as_str(), failure, false),
                            );
                            reached = reached + 1;
                        },
                        Entry::File(file) => {
                            if is_budget_spent(summary, options) {
                                stopped = true;
                            } else {
                                process_file_at_work(file, location_name, summary, options);
                                reached = reached + 1;
                            }
                        },
                        Entry::DirLink(_) => {
                            if is_budget_spent(summary, options) {
                                stopped = true;
                            } else {
                                if options.recursive {
                                    summary.count_skipped();
                                }
                                reached = reached + 1;
                            }
                        },
                        _ => {
                            if is_budget_spent(summary, options) {
                                stopped = true;
                            } else {
                                reached = reached + 1;
                            }
                        },
                    }
                }
                proof {
                    assert(views.take(i + 1).drop_last() =~= views.take(i as int));
                    assert(views.take(i + 1).last() == before[i as int]@);
                    assert(prior[i as int] == before[i as int]);
                    assert(entry_views(entries@).take(i + 1) =~= entry_views(prior).take(
                        i as int,
                    ).push(entries@[i as int]@));
                }
                i += 1;
            }
            let ghost scanned = entries@;
            let ghost scanned_views = entry_views(scanned);
            let ghost midway = summary@;
            proof {
                assert(views.take(n as int) =~= views);
                assert(scanned_views.take(n as int) =~= scanned_views);
                assert(views.take(0) =~= Seq::<EntryView>::empty());
                assert(scanned_views.take(0) =~= Seq::<EntryView>::empty());
            }
            // The subdirectories that the first pass came by.
            let mut j: usize = 0;
            while j < n
                invariant
                    j <= n,
                    entries@.len() == n,
                    before.len() == n,
                    scanned.len() == n,
                    views == entry_views(before),
                    scanned_views == entry_views(scanned),
                    old(dir).listing is Entries,
                    old(dir).listing->Entries_0@ == before,
                    forall|k: int| j <= k < n ==> entries@[k] == scanned[k],
                    forall|k: int|
                        0 <= k < n ==> (#[trigger] scanned[k]) == before[k] || (scanned[k] is File
                            && before[k] is File),
                    descend(
                        midway,
                        views.take(j as int),
                        scanned_views.take(j as int),
                        reached as int,
                        location_name@,
                        options@,
                    ) == (summary@, entry_views(entries@).take(j as int)),
                    summary.cleaned_locations == old(summary).cleaned_locations,
                    grown(old(summary)@, summary@),
                decreases n - j,
            {
                let ghost prior = entries@;
                let ghost at = summary@;
                proof {
                    let listed = old(dir).listing->Entries_0;
                    assert(decreases_to!(*old(dir) => old(dir).listing));
                    assert(decreases_to!(old(dir).listing => listed));
                    assert(decreases_to!(listed => listed@[j as int]));
                    assert(decreases_to!(*old(dir) => before[j as int]));
                }
                if options.recursive && j < reached {
                    match &mut entries[j] {
                        Entry::Dir(sub) => {
                            assert(decreases_to!(before[j as int] => *sub));
                            if !sub.removed {
                                match clean_at_work(
                                    sub,
                                    location_name,
                                    summary,
                                    options,
                                ) {
                                    Ok(_) => {},
                                    Err(failure) => {
                                        summary.add_error(failure);
                                    },
                                }
                            }
                        },
                        _ => {},
                    }
                }
                proof {
                    assert(views.take(j + 1).drop_last() =~= views.take(j as int));
                    assert(views.take(j + 1).last() == before[j as int]@);
                    assert(scanned_views.take(j + 1).drop_last() =~= scanned_views.take(j as int));
                    assert(scanned_views.take(j + 1).last() == scanned[j as int]@);
                    assert(prior[j as int] == scanned[j as int]);
                    assert(entry_views(entries@).take(j + 1) =~= entry_views(prior).take(
                        j as int,
                    ).push(entries@[j as int]@));
                }
                j += 1;
            }
            proof {
                assert(views.take(n as int) =~= views);
                assert(scanned_views.take(n as int) =~= scanned_views);
                assert(entry_views(entries@).take(n as int) =~= entry_views(entries@));
            }
        },
    }
    if options.remove_empty_dirs {
        sweep_at_work(dir, summary, options);
    }
    Ok(())
}

/// Cleans the directory `dir` for the location `location_name`. A dry run
/// counts as a run would in which no deletion fails, and leaves the
/// directory, and all that lies below it, as it is.
pub fn clean_directory_advanced(
    dir: &mut DirNode,
    location_name: &str,
    summary: &mut CleaningSummary,
    options: &CleaningOptions,
) -> (result: Result<(), CleaningError>)
    ensures
        final(summary)@ == clean_dir(
            old(summary)@,
            tree_at_work(old(dir)@, options@),
            location_name@,
            options@,
        ).summary,
        final(dir)@ == (if options.dry_run {
            old(dir)@
        } else {
            clean_dir(old(summary)@, old(dir)@, location_name@, options@).dir
        }),
        match result {
            Ok(_) => clean_dir(
                old(summary)@,
                tree_at_work(old(dir)@, options@),
                location_name@,
                options@,
            ).error is None,
            Err(failure) => clean_dir(
                old(summary)@,
                tree_at_work(old(dir)@, options@),
                location_name@,
                options@,
            ).error == Some(failure@),
        },
        final(summary).cleaned_locations == old(summary).cleaned_locations,
        grown(old(summary)@, final(summary)@),
{
    if options.dry_run {
        let mut copy = dir.unhindered_copy();
        clean_at_work(&mut copy, location_name, summary, options)
    } else {
        clean_at_work(dir, location_name, summary, options)
    }
}

} // verus!
