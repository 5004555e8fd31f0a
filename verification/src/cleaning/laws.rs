//! What holds of every run.

use vstd::prelude::*;
use crate::cleaning::engine::{
    budget_spent, clean_dir, descend, eligible, file_at_work, file_step, scan, settle_dir,
    sweep, sweep_entries, sweep_entry,
};
use crate::cleaning::filter::{
    extension_wanted, is_protected, old_enough, size_allowed, FileAge, SECONDS_PER_DAY,
};
use crate::cleaning::host::{DirView, EntryView, FileNode, ListingView};
use crate::cleaning::options::OptionsView;
use crate::cleaning::summary::{grown, with_deleted, with_skipped, SummaryView};

verus! {

/// With a minimum age of zero days, the time at which a file was last
/// changed does not matter, as long as that time is known and not yet to
/// come: a file that is not protected, that has a wanted extension and an
/// allowed size, is eligible.
pub proof fn lemma_zero_days_admits_every_age(
    file: FileNode,
    location: Seq<char>,
    options: OptionsView,
)
    requires
        options.min_file_age_days == 0,
        !is_protected(file.name@, location, options),
        extension_wanted(file.name@, options),
        file.metadata matches Ok(meta) && size_allowed(meta.size, options)
            && meta.age is SecondsAgo,
    ensures
        eligible(file, location, options),
{
}

/// With a minimum age of zero days, every time in the past is old enough.
pub proof fn lemma_zero_days_any_time(seconds: u64)
    ensures
        old_enough(FileAge::SecondsAgo(seconds), 0),
{
}

/// A file is not eligible while it is younger than the minimum age.
pub proof fn lemma_younger_is_kept(
    file: FileNode,
    location: Seq<char>,
    options: OptionsView,
    seconds: u64,
)
    requires
        file.metadata matches Ok(meta) && meta.age == FileAge::SecondsAgo(seconds),
        seconds < options.min_file_age_days * SECONDS_PER_DAY,
    ensures
        !eligible(file, location, options),
{
}

/// With a minimum age of more days than any file can have, no file is
/// eligible.
pub proof fn lemma_far_future_admits_none(
    file: FileNode,
    location: Seq<char>,
    options: OptionsView,
)
    requires
        options.min_file_age_days * SECONDS_PER_DAY > u64::MAX,
    ensures
        !eligible(file, location, options),
{
}

/// A file that is eligible is deleted and counted as deleted, with its
/// size, unless the system refuses; nothing else is counted.
pub proof fn lemma_eligible_file_is_taken(
    summary: SummaryView,
    file: FileNode,
    location: Seq<char>,
    options: OptionsView,
)
    requires
        eligible(file, location, options),
        file.removal is None,
    ensures
        file_step(summary, file, location, options).0 == with_deleted(
            summary,
            file.metadata->Ok_0.size,
        ),
        file_step(summary, file, location, options).1 == (FileNode { removed: true, ..file }),
{
}

/// While the counters are below their largest values, an eligible file that
/// the system lets go adds one to the deleted files and its size to the
/// bytes, and leaves the kept files and the errors as they are.
pub proof fn lemma_eligible_file_counts_once(
    summary: SummaryView,
    file: FileNode,
    location: Seq<char>,
    options: OptionsView,
)
    requires
        eligible(file, location, options),
        file.removal is None,
        summary.deleted_files < usize::MAX,
        summary.total_size + file.metadata->Ok_0.size <= u64::MAX,
    ensures
        file_step(summary, file, location, options).0.deleted_files == summary.deleted_files
            + 1,
        file_step(summary, file, location, options).0.total_size == summary.total_size
            + file.metadata->Ok_0.size,
        file_step(summary, file, location, options).0.skipped_files == summary.skipped_files,
        file_step(summary, file, location, options).0.errors == summary.errors,
        file_step(summary, file, location, options).1.removed,
{
}

/// The same of a dry run: it takes the file as one that the system lets go,
/// whatever the system would say.
pub proof fn lemma_dry_run_counts_eligible_file_once(
    summary: SummaryView,
    file: FileNode,
    location: Seq<char>,
    options: OptionsView,
)
    requires
        options.dry_run,
        eligible(file, location, options),
        summary.deleted_files < usize::MAX,
        summary.total_size + file.metadata->Ok_0.size <= u64::MAX,
    ensures
        file_step(
            summary,
            file_at_work(file, options),
            location,
            options,
        ).0.deleted_files == summary.deleted_files + 1,
        file_step(summary, file_at_work(file, options), location, options).0.total_size
            == summary.total_size + file.metadata->Ok_0.size,
        file_step(summary, file_at_work(file, options), location, options).0.skipped_files
            == summary.skipped_files,
        file_step(summary, file_at_work(file, options), location, options).0.errors
            == summary.errors,
{
}

/// With a minimum age of zero days and no other filter set, a file that is
/// not protected, whose time of change is known and not yet to come, and
/// that the system lets go, is deleted and counted once, whatever that time
/// is.
pub proof fn lemma_zero_days_takes_every_age(
    summary: SummaryView,
    file: FileNode,
    location: Seq<char>,
    options: OptionsView,
    seconds: u64,
)
    requires
        options.min_file_age_days == 0,
        options.target_extensions is None,
        options.max_file_size == 0,
        options.min_file_size == 0,
        !is_protected(file.name@, location, options),
        file.metadata matches Ok(meta) && meta.age == FileAge::SecondsAgo(seconds),
        file.removal is None,
        summary.deleted_files < usize::MAX,
        summary.total_size + file.metadata->Ok_0.size <= u64::MAX,
    ensures
        file_step(summary, file, location, options).1.removed,
        file_step(summary, file, location, options).0.deleted_files == summary.deleted_files
            + 1,
        file_step(summary, file, location, options).0.total_size == summary.total_size
            + file.metadata->Ok_0.size,
        file_step(summary, file, location, options).0.skipped_files == summary.skipped_files,
        file_step(summary, file, location, options).0.errors == summary.errors,
{
}

/// A file that is not eligible stays as it is and is not counted as deleted.
pub proof fn lemma_other_file_is_kept(
    summary: SummaryView,
    file: FileNode,
    location: Seq<char>,
    options: OptionsView,
)
    requires
        !eligible(file, location, options),
    ensures
        file_step(summary, file, location, options).1 == file,
        file_step(summary, file, location, options).0.deleted_files == summary.deleted_files,
        file_step(summary, file, location, options).0.total_size == summary.total_size,
{
}

/// A symbolic link to a directory is never followed: where the first pass
/// comes by one in a recursive run, it counts the link as kept and leaves it
/// as it is.
pub proof fn lemma_link_is_counted_and_kept(
    summary: SummaryView,
    entries: Seq<EntryView>,
    dir_path: Seq<char>,
    location: Seq<char>,
    options: OptionsView,
)
    requires
        entries.len() > 0,
        entries.last() is DirLink,
        options.recursive,
        !scan(summary, entries.drop_last(), dir_path, location, options).stopped,
        !budget_spent(
            scan(summary, entries.drop_last(), dir_path, location, options).summary,
            options,
        ),
    ensures
        scan(summary, entries, dir_path, location, options).summary
            == with_skipped(
            scan(summary, entries.drop_last(), dir_path, location, options).summary,
        ),
        scan(summary, entries, dir_path, location, options).entries.last() == entries.last(),
{
}

/// Processing a file never takes anything back: no counter goes down, and
/// the errors that were recorded stay, in their order.
pub proof fn lemma_file_step_grows(
    summary: SummaryView,
    file: FileNode,
    location: Seq<char>,
    options: OptionsView,
)
    ensures
        grown(summary, file_step(summary, file, location, options).0),
{
}

/// The first pass never takes anything back.
pub proof fn lemma_scan_grows(
    summary: SummaryView,
    entries: Seq<EntryView>,
    dir_path: Seq<char>,
    location: Seq<char>,
    options: OptionsView,
)
    ensures
        grown(summary, scan(summary, entries, dir_path, location, options).summary),
    decreases entries.len(),
{
    if entries.len() > 0 {
        lemma_scan_grows(summary, entries.drop_last(), dir_path, location, options);
        let before = scan(summary, entries.drop_last(), dir_path, location, options);
        match entries.last() {
            EntryView::File(file) => {
                lemma_file_step_grows(before.summary, file, location, options);
            },
            _ => {},
        }
    }
}

/// The pass that removes empty directories never takes anything back.
pub proof fn lemma_sweep_grows(summary: SummaryView, dir: DirView, options: OptionsView)
    ensures
        grown(summary, sweep(summary, dir, options).0),
    decreases dir,
{
    match dir.listing {
        ListingView::Entries(entries) => {
            lemma_sweep_entries_grow(summary, entries, options);
        },
        _ => {},
    }
}

/// The pass that removes empty directories never takes anything back,
/// entry by entry.
pub proof fn lemma_sweep_entries_grow(
    summary: SummaryView,
    entries: Seq<EntryView>,
    options: OptionsView,
)
    ensures
        grown(summary, sweep_entries(summary, entries, options).0),
    decreases entries,
{
    if entries.len() > 0 {
        lemma_sweep_entries_grow(summary, entries.drop_last(), options);
        let (before, done) = sweep_entries(summary, entries.drop_last(), options);
        match entries.last() {
            EntryView::Dir(sub) => {
                if !sub.removed {
                    lemma_sweep_grows(before, sub, options);
                    let (swept, below) = sweep(before, sub, options);
                    assert(grown(swept, settle_dir(swept, below, options).0));
                    assert(grown(before, settle_dir(swept, below, options).0));
                }
            },
            _ => {},
        }
        assert(grown(before, sweep_entry(before, entries.last(), options).0));
    }
}

/// Cleaning a directory never takes anything back: no counter goes down,
/// the errors that were recorded stay, in their order, and the entries of
/// the locations stay as they are.
pub proof fn lemma_clean_grows(
    summary: SummaryView,
    dir: DirView,
    location: Seq<char>,
    options: OptionsView,
)
    ensures
        grown(summary, clean_dir(summary, dir, location, options).summary),
    decreases dir,
{
    match dir.listing {
        ListingView::Entries(entries) => {
            lemma_scan_grows(summary, entries, dir.path@, location, options);
            let scanned = scan(summary, entries, dir.path@, location, options);
            lemma_descend_grows(
                scanned.summary,
                entries,
                scanned.entries,
                scanned.reached,
                location,
                options,
            );
            let (cleaned, left) = descend(
                scanned.summary,
                entries,
                scanned.entries,
                scanned.reached,
                location,
                options,
            );
            let below = DirView { listing: ListingView::Entries(left), ..dir };
            lemma_sweep_grows(cleaned, below, options);
        },
        _ => {},
    }
}

/// The second pass never takes anything back.
pub proof fn lemma_descend_grows(
    summary: SummaryView,
    found: Seq<EntryView>,
    scanned: Seq<EntryView>,
    reached: int,
    location: Seq<char>,
    options: OptionsView,
)
    ensures
        grown(summary, descend(summary, found, scanned, reached, location, options).0),
    decreases found,
{
    if found.len() > 0 {
        lemma_descend_grows(
            summary,
            found.drop_last(),
            scanned.drop_last(),
            reached,
            location,
            options,
        );
        let (before, done) = descend(
            summary,
            found.drop_last(),
            scanned.drop_last(),
            reached,
            location,
            options,
        );
        match found.last() {
            EntryView::Dir(sub) => {
                lemma_clean_grows(before, sub, location, options);
            },
            _ => {},
        }
    }
}

/// The run has not deleted more files than it may; a limit of 0 is no limit.
pub open spec fn within_budget(summary: SummaryView, options: OptionsView) -> bool {
    options.max_files > 0 ==> summary.deleted_files <= options.max_files
}

/// The number of files among `entries`.
pub open spec fn direct_files(entries: Seq<EntryView>) -> nat
    decreases entries.len(),
{
    if entries.len() == 0 {
        0
    } else {
        direct_files(entries.drop_last()) + (if entries.last() is File {
            1nat
        } else {
            0nat
        })
    }
}

/// The number of files in the directories among `entries`, at every depth.
pub open spec fn nested_files(entries: Seq<EntryView>) -> nat
    decreases entries,
{
    if entries.len() == 0 {
        0
    } else {
        nested_files(entries.drop_last()) + (match entries.last() {
            EntryView::Dir(sub) => files_below(sub),
            _ => 0nat,
        })
    }
}

/// The number of files in `dir`, at every depth. What lies behind a
/// symbolic link is no part of the directory.
pub open spec fn files_below(dir: DirView) -> nat
    decreases dir,
{
    match dir.listing {
        ListingView::Entries(entries) => direct_files(entries) + nested_files(entries),
        _ => 0,
    }
}

/// Processing a file deletes one file at most.
pub proof fn lemma_file_step_deletes_one_at_most(
    summary: SummaryView,
    file: FileNode,
    location: Seq<char>,
    options: OptionsView,
)
    ensures
        file_step(summary, file, location, options).0.deleted_files <= summary.deleted_files
            + 1,
{
}

/// The first pass deletes no more files than there are in the directory,
/// and no more than the run may.
pub proof fn lemma_scan_deletes_little(
    summary: SummaryView,
    entries: Seq<EntryView>,
    dir_path: Seq<char>,
    location: Seq<char>,
    options: OptionsView,
)
    ensures
        scan(summary, entries, dir_path, location, options).summary.deleted_files
            <= summary.deleted_files + direct_files(entries),
        within_budget(summary, options) ==> within_budget(
            scan(summary, entries, dir_path, location, options).summary,
            options,
        ),
    decreases entries.len(),
{
    if entries.len() > 0 {
        lemma_scan_deletes_little(summary, entries.drop_last(), dir_path, location, options);
        let before = scan(summary, entries.drop_last(), dir_path, location, options);
        match entries.last() {
            EntryView::File(file) => {
                lemma_file_step_deletes_one_at_most(before.summary, file, location, options);
            },
            _ => {},
        }
    }
}

/// The pass that removes empty directories deletes no file.
pub proof fn lemma_sweep_deletes_no_file(summary: SummaryView, dir: DirView, options: OptionsView)
    ensures
        sweep(summary, dir, options).0.deleted_files == summary.deleted_files,
        sweep(summary, dir, options).0.total_size == summary.total_size,
        sweep(summary, dir, options).0.skipped_files == summary.skipped_files,
    decreases dir,
{
    match dir.listing {
        ListingView::Entries(entries) => {
            lemma_sweep_entries_delete_no_file(summary, entries, options);
        },
        _ => {},
    }
}

/// The pass that removes empty directories deletes no file, entry by entry.
pub proof fn lemma_sweep_entries_delete_no_file(
    summary: SummaryView,
    entries: Seq<EntryView>,
    options: OptionsView,
)
    ensures
        sweep_entries(summary, entries, options).0.deleted_files == summary.deleted_files,
        sweep_entries(summary, entries, options).0.total_size == summary.total_size,
        sweep_entries(summary, entries, options).0.skipped_files == summary.skipped_files,
    decreases entries,
{
    if entries.len() > 0 {
        lemma_sweep_entries_delete_no_file(summary, entries.drop_last(), options);
        let (before, done) = sweep_entries(summary, entries.drop_last(), options);
        match entries.last() {
            EntryView::Dir(sub) => {
                if !sub.removed {
                    lemma_sweep_deletes_no_file(before, sub, options);
                    let (swept, below) = sweep(before, sub, options);
                    assert(settle_dir(swept, below, options).0.deleted_files
                        == swept.deleted_files);
                }
            },
            _ => {},
        }
        assert(sweep_entry(before, entries.last(), options).0.deleted_files
            == before.deleted_files);
        assert(sweep_entry(before, entries.last(), options).0.total_size == before.total_size);
        assert(sweep_entry(before, entries.last(), options).0.skipped_files
            == before.skipped_files);
    }
}

/// Cleaning a directory never deletes more files than the run may, and it
/// deletes each file once at most: the deleted files grow by no more than
/// the number of files in the directory. A symbolic link adds nothing to
/// that number, whatever it points to.
pub proof fn lemma_clean_deletes_little(
    summary: SummaryView,
    dir: DirView,
    location: Seq<char>,
    options: OptionsView,
)
    ensures
        clean_dir(summary, dir, location, options).summary.deleted_files
            <= summary.deleted_files + files_below(dir),
        within_budget(summary, options) ==> within_budget(
            clean_dir(summary, dir, location, options).summary,
            options,
        ),
    decreases dir,
{
    match dir.listing {
        ListingView::Entries(entries) => {
            lemma_scan_deletes_little(summary, entries, dir.path@, location, options);
            let scanned = scan(summary, entries, dir.path@, location, options);
            lemma_descend_deletes_little(
                scanned.summary,
                entries,
                scanned.entries,
                scanned.reached,
                location,
                options,
            );
            let (cleaned, left) = descend(
                scanned.summary,
                entries,
                scanned.entries,
                scanned.reached,
                location,
                options,
            );
            let below = DirView { listing: ListingView::Entries(left), ..dir };
            lemma_sweep_deletes_no_file(cleaned, below, options);
        },
        _ => {},
    }
}

/// The second pass never deletes more files than the run may, nor more than
/// there are in the subdirectories.
pub proof fn lemma_descend_deletes_little(
    summary: SummaryView,
    found: Seq<EntryView>,
    scanned: Seq<EntryView>,
    reached: int,
    location: Seq<char>,
    options: OptionsView,
)
    ensures
        descend(summary, found, scanned, reached, location, options).0.deleted_files
            <= summary.deleted_files + nested_files(found),
        within_budget(summary, options) ==> within_budget(
            descend(summary, found, scanned, reached, location, options).0,
            options,
        ),
    decreases found,
{
    if found.len() > 0 {
        lemma_descend_deletes_little(
            summary,
            found.drop_last(),
            scanned.drop_last(),
            reached,
            location,
            options,
        );
        let (before, done) = descend(
            summary,
            found.drop_last(),
            scanned.drop_last(),
            reached,
            location,
            options,
        );
        match found.last() {
            EntryView::Dir(sub) => {
                lemma_clean_deletes_little(before, sub, location, options);
            },
            _ => {},
        }
    }
}

} // verus!
