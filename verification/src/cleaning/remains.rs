//! What a run leaves behind: nothing is removed that should stay.

use vstd::prelude::*;
use crate::cleaning::engine::{
    clean_dir, descend, eligible, scan, settle_dir, sweep, sweep_entries, sweep_entry,
};
use crate::cleaning::host::{is_absent, is_empty_dir, DirView, EntryView, ListingView};
use crate::cleaning::options::OptionsView;
use crate::cleaning::summary::SummaryView;

verus! {

/// `after` is what a run may make of the entry `before`: a file is deleted
/// only if it is eligible, a directory is removed only if nothing is left in
/// it, the same holds of all that lies below, and nothing else changes.
pub open spec fn within(
    before: EntryView,
    after: EntryView,
    location: Seq<char>,
    options: OptionsView,
) -> bool
    decreases before,
{
    match before {
        EntryView::File(file) => after matches EntryView::File(left) && (left.removed
            ==> file.removed || eligible(file, location, options)),
        EntryView::Dir(dir) => after matches EntryView::Dir(left) && within_dir(
            dir,
            left,
            location,
            options,
        ),
        _ => after == before,
    }
}

/// `after` is what a run may make of the directory `before`.
pub open spec fn within_dir(
    before: DirView,
    after: DirView,
    location: Seq<char>,
    options: OptionsView,
) -> bool
    decreases before,
{
    &&& after.removed ==> before.removed || is_empty_dir(after)
    &&& match before.listing {
        ListingView::Entries(entries) => after.listing matches ListingView::Entries(left)
            && within_all(entries, left, location, options),
        _ => after.listing == before.listing,
    }
}

/// `after` is what a run may make of the entries `before`, one by one.
pub open spec fn within_all(
    before: Seq<EntryView>,
    after: Seq<EntryView>,
    location: Seq<char>,
    options: OptionsView,
) -> bool
    decreases before,
{
    &&& after.len() == before.len()
    &&& forall|i: int|
        0 <= i < before.len() ==> within(before[i], #[trigger] after[i], location, options)
}

/// An entry may stay as it is.
pub proof fn lemma_within_itself(entry: EntryView, location: Seq<char>, options: OptionsView)
    ensures
        within(entry, entry, location, options),
    decreases entry,
{
    match entry {
        EntryView::Dir(dir) => {
            lemma_within_dir_itself(dir, location, options);
        },
        _ => {},
    }
}

/// A directory may stay as it is.
pub proof fn lemma_within_dir_itself(dir: DirView, location: Seq<char>, options: OptionsView)
    ensures
        within_dir(dir, dir, location, options),
    decreases dir,
{
    match dir.listing {
        ListingView::Entries(entries) => {
            assert forall|i: int| 0 <= i < entries.len() implies within(
                entries[i],
                #[trigger] entries[i],
                location,
                options,
            ) by {
                lemma_within_itself(entries[i], location, options);
            }
        },
        _ => {},
    }
}

/// The first pass deletes only eligible files and changes nothing else.
pub proof fn lemma_scan_within(
    summary: SummaryView,
    entries: Seq<EntryView>,
    dir_path: Seq<char>,
    location: Seq<char>,
    options: OptionsView,
)
    ensures
        within_all(
            entries,
            scan(summary, entries, dir_path, location, options).entries,
            location,
            options,
        ),
    decreases entries.len(),
{
    let result = scan(summary, entries, dir_path, location, options).entries;
    if entries.len() > 0 {
        let rest = entries.drop_last();
        lemma_scan_within(summary, rest, dir_path, location, options);
        let before = scan(summary, rest, dir_path, location, options);
        lemma_within_itself(entries.last(), location, options);
        assert(within(entries.last(), result.last(), location, options));
        assert forall|i: int| 0 <= i < entries.len() implies within(
            entries[i],
            #[trigger] result[i],
            location,
            options,
        ) by {
            if i < entries.len() - 1 {
                assert(result[i] == before.entries[i]);
                assert(entries[i] == rest[i]);
            }
        }
    }
}

/// The pass that removes empty directories removes nothing else.
pub proof fn lemma_sweep_within(
    origin: DirView,
    summary: SummaryView,
    dir: DirView,
    location: Seq<char>,
    options: OptionsView,
)
    requires
        within_dir(origin, dir, location, options),
    ensures
        within_dir(origin, sweep(summary, dir, options).1, location, options),
    decreases dir,
{
    match dir.listing {
        ListingView::Entries(entries) => {
            match origin.listing {
                ListingView::Entries(origins) => {
                    lemma_sweep_entries_within(origins, summary, entries, location, options);
                    let left = sweep_entries(summary, entries, options).1;
                    let after = sweep(summary, dir, options).1;
                    assert(after.listing == ListingView::Entries(left));
                    lemma_sweep_entries_absent(summary, entries, options);
                    assert(is_empty_dir(dir) ==> is_empty_dir(after));
                },
                _ => {},
            }
        },
        _ => {},
    }
}

/// The pass that removes empty directories brings back nothing that is absent.
pub proof fn lemma_sweep_entries_absent(
    summary: SummaryView,
    entries: Seq<EntryView>,
    options: OptionsView,
)
    ensures
        sweep_entries(summary, entries, options).1.len() == entries.len(),
        forall|i: int|
            0 <= i < entries.len() && is_absent(entries[i]) ==> is_absent(
                #[trigger] sweep_entries(summary, entries, options).1[i],
            ),
    decreases entries.len(),
{
    let result = sweep_entries(summary, entries, options).1;
    if entries.len() > 0 {
        let rest = entries.drop_last();
        lemma_sweep_entries_absent(summary, rest, options);
        let (before, done) = sweep_entries(summary, rest, options);
        assert forall|i: int| 0 <= i < entries.len() && is_absent(entries[i]) implies is_absent(
            #[trigger] result[i],
        ) by {
            if i < entries.len() - 1 {
                assert(result[i] == done[i]);
                assert(entries[i] == rest[i]);
                assert(is_absent(sweep_entries(summary, rest, options).1[i]));
            } else {
                assert(result[i] == sweep_entry(before, entries.last(), options).1);
                assert(result[i] == entries.last());
            }
        }
    }
}

/// The pass that removes empty directories removes nothing else, entry by entry.
pub proof fn lemma_sweep_entries_within(
    origins: Seq<EntryView>,
    summary: SummaryView,
    entries: Seq<EntryView>,
    location: Seq<char>,
    options: OptionsView,
)
    requires
        within_all(origins, entries, location, options),
    ensures
        within_all(origins, sweep_entries(summary, entries, options).1, location, options),
    decreases entries,
{
    let result = sweep_entries(summary, entries, options).1;
    if entries.len() > 0 {
        let rest = entries.drop_last();
        let origin_rest = origins.drop_last();
        assert forall|i: int| 0 <= i < origin_rest.len() implies within(
            origin_rest[i],
            #[trigger] rest[i],
            location,
            options,
        ) by {
            assert(within(origins[i], entries[i], location, options));
        }
        lemma_sweep_entries_within(origin_rest, summary, rest, location, options);
        let (before, done) = sweep_entries(summary, rest, options);
        assert(within(origins.last(), entries.last(), location, options));
        lemma_sweep_entry_within(origins.last(), before, entries.last(), location, options);
        assert forall|i: int| 0 <= i < origins.len() implies within(
            origins[i],
            #[trigger] result[i],
            location,
            options,
        ) by {
            if i < origins.len() - 1 {
                assert(result[i] == done[i]);
                assert(origins[i] == origin_rest[i]);
            }
        }
    }
}

/// The pass that removes empty directories removes nothing else, at one entry.
pub proof fn lemma_sweep_entry_within(
    origin: EntryView,
    summary: SummaryView,
    entry: EntryView,
    location: Seq<char>,
    options: OptionsView,
)
    requires
        within(origin, entry, location, options),
    ensures
        within(origin, sweep_entry(summary, entry, options).1, location, options),
    decreases entry,
{
    match entry {
        EntryView::Dir(sub) => {
            if !sub.removed {
                let from = origin->Dir_0;
                lemma_sweep_within(from, summary, sub, location, options);
                let (swept, below) = sweep(summary, sub, options);
                let (settled, left) = settle_dir(swept, below, options);
                assert(left.listing == below.listing);
                assert(left.removed ==> is_empty_dir(left));
            }
        },
        _ => {},
    }
}

/// Cleaning a directory deletes only eligible files and removes only
/// directories in which nothing is left, at every depth.
pub proof fn lemma_clean_within(
    summary: SummaryView,
    dir: DirView,
    location: Seq<char>,
    options: OptionsView,
)
    ensures
        within_dir(dir, clean_dir(summary, dir, location, options).dir, location, options),
    decreases dir,
{
    lemma_within_dir_itself(dir, location, options);
    match dir.listing {
        ListingView::Entries(entries) => {
            lemma_scan_within(summary, entries, dir.path@, location, options);
            let scanned = scan(summary, entries, dir.path@, location, options);
            lemma_descend_within(
                scanned.summary,
                entries,
                scanned.entries,
                scanned.reached,
                location,
                options,
            );
            let (cleaned, left) = descend(
                scanned.summary,
                entries,
                scanned.entries,
                scanned.reached,
                location,
                options,
            );
            let below = DirView { listing: ListingView::Entries(left), ..dir };
            assert(within_dir(dir, below, location, options));
            lemma_sweep_within(dir, cleaned, below, location, options);
        },
        _ => {},
    }
}

/// The second pass deletes only eligible files and removes only directories
/// in which nothing is left.
pub proof fn lemma_descend_within(
    summary: SummaryView,
    found: Seq<EntryView>,
    scanned: Seq<EntryView>,
    reached: int,
    location: Seq<char>,
    options: OptionsView,
)
    requires
        within_all(found, scanned, location, options),
    ensures
        within_all(
            found,
            descend(summary, found, scanned, reached, location, options).1,
            location,
            options,
        ),
    decreases found,
{
    let result = descend(summary, found, scanned, reached, location, options).1;
    if found.len() > 0 {
        let rest = found.drop_last();
        let scanned_rest = scanned.drop_last();
        assert forall|i: int| 0 <= i < rest.len() implies within(
            rest[i],
            #[trigger] scanned_rest[i],
            location,
            options,
        ) by {
            assert(within(found[i], scanned[i], location, options));
        }
        lemma_descend_within(summary, rest, scanned_rest, reached, location, options);
        let (before, done) = descend(summary, rest, scanned_rest, reached, location, options);
        assert(within(found.last(), scanned.last(), location, options));
        match found.last() {
            EntryView::Dir(sub) => {
                lemma_clean_within(before, sub, location, options);
            },
            _ => {},
        }
        assert(within(found.last(), result.last(), location, options));
        assert forall|i: int| 0 <= i < found.len() implies within(
            found[i],
            #[trigger] result[i],
            location,
            options,
        ) by {
            if i < found.len() - 1 {
                assert(result[i] == done[i]);
                assert(found[i] == rest[i]);
            }
        }
    }
}

/// The entry holds a file that a run does not delete: a file that is there
/// and not eligible, in the entry itself or anywhere below it in directories
/// that are there.
pub open spec fn keeps(entry: EntryView, location: Seq<char>, options: OptionsView) -> bool
    decreases entry,
{
    match entry {
        EntryView::File(file) => !file.removed && !eligible(file, location, options),
        EntryView::Dir(dir) => {
            &&& !dir.removed
            &&& dir.listing matches ListingView::Entries(entries) && exists|i: int|
                0 <= i < entries.len() && keeps(#[trigger] entries[i], location, options)
        },
        _ => false,
    }
}

/// What holds a file that a run does not delete is still there after
/// whatever a run may do.
pub proof fn lemma_keeper_stays(
    before: EntryView,
    after: EntryView,
    location: Seq<char>,
    options: OptionsView,
)
    requires
        keeps(before, location, options),
        within(before, after, location, options),
    ensures
        !is_absent(after),
    decreases before,
{
    match before {
        EntryView::Dir(dir) => {
            let entries = dir.listing->Entries_0;
            let left = after->Dir_0;
            let below = left.listing->Entries_0;
            let i = choose|i: int|
                0 <= i < entries.len() && keeps(#[trigger] entries[i], location, options);
            assert(within(entries[i], below[i], location, options));
            lemma_keeper_stays(entries[i], below[i], location, options);
            assert(!is_empty_dir(left));
        },
        _ => {},
    }
}

/// Directories that hold a protected or otherwise ineligible file remain:
/// after a directory was cleaned, with whatever options, every subdirectory
/// that held such a file, at whatever depth, is still there, and so is the
/// file.
pub proof fn lemma_directories_with_kept_files_remain(
    summary: SummaryView,
    dir: DirView,
    location: Seq<char>,
    options: OptionsView,
    i: int,
)
    requires
        dir.listing matches ListingView::Entries(entries) && 0 <= i < entries.len() && keeps(
            entries[i],
            location,
            options,
        ),
    ensures
        clean_dir(summary, dir, location, options).dir.listing matches ListingView::Entries(left)
            && left.len() == dir.listing->Entries_0.len() && !is_absent(left[i]),
{
    lemma_clean_within(summary, dir, location, options);
    let entries = dir.listing->Entries_0;
    let left = clean_dir(summary, dir, location, options).dir.listing->Entries_0;
    assert(within(entries[i], left[i], location, options));
    lemma_keeper_stays(entries[i], left[i], location, options);
}

/// Symbolic links are never touched: after a directory was cleaned, with
/// whatever options, every symbolic link in it, at whatever depth, is as it
/// was, and the directory that holds it is still there.
pub proof fn lemma_links_are_left_alone(
    summary: SummaryView,
    dir: DirView,
    location: Seq<char>,
    options: OptionsView,
    i: int,
)
    requires
        !dir.removed,
        dir.listing matches ListingView::Entries(entries) && 0 <= i < entries.len()
            && entries[i] is DirLink,
    ensures
        clean_dir(summary, dir, location, options).dir.listing matches ListingView::Entries(left)
            && left.len() == dir.listing->Entries_0.len() && left[i] == dir.listing->Entries_0[i],
        !clean_dir(summary, dir, location, options).dir.removed,
        !is_empty_dir(clean_dir(summary, dir, location, options).dir),
{
    lemma_clean_within(summary, dir, location, options);
    let entries = dir.listing->Entries_0;
    let left = clean_dir(summary, dir, location, options).dir.listing->Entries_0;
    assert(within(entries[i], left[i], location, options));
    assert(!is_absent(left[i]));
}

} // verus!
