//! What a thorough run takes away: directories in which nothing has to stay
//! are gone afterwards.

use vstd::prelude::*;
use crate::cleaning::engine::{
    budget_spent, clean_dir, descend, eligible, scan, settle_dir, sweep, sweep_entries,
    sweep_entry,
};
use crate::cleaning::remains::{lemma_clean_within, within};
use crate::cleaning::host::{is_absent, is_empty_dir, DirView, EntryView, ListingView};
use crate::cleaning::options::OptionsView;
use crate::cleaning::summary::SummaryView;

verus! {

/// A thorough run: recursive, removing empty directories, deleting for
/// real, and without a limit on the number of files.
pub open spec fn thorough(options: OptionsView) -> bool {
    options.recursive && options.remove_empty_dirs && !options.dry_run && options.max_files == 0
}

/// Nothing of the entry has to stay: it is absent already, or it is a file
/// that is eligible and can be deleted, or a directory that can be read and
/// removed and in which nothing has to stay.
pub open spec fn clears(entry: EntryView, location: Seq<char>, options: OptionsView) -> bool
    decreases entry,
{
    match entry {
        EntryView::File(file) => file.removed || (eligible(file, location, options)
            && file.removal is None),
        EntryView::Dir(dir) => dir.removed || (dir.removal is None && clears_all(
            dir,
            location,
            options,
        )),
        _ => false,
    }
}

/// The directory can be read, and nothing in it has to stay.
pub open spec fn clears_all(dir: DirView, location: Seq<char>, options: OptionsView) -> bool
    decreases dir,
{
    dir.listing matches ListingView::Entries(entries) && forall|i: int|
        0 <= i < entries.len() ==> clears(#[trigger] entries[i], location, options)
}

/// The entry is absent, or it is an empty directory that can be removed.
pub open spec fn ready(entry: EntryView) -> bool {
    is_absent(entry) || (entry matches EntryView::Dir(dir) && is_empty_dir(dir) && dir.removal
        is None)
}

/// Cleaning a directory leaves its path untouched, and it neither removes
/// the directory itself nor changes whether it can be removed.
pub proof fn lemma_clean_keeps_frame(
    summary: SummaryView,
    dir: DirView,
    location: Seq<char>,
    options: OptionsView,
)
    ensures
        clean_dir(summary, dir, location, options).dir.path == dir.path,
        clean_dir(summary, dir, location, options).dir.removed == dir.removed,
        clean_dir(summary, dir, location, options).dir.removal == dir.removal,
{
}

/// In a thorough run the first pass never stops, deletes every file of
/// which nothing has to stay, and leaves directories as they are.
pub proof fn lemma_scan_clears(
    summary: SummaryView,
    entries: Seq<EntryView>,
    dir_path: Seq<char>,
    location: Seq<char>,
    options: OptionsView,
)
    requires
        thorough(options),
    ensures
        !scan(summary, entries, dir_path, location, options).stopped,
        scan(summary, entries, dir_path, location, options).reached == entries.len(),
        scan(summary, entries, dir_path, location, options).entries.len() == entries.len(),
        forall|i: int|
            0 <= i < entries.len() && entries[i] is File && clears(entries[i], location, options)
                ==> is_absent(
                #[trigger] scan(summary, entries, dir_path, location, options).entries[i],
            ),
        forall|i: int|
            0 <= i < entries.len() && entries[i] is Dir ==> (#[trigger] scan(
                summary,
                entries,
                dir_path,
                location,
                options,
            ).entries[i]) == entries[i],
    decreases entries.len(),
{
    let result = scan(summary, entries, dir_path, location, options);
    if entries.len() > 0 {
        let rest = entries.drop_last();
        lemma_scan_clears(summary, rest, dir_path, location, options);
        let before = scan(summary, rest, dir_path, location, options);
        assert(!budget_spent(before.summary, options));
        assert forall|i: int|
            0 <= i < entries.len() && entries[i] is File && clears(
                entries[i],
                location,
                options,
            ) implies is_absent(#[trigger] result.entries[i]) by {
            if i < entries.len() - 1 {
                assert(result.entries[i] == before.entries[i]);
                assert(entries[i] == rest[i]);
            }
        }
        assert forall|i: int| 0 <= i < entries.len() && entries[i] is Dir implies (
        #[trigger] result.entries[i]) == entries[i] by {
            if i < entries.len() - 1 {
                assert(result.entries[i] == before.entries[i]);
                assert(entries[i] == rest[i]);
            }
        }
    }
}

/// The pass that removes empty directories does nothing where every entry is
/// absent.
pub proof fn lemma_sweep_entries_blank(
    summary: SummaryView,
    entries: Seq<EntryView>,
    options: OptionsView,
)
    requires
        forall|i: int| 0 <= i < entries.len() ==> is_absent(#[trigger] entries[i]),
    ensures
        sweep_entries(summary, entries, options) == (summary, entries),
    decreases entries.len(),
{
    if entries.len() == 0 {
        assert(sweep_entries(summary, entries, options).1 =~= entries);
    } else {
        let rest = entries.drop_last();
        assert forall|i: int| 0 <= i < rest.len() implies is_absent(#[trigger] rest[i]) by {
            assert(rest[i] == entries[i]);
        }
        lemma_sweep_entries_blank(summary, rest, options);
        assert(is_absent(entries[entries.len() - 1]));
        assert(sweep_entry(summary, entries.last(), options) == (summary, entries.last()));
        assert(rest.push(entries.last()) =~= entries);
    }
}

/// The pass that removes empty directories does nothing in an empty directory.
pub proof fn lemma_sweep_blank(summary: SummaryView, dir: DirView, options: OptionsView)
    requires
        is_empty_dir(dir),
    ensures
        sweep(summary, dir, options) == (summary, dir),
{
    lemma_sweep_entries_blank(summary, dir.listing->Entries_0, options);
}

/// In a thorough run the pass that removes empty directories removes every
/// empty directory that can be removed, and brings back nothing.
pub proof fn lemma_sweep_entries_settles(
    summary: SummaryView,
    entries: Seq<EntryView>,
    options: OptionsView,
)
    requires
        thorough(options),
    ensures
        sweep_entries(summary, entries, options).1.len() == entries.len(),
        forall|i: int|
            0 <= i < entries.len() && ready(entries[i]) ==> is_absent(
                #[trigger] sweep_entries(summary, entries, options).1[i],
            ),
    decreases entries.len(),
{
    let result = sweep_entries(summary, entries, options).1;
    if entries.len() > 0 {
        let rest = entries.drop_last();
        lemma_sweep_entries_settles(summary, rest, options);
        let (before, done) = sweep_entries(summary, rest, options);
        assert forall|i: int| 0 <= i < entries.len() && ready(entries[i]) implies is_absent(
            #[trigger] result[i],
        ) by {
            if i < entries.len() - 1 {
                assert(result[i] == done[i]);
                assert(entries[i] == rest[i]);
                assert(is_absent(sweep_entries(summary, rest, options).1[i]));
            } else {
                assert(result[i] == sweep_entry(before, entries.last(), options).1);
                match entries.last() {
                    EntryView::Dir(sub) => {
                        if !sub.removed {
                            lemma_sweep_blank(before, sub, options);
                        }
                    },
                    _ => {},
                }
            }
        }
    }
}

/// In a thorough run, cleaning a directory in which nothing has to stay
/// leaves it empty.
pub proof fn lemma_clean_empties(
    summary: SummaryView,
    dir: DirView,
    location: Seq<char>,
    options: OptionsView,
)
    requires
        thorough(options),
        !dir.removed,
        clears_all(dir, location, options),
    ensures
        is_empty_dir(clean_dir(summary, dir, location, options).dir),
    decreases dir,
{
    let entries = dir.listing->Entries_0;
    lemma_scan_clears(summary, entries, dir.path@, location, options);
    let scanned = scan(summary, entries, dir.path@, location, options);
    lemma_descend_readies(
        scanned.summary,
        entries,
        scanned.entries,
        scanned.reached,
        location,
        options,
    );
    let (cleaned, left) = descend(
        scanned.summary,
        entries,
        scanned.entries,
        scanned.reached,
        location,
        options,
    );
    lemma_sweep_entries_settles(cleaned, left, options);
    let after = sweep_entries(cleaned, left, options).1;
    assert forall|i: int| 0 <= i < after.len() implies is_absent(#[trigger] after[i]) by {
        assert(clears(entries[i], location, options));
        assert(ready(left[i]));
    }
}

/// In a thorough run the second pass leaves every entry of which nothing has
/// to stay absent, or as an empty directory that can be removed.
pub proof fn lemma_descend_readies(
    summary: SummaryView,
    found: Seq<EntryView>,
    scanned: Seq<EntryView>,
    reached: int,
    location: Seq<char>,
    options: OptionsView,
)
    requires
        thorough(options),
        reached >= found.len(),
        scanned.len() == found.len(),
        forall|i: int|
            0 <= i < found.len() && found[i] is File && clears(
                found[i],
                location,
                options,
            ) ==> is_absent(#[trigger] scanned[i]),
        forall|i: int|
            0 <= i < found.len() && found[i] is Dir ==> (#[trigger] scanned[i])
                == found[i],
    ensures
        descend(summary, found, scanned, reached, location, options).1.len()
            == found.len(),
        forall|i: int|
            0 <= i < found.len() && clears(found[i], location, options) ==> ready(
                #[trigger] descend(summary, found, scanned, reached, location, options).1[i],
            ),
    decreases found,
{
    let result = descend(summary, found, scanned, reached, location, options).1;
    if found.len() > 0 {
        let rest = found.drop_last();
        let scanned_rest = scanned.drop_last();
        assert forall|i: int|
            0 <= i < rest.len() && rest[i] is File && clears(
                rest[i],
                location,
                options,
            ) implies is_absent(#[trigger] scanned_rest[i]) by {
            assert(rest[i] == found[i]);
            assert(scanned_rest[i] == scanned[i]);
        }
        assert forall|i: int| 0 <= i < rest.len() && rest[i] is Dir implies (
        #[trigger] scanned_rest[i]) == rest[i] by {
            assert(rest[i] == found[i]);
            assert(scanned_rest[i] == scanned[i]);
        }
        lemma_descend_readies(summary, rest, scanned_rest, reached, location, options);
        let (before, done) = descend(summary, rest, scanned_rest, reached, location, options);
        assert forall|i: int|
            0 <= i < found.len() && clears(found[i], location, options) implies ready(
            #[trigger] result[i],
        ) by {
            if i < found.len() - 1 {
                assert(result[i] == done[i]);
                assert(found[i] == rest[i]);
                assert(ready(descend(summary, rest, scanned_rest, reached, location, options).1[i]));
            } else {
                let last = found.last();
                assert(scanned.last() == scanned[i]);
                match last {
                    EntryView::Dir(sub) => {
                        if !sub.removed {
                            lemma_clean_empties(before, sub, location, options);
                            lemma_clean_keeps_frame(before, sub, location, options);
                        }
                    },
                    _ => {},
                }
            }
        }
    }
}

/// After a thorough run over a directory, every subdirectory in which
/// nothing had to stay is gone.
pub proof fn lemma_cleared_directories_are_removed(
    summary: SummaryView,
    dir: DirView,
    location: Seq<char>,
    options: OptionsView,
    i: int,
)
    requires
        thorough(options),
        !dir.removed,
        dir.listing matches ListingView::Entries(entries) && 0 <= i < entries.len()
            && entries[i] is Dir && clears(entries[i], location, options),
    ensures
        clean_dir(summary, dir, location, options).dir.listing matches ListingView::Entries(left)
            && left.len() == dir.listing->Entries_0.len() && left[i] is Dir
            && left[i]->Dir_0.removed,
{
    let entries = dir.listing->Entries_0;
    lemma_scan_clears(summary, entries, dir.path@, location, options);
    let scanned = scan(summary, entries, dir.path@, location, options);
    lemma_descend_readies(
        scanned.summary,
        entries,
        scanned.entries,
        scanned.reached,
        location,
        options,
    );
    let (cleaned, left) = descend(
        scanned.summary,
        entries,
        scanned.entries,
        scanned.reached,
        location,
        options,
    );
    assert(ready(left[i]));
    lemma_sweep_entries_settles(cleaned, left, options);
    lemma_clean_within(summary, dir, location, options);
    let after = clean_dir(summary, dir, location, options).dir.listing->Entries_0;
    assert(within(entries[i], after[i], location, options));
}

/// `after` shows, at `before` and at every directory below it that was
/// there, that what did not have to stay is gone: each directory in which
/// nothing had to stay is removed.
pub open spec fn cleared_below(
    before: EntryView,
    after: EntryView,
    location: Seq<char>,
    options: OptionsView,
) -> bool
    decreases before,
{
    match before {
        EntryView::Dir(dir) => {
            &&& after is Dir
            &&& clears(before, location, options) ==> after->Dir_0.removed
            &&& !dir.removed ==> cleared_in(dir, after->Dir_0, location, options)
        },
        _ => true,
    }
}

/// `after` shows, at every directory below `before`, that what did not have
/// to stay is gone.
pub open spec fn cleared_in(
    before: DirView,
    after: DirView,
    location: Seq<char>,
    options: OptionsView,
) -> bool
    decreases before,
{
    before.listing matches ListingView::Entries(entries) ==> {
        &&& after.listing is Entries
        &&& after.listing->Entries_0.len() == entries.len()
        &&& forall|i: int|
            0 <= i < entries.len() ==> cleared_below(
                entries[i],
                #[trigger] after.listing->Entries_0[i],
                location,
                options,
            )
    }
}

/// As `cleared_below`, but for an entry that the pass for empty directories
/// has yet to visit: a directory in which nothing had to stay is empty and
/// can be removed, if it is not removed already.
pub open spec fn prepared(
    before: EntryView,
    after: EntryView,
    location: Seq<char>,
    options: OptionsView,
) -> bool {
    match before {
        EntryView::Dir(dir) => {
            &&& after is Dir
            &&& clears(before, location, options) ==> ready(after)
            &&& !dir.removed ==> cleared_in(dir, after->Dir_0, location, options)
        },
        _ => true,
    }
}

/// The pass for empty directories keeps, below a directory, what was
/// removed before.
pub proof fn lemma_sweep_keeps_cleared(
    origin: DirView,
    summary: SummaryView,
    dir: DirView,
    location: Seq<char>,
    options: OptionsView,
)
    requires
        cleared_in(origin, dir, location, options),
    ensures
        cleared_in(origin, sweep(summary, dir, options).1, location, options),
    decreases dir,
{
    match origin.listing {
        ListingView::Entries(origins) => {
            let entries = dir.listing->Entries_0;
            lemma_sweep_entries_keep_cleared(origins, summary, entries, location, options);
        },
        _ => {},
    }
}

/// The pass for empty directories keeps, entry by entry, what was removed
/// before.
pub proof fn lemma_sweep_entries_keep_cleared(
    origins: Seq<EntryView>,
    summary: SummaryView,
    entries: Seq<EntryView>,
    location: Seq<char>,
    options: OptionsView,
)
    requires
        origins.len() == entries.len(),
        forall|i: int|
            0 <= i < origins.len() ==> cleared_below(
                origins[i],
                #[trigger] entries[i],
                location,
                options,
            ),
    ensures
        sweep_entries(summary, entries, options).1.len() == entries.len(),
        forall|i: int|
            0 <= i < origins.len() ==> cleared_below(
                origins[i],
                #[trigger] sweep_entries(summary, entries, options).1[i],
                location,
                options,
            ),
    decreases entries,
{
    let result = sweep_entries(summary, entries, options).1;
    if entries.len() > 0 {
        let rest = entries.drop_last();
        let origin_rest = origins.drop_last();
        assert forall|i: int| 0 <= i < origin_rest.len() implies cleared_below(
            origin_rest[i],
            #[trigger] rest[i],
            location,
            options,
        ) by {
            assert(cleared_below(origins[i], entries[i], location, options));
        }
        lemma_sweep_entries_keep_cleared(origin_rest, summary, rest, location, options);
        let (before, done) = sweep_entries(summary, rest, options);
        assert(cleared_below(origins.last(), entries[entries.len() - 1], location, options));
        lemma_sweep_entry_keeps_cleared(origins.last(), before, entries.last(), location, options);
        assert forall|i: int| 0 <= i < origins.len() implies cleared_below(
            origins[i],
            #[trigger] result[i],
            location,
            options,
        ) by {
            if i < origins.len() - 1 {
                assert(result[i] == done[i]);
                assert(origins[i] == origin_rest[i]);
                assert(cleared_below(
                    origin_rest[i],
                    sweep_entries(summary, rest, options).1[i],
                    location,
                    options,
                ));
            }
        }
    }
}

/// The pass for empty directories keeps, at one entry, what was removed
/// before.
pub proof fn lemma_sweep_entry_keeps_cleared(
    origin: EntryView,
    summary: SummaryView,
    entry: EntryView,
    location: Seq<char>,
    options: OptionsView,
)
    requires
        cleared_below(origin, entry, location, options),
    ensures
        cleared_below(origin, sweep_entry(summary, entry, options).1, location, options),
    decreases entry,
{
    match origin {
        EntryView::Dir(from) => {
            let sub = entry->Dir_0;
            if !sub.removed {
                if !from.removed {
                    lemma_sweep_keeps_cleared(from, summary, sub, location, options);
                }
                let (swept, below) = sweep(summary, sub, options);
                let (settled, left) = settle_dir(swept, below, options);
                assert(left.listing == below.listing);
            }
        },
        _ => {},
    }
}

/// In a thorough run the pass for empty directories removes, at one entry,
/// the directory in which nothing had to stay.
pub proof fn lemma_sweep_entry_clears(
    origin: EntryView,
    summary: SummaryView,
    entry: EntryView,
    location: Seq<char>,
    options: OptionsView,
)
    requires
        thorough(options),
        prepared(origin, entry, location, options),
    ensures
        cleared_below(origin, sweep_entry(summary, entry, options).1, location, options),
{
    match origin {
        EntryView::Dir(from) => {
            let sub = entry->Dir_0;
            if !sub.removed {
                if !from.removed {
                    lemma_sweep_keeps_cleared(from, summary, sub, location, options);
                }
                if clears(origin, location, options) {
                    lemma_sweep_blank(summary, sub, options);
                }
                let (swept, below) = sweep(summary, sub, options);
                let (settled, left) = settle_dir(swept, below, options);
                assert(left.listing == below.listing);
            }
        },
        _ => {},
    }
}

/// In a thorough run the pass for empty directories removes, entry by entry,
/// the directories in which nothing had to stay.
pub proof fn lemma_sweep_entries_clear(
    origins: Seq<EntryView>,
    summary: SummaryView,
    entries: Seq<EntryView>,
    location: Seq<char>,
    options: OptionsView,
)
    requires
        thorough(options),
        origins.len() == entries.len(),
        forall|i: int|
            0 <= i < origins.len() ==> prepared(origins[i], #[trigger] entries[i], location, options),
    ensures
        sweep_entries(summary, entries, options).1.len() == entries.len(),
        forall|i: int|
            0 <= i < origins.len() ==> cleared_below(
                origins[i],
                #[trigger] sweep_entries(summary, entries, options).1[i],
                location,
                options,
            ),
    decreases entries.len(),
{
    let result = sweep_entries(summary, entries, options).1;
    if entries.len() > 0 {
        let rest = entries.drop_last();
        let origin_rest = origins.drop_last();
        assert forall|i: int| 0 <= i < origin_rest.len() implies prepared(
            origin_rest[i],
            #[trigger] rest[i],
            location,
            options,
        ) by {
            assert(prepared(origins[i], entries[i], location, options));
        }
        lemma_sweep_entries_clear(origin_rest, summary, rest, location, options);
        let (before, done) = sweep_entries(summary, rest, options);
        assert(prepared(origins.last(), entries[entries.len() - 1], location, options));
        lemma_sweep_entry_clears(origins.last(), before, entries.last(), location, options);
        assert forall|i: int| 0 <= i < origins.len() implies cleared_below(
            origins[i],
            #[trigger] result[i],
            location,
            options,
        ) by {
            if i < origins.len() - 1 {
                assert(result[i] == done[i]);
                assert(origins[i] == origin_rest[i]);
                assert(cleared_below(
                    origin_rest[i],
                    sweep_entries(summary, rest, options).1[i],
                    location,
                    options,
                ));
            }
        }
    }
}

/// After a thorough run over a directory, every directory below it in which
/// nothing had to stay is gone, at whatever depth it lay.
pub proof fn lemma_thorough_run_clears_every_directory(
    summary: SummaryView,
    dir: DirView,
    location: Seq<char>,
    options: OptionsView,
)
    requires
        thorough(options),
        !dir.removed,
    ensures
        cleared_in(dir, clean_dir(summary, dir, location, options).dir, location, options),
    decreases dir,
{
    match dir.listing {
        ListingView::Entries(entries) => {
            lemma_scan_clears(summary, entries, dir.path@, location, options);
            let scanned = scan(summary, entries, dir.path@, location, options);
            lemma_descend_prepares(
                scanned.summary,
                entries,
                scanned.entries,
                scanned.reached,
                location,
                options,
            );
            let (cleaned, left) = descend(
                scanned.summary,
                entries,
                scanned.entries,
                scanned.reached,
                location,
                options,
            );
            lemma_sweep_entries_clear(entries, cleaned, left, location, options);
        },
        _ => {},
    }
}

/// In a thorough run the second pass leaves every directory ready for the
/// pass for empty directories.
pub proof fn lemma_descend_prepares(
    summary: SummaryView,
    found: Seq<EntryView>,
    scanned: Seq<EntryView>,
    reached: int,
    location: Seq<char>,
    options: OptionsView,
)
    requires
        thorough(options),
        reached >= found.len(),
        scanned.len() == found.len(),
        forall|i: int|
            0 <= i < found.len() && found[i] is Dir ==> (#[trigger] scanned[i])
                == found[i],
    ensures
        descend(summary, found, scanned, reached, location, options).1.len()
            == found.len(),
        forall|i: int|
            0 <= i < found.len() ==> prepared(
                found[i],
                #[trigger] descend(summary, found, scanned, reached, location, options).1[i],
                location,
                options,
            ),
    decreases found,
{
    let result = descend(summary, found, scanned, reached, location, options).1;
    if found.len() > 0 {
        let rest = found.drop_last();
        let scanned_rest = scanned.drop_last();
        assert forall|i: int| 0 <= i < rest.len() && rest[i] is Dir implies (
        #[trigger] scanned_rest[i]) == rest[i] by {
            assert(rest[i] == found[i]);
            assert(scanned_rest[i] == scanned[i]);
        }
        lemma_descend_prepares(summary, rest, scanned_rest, reached, location, options);
        let (before, done) = descend(summary, rest, scanned_rest, reached, location, options);
        assert forall|i: int| 0 <= i < found.len() implies prepared(
            found[i],
            #[trigger] result[i],
            location,
            options,
        ) by {
            if i < found.len() - 1 {
                assert(result[i] == done[i]);
                assert(found[i] == rest[i]);
                assert(prepared(
                    rest[i],
                    descend(summary, rest, scanned_rest, reached, location, options).1[i],
                    location,
                    options,
                ));
            } else {
                assert(scanned.last() == scanned[i]);
                match found.last() {
                    EntryView::Dir(sub) => {
                        if !sub.removed {
                            lemma_thorough_run_clears_every_directory(
                                before,
                                sub,
                                location,
                                options,
                            );
                            lemma_clean_keeps_frame(before, sub, location, options);
                            if clears(found.last(), location, options) {
                                lemma_clean_empties(before, sub, location, options);
                            }
                        }
                    },
                    _ => {},
                }
            }
        }
    }
}

} // verus!
