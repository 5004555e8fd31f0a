//! The record of a run: what was deleted, what was kept, what failed.

use vstd::prelude::*;
use crate::cleaning::error::{CleaningError, CleaningErrorView};
use crate::cleaning::format::{format_bytes, formatted_bytes};
use crate::text::same_text;

verus! {

/// What a run did at one location.
#[derive(Debug, Clone)]
pub struct LocationSummary {
    pub location_name: String,
    pub deleted_files: usize,
    pub total_size: u64,
    pub errors: usize,
    pub skipped_files: usize,
}

/// A `LocationSummary` as plain values.
pub struct LocationView {
    pub location_name: Seq<char>,
    pub deleted_files: usize,
    pub total_size: u64,
    pub errors: usize,
    pub skipped_files: usize,
}

impl View for LocationSummary {
    type V = LocationView;

    open spec fn view(&self) -> LocationView {
        LocationView {
            location_name: self.location_name@,
            deleted_files: self.deleted_files,
            total_size: self.total_size,
            errors: self.errors,
            skipped_files: self.skipped_files,
        }
    }
}

/// What a run did as a whole.
///
/// The counters at the top are what counts; the entries per location are
/// there to inform. `cleaned_locations` holds at most one entry per name as
/// long as entries are added through `add_location_data` only.
#[derive(Debug, Clone)]
pub struct CleaningSummary {
    pub deleted_files: usize,
    pub total_size: u64,
    pub errors: Vec<CleaningError>,
    pub skipped_files: usize,
    pub cleaned_locations: Vec<LocationSummary>,
    /// How long the run took, in milliseconds.
    pub processing_time_ms: u64,
    pub empty_dirs_removed: usize,
}

/// A `CleaningSummary` as plain values, with its locations as a map from
/// each name to the entry under that name.
pub struct SummaryView {
    pub deleted_files: usize,
    pub total_size: u64,
    pub errors: Seq<CleaningErrorView>,
    pub skipped_files: usize,
    pub locations: Map<Seq<char>, LocationView>,
    pub processing_time_ms: u64,
    pub empty_dirs_removed: usize,
}

/// The views of a list of errors, in order.
pub open spec fn error_views(errors: Seq<CleaningError>) -> Seq<CleaningErrorView> {
    errors.map_values(|e: CleaningError| e@)
}

/// The entries of a list by name; of two entries with one name the first counts.
pub open spec fn locations_by_name(entries: Seq<LocationSummary>) -> Map<Seq<char>, LocationView>
    decreases entries.len(),
{
    if entries.len() == 0 {
        Map::empty()
    } else {
        locations_by_name(entries.skip(1)).insert(entries[0].location_name@, entries[0]@)
    }
}

/// No two entries have the same name.
pub open spec fn names_distinct(entries: Seq<LocationSummary>) -> bool {
    forall|i: int, j: int|
        0 <= i < j < entries.len() ==> entries[i].location_name@ != entries[j].location_name@
}

/// The position of the first entry named `name`, or the length of the list.
pub open spec fn position_of(entries: Seq<LocationSummary>, name: Seq<char>) -> int
    decreases entries.len(),
{
    if entries.len() == 0 || entries[0].location_name@ == name {
        0
    } else {
        1 + position_of(entries.skip(1), name)
    }
}

/// `position_of` gives the first entry of the name, if there is one.
pub proof fn lemma_position_of(entries: Seq<LocationSummary>, name: Seq<char>)
    ensures
        0 <= position_of(entries, name) <= entries.len(),
        position_of(entries, name) < entries.len() ==> entries[position_of(
            entries,
            name,
        )].location_name@ == name,
        forall|i: int|
            0 <= i < position_of(entries, name) ==> entries[i].location_name@ != name,
    decreases entries.len(),
{
    if entries.len() == 0 || entries[0].location_name@ == name {
    } else {
        let rest = entries.skip(1);
        lemma_position_of(rest, name);
        assert forall|i: int| 0 <= i < position_of(entries, name) implies entries[i].location_name@
            != name by {
            if i > 0 {
                assert(rest[i - 1] == entries[i]);
            }
        }
        if position_of(entries, name) < entries.len() {
            assert(rest[position_of(rest, name)] == entries[position_of(entries, name)]);
        }
    }
}

/// The map of a list holds, under each name in the list, the first entry of
/// that name, and nothing else.
pub proof fn lemma_locations_by_name(entries: Seq<LocationSummary>, name: Seq<char>)
    ensures
        locations_by_name(entries).contains_key(name) <==> position_of(entries, name)
            < entries.len(),
        position_of(entries, name) < entries.len() ==> locations_by_name(entries)[name]
            == entries[position_of(entries, name)]@,
    decreases entries.len(),
{
    lemma_position_of(entries, name);
    if entries.len() == 0 {
    } else if entries[0].location_name@ == name {
    } else {
        let rest = entries.skip(1);
        lemma_locations_by_name(rest, name);
        lemma_position_of(rest, name);
        if position_of(rest, name) < rest.len() {
            assert(rest[position_of(rest, name)] == entries[position_of(entries, name)]);
        }
    }
}

impl View for CleaningSummary {
    type V = SummaryView;

    open spec fn view(&self) -> SummaryView {
        SummaryView {
            deleted_files: self.deleted_files,
            total_size: self.total_size,
            errors: error_views(self.errors@),
            skipped_files: self.skipped_files,
            locations: locations_by_name(self.cleaned_locations@),
            processing_time_ms: self.processing_time_ms,
            empty_dirs_removed: self.empty_dirs_removed,
        }
    }
}

/// The summary of a run that has done nothing yet.
pub open spec fn empty_summary() -> SummaryView {
    SummaryView {
        deleted_files: 0,
        total_size: 0,
        errors: Seq::empty(),
        skipped_files: 0,
        locations: Map::empty(),
        processing_time_ms: 0,
        empty_dirs_removed: 0,
    }
}

/// `n + 1`, or `n` where that is the largest number there is.
pub open spec fn one_more(n: usize) -> usize {
    if n < usize::MAX {
        (n + 1) as usize
    } else {
        n
    }
}

/// `total + size`, or the largest number there is where the sum is beyond it.
pub open spec fn bytes_added(total: u64, size: u64) -> u64 {
    if total + size > u64::MAX {
        u64::MAX
    } else {
        (total + size) as u64
    }
}

/// `after` is `before` with counters that are no smaller and with errors
/// added at the end, if any; the locations and the time are the same.
pub open spec fn grown(before: SummaryView, after: SummaryView) -> bool {
    &&& after.deleted_files >= before.deleted_files
    &&& after.total_size >= before.total_size
    &&& after.skipped_files >= before.skipped_files
    &&& after.empty_dirs_removed >= before.empty_dirs_removed
    &&& after.errors.len() >= before.errors.len()
    &&& forall|i: int| 0 <= i < before.errors.len() ==> after.errors[i] == before.errors[i]
    &&& after.locations == before.locations
    &&& after.processing_time_ms == before.processing_time_ms
}

/// `summary` after one more file was kept.
pub open spec fn with_skipped(summary: SummaryView) -> SummaryView {
    SummaryView { skipped_files: one_more(summary.skipped_files), ..summary }
}

/// `summary` after one more file of `size` bytes was deleted.
pub open spec fn with_deleted(summary: SummaryView, size: u64) -> SummaryView {
    SummaryView {
        deleted_files: one_more(summary.deleted_files),
        total_size: bytes_added(summary.total_size, size),
        ..summary
    }
}

/// `summary` after one more empty directory was removed.
pub open spec fn with_empty_dir(summary: SummaryView) -> SummaryView {
    SummaryView { empty_dirs_removed: one_more(summary.empty_dirs_removed), ..summary }
}

/// `summary` with `error` as its last error.
pub open spec fn with_error(summary: SummaryView, error: CleaningErrorView) -> SummaryView {
    SummaryView { errors: summary.errors.push(error), ..summary }
}

/// The share of deleted files among the files that the run dealt with, in
/// whole percent, rounded down; 100 where it dealt with none. A file counts
/// as dealt with if it was deleted or kept, and every error counts as one.
pub open spec fn success_percent(summary: SummaryView) -> nat {
    let all = summary.deleted_files + summary.skipped_files + summary.errors.len();
    if all == 0 {
        100
    } else {
        ((summary.deleted_files * 100) / all) as nat
    }
}

impl CleaningSummary {
    /// A summary with every counter at zero, no error and no location.
    pub fn new() -> (summary: Self)
        ensures
            summary@ == empty_summary(),
            summary.cleaned_locations@.len() == 0,
    {
        let summary = CleaningSummary {
            deleted_files: 0,
            total_size: 0,
            errors: Vec::new(),
            skipped_files: 0,
            cleaned_locations: Vec::new(),
            processing_time_ms: 0,
            empty_dirs_removed: 0,
        };
        assert(error_views(summary.errors@) =~= Seq::empty());
        summary
    }

    /// Records what was done at a location. An entry that stands under the
    /// same name is replaced; the counters at the top stay as they are.
    pub fn add_location_data(
        &mut self,
        location_name: &str,
        files: usize,
        size: u64,
        errors: usize,
        skipped: usize,
    )
        ensures
            final(self)@ == (SummaryView {
                locations: old(self)@.locations.insert(
                    location_name@,
                    LocationView {
                        location_name: location_name@,
                        deleted_files: files,
                        total_size: size,
                        errors: errors,
                        skipped_files: skipped,
                    },
                ),
                ..old(self)@
            }),
            names_distinct(old(self).cleaned_locations@) ==> names_distinct(
                final(self).cleaned_locations@,
            ),
    {
        let entry = LocationSummary {
            location_name: location_name.to_string(),
            deleted_files: files,
            total_size: size,
            errors,
            skipped_files: skipped,
        };
        let ghost before = self.cleaned_locations@;
        let ghost name = location_name@;
        let mut i: usize = 0;
        let mut found = false;
        while i < self.cleaned_locations.len() && !found
            invariant
                i <= self.cleaned_locations.len(),
                self.cleaned_locations@ == before,
                name == location_name@,
                found ==> i < before.len() && before[i as int].location_name@ == name,
                forall|k: int| 0 <= k < i ==> (#[trigger] before[k]).location_name@ != name,
            decreases self.cleaned_locations.len() - i + (if found { 0int } else { 1int }),
        {
            if same_text(self.cleaned_locations[i].location_name.as_str(), location_name) {
                found = true;
            } else {
                i += 1;
            }
        }
        assert(i < before.len() ==> before[i as int].location_name@ == name);
        if i < self.cleaned_locations.len() {
            self.cleaned_locations[i] = entry;
        } else {
            self.cleaned_locations.push(entry);
        }
        proof {
            let after = self.cleaned_locations@;
            assert(after.len() > i && after[i as int] == entry);
            assert forall|key: Seq<char>|
                locations_by_name(after).contains_key(key) == #[trigger] locations_by_name(
                    before,
                ).insert(name, entry@).contains_key(key) && (locations_by_name(after).contains_key(
                    key,
                ) ==> locations_by_name(after)[key] == locations_by_name(before).insert(
                    name,
                    entry@,
                )[key]) by {
                lemma_locations_by_name(after, key);
                lemma_locations_by_name(before, key);
                lemma_position_of(after, key);
                lemma_position_of(before, key);
                let pa = position_of(after, key);
                let pb = position_of(before, key);
                if key == name {
                    assert(pa == i) by {
                        if pa > i {
                            assert(after[i as int].location_name@ != name);
                        }
                        if pa < i {
                            assert(after[pa] == before[pa]);
                        }
                    }
                } else {
                    if pb < before.len() {
                        assert(after[pb] == before[pb]);
                        assert(pa == pb) by {
                            if pa < pb {
                                assert(after[pa] == before[pa]);
                            }
                        }
                    } else {
                        if pa < after.len() {
                            assert(pa != i);
                            assert(after[pa] == before[pa]);
                        }
                    }
                }
            }
            assert(locations_by_name(after) =~= locations_by_name(before).insert(name, entry@));
            if names_distinct(before) {
                assert forall|a: int, b: int| 0 <= a < b < after.len() implies after[a].location_name@
                    != after[b].location_name@ by {
                    if a != i && b != i {
                        assert(after[a] == before[a] && after[b] == before[b]);
                    } else if i < before.len() {
                        assert(before[i as int].location_name@ == name);
                        if a == i {
                            assert(after[b] == before[b]);
                        } else {
                            assert(after[a] == before[a]);
                        }
                    } else {
                        assert(after[a] == before[a]);
                    }
                }
            }
        }
    }

    /// Counts one more file as kept. The counter stops at the largest number.
    pub fn count_skipped(&mut self)
        ensures
            final(self)@ == with_skipped(old(self)@),
            final(self).cleaned_locations == old(self).cleaned_locations,
    {
        self.skipped_files = self.skipped_files.saturating_add(1);
    }

    /// Counts one more file of `size` bytes as deleted. The counters stop at
    /// the largest number.
    pub fn count_deleted(&mut self, size: u64)
        ensures
            final(self)@ == with_deleted(old(self)@, size),
            final(self).cleaned_locations == old(self).cleaned_locations,
    {
        self.deleted_files = self.deleted_files.saturating_add(1);
        self.total_size = self.total_size.saturating_add(size);
    }

    /// Counts one more empty directory as removed. The counter stops at the
    /// largest number.
    pub fn count_empty_dir(&mut self)
        ensures
            final(self)@ == with_empty_dir(old(self)@),
            final(self).cleaned_locations == old(self).cleaned_locations,
    {
        self.empty_dirs_removed = self.empty_dirs_removed.saturating_add(1);
    }

    /// The bytes that were reclaimed, in words.
    pub fn formatted_size(&self) -> (text: String)
        ensures
            text@ == formatted_bytes(self.total_size),
    {
        format_bytes(self.total_size)
    }

    /// The share of deleted files among the files that the run dealt with, in
    /// whole percent.
    pub fn success_rate_percent(&self) -> (percent: u64)
        ensures
            percent == success_percent(self@),
    {
        let all: u128 = self.deleted_files as u128 + self.skipped_files as u128
            + self.errors.len() as u128;
        if all == 0 {
            100
        } else {
            let share: u128 = (self.deleted_files as u128 * 100) / all;
            assert(share <= 100) by (nonlinear_arith)
                requires
                    share == (self.deleted_files as int * 100) / (all as int),
                    all >= self.deleted_files as int,
                    all > 0,
            ;
            share as u64
        }
    }

    /// Appends `error` to the errors of the run.
    pub fn add_error(&mut self, error: CleaningError)
        ensures
            final(self)@ == with_error(old(self)@, error@),
            final(self).cleaned_locations == old(self).cleaned_locations,
    {
        self.errors.push(error);
        assert(error_views(self.errors@) =~= error_views(old(self).errors@).push(error@));
    }
}

} // verus!
