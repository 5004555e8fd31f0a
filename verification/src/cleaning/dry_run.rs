//! What a dry run counts: what a run would count in which no deletion fails.

use vstd::prelude::*;
use crate::cleaning::browsers::{
    browser_catalog, expanded_path, firefox_profile_paths, BrowserCacheView,
};
use crate::cleaning::engine::{
    clean_dir, descend, file_step, scan, sweep, sweep_entries, sweep_entry, tree_at_work,
};
use crate::cleaning::host::{
    faultless, lemma_unhindered_of_faultless, root_index, unhindered, unhindered_all, DirView,
    EntryView, FileNode, ListingView,
};
use crate::cleaning::locations::{all_temp_locations, joined, Environment, TempLocationView};
use crate::cleaning::options::OptionsView;
use crate::cleaning::run::{
    browsers_pass, locations_pass, profiles_pass, roots_at_work, run, visit, visit_all,
    visit_below, RunState,
};
use crate::cleaning::summary::{empty_summary, SummaryView};

verus! {

/// Two sets of options that differ at most in whether the run is a dry run.
pub open spec fn alike(a: OptionsView, b: OptionsView) -> bool {
    b == (OptionsView { dry_run: b.dry_run, ..a })
}

/// What happens to a file on the tree on which a run works does not depend
/// on whether the run is a dry run.
pub proof fn lemma_file_step_in_either_mode(
    summary: SummaryView,
    file: FileNode,
    location: Seq<char>,
    a: OptionsView,
    b: OptionsView,
)
    requires
        alike(a, b),
    ensures
        file_step(summary, file, location, a) == file_step(summary, file, location, b),
{
}

/// The first pass on the tree on which a run works does not depend on
/// whether the run is a dry run.
pub proof fn lemma_scan_in_either_mode(
    summary: SummaryView,
    entries: Seq<EntryView>,
    dir_path: Seq<char>,
    location: Seq<char>,
    a: OptionsView,
    b: OptionsView,
)
    requires
        alike(a, b),
    ensures
        scan(summary, entries, dir_path, location, a) == scan(
            summary,
            entries,
            dir_path,
            location,
            b,
        ),
    decreases entries.len(),
{
    if entries.len() > 0 {
        lemma_scan_in_either_mode(summary, entries.drop_last(), dir_path, location, a, b);
        let before = scan(summary, entries.drop_last(), dir_path, location, a);
        match entries.last() {
            EntryView::File(file) => {
                lemma_file_step_in_either_mode(before.summary, file, location, a, b);
            },
            _ => {},
        }
    }
}

/// The pass for empty directories on the tree on which a run works does not
/// depend on whether the run is a dry run.
pub proof fn lemma_sweep_in_either_mode(
    summary: SummaryView,
    dir: DirView,
    a: OptionsView,
    b: OptionsView,
)
    requires
        alike(a, b),
    ensures
        sweep(summary, dir, a) == sweep(summary, dir, b),
    decreases dir,
{
    match dir.listing {
        ListingView::Entries(entries) => {
            lemma_sweep_entries_in_either_mode(summary, entries, a, b);
        },
        _ => {},
    }
}

/// The same, entry by entry.
pub proof fn lemma_sweep_entries_in_either_mode(
    summary: SummaryView,
    entries: Seq<EntryView>,
    a: OptionsView,
    b: OptionsView,
)
    requires
        alike(a, b),
    ensures
        sweep_entries(summary, entries, a) == sweep_entries(summary, entries, b),
    decreases entries,
{
    if entries.len() > 0 {
        lemma_sweep_entries_in_either_mode(summary, entries.drop_last(), a, b);
        let (before, done) = sweep_entries(summary, entries.drop_last(), a);
        match entries.last() {
            EntryView::Dir(sub) => {
                if !sub.removed {
                    lemma_sweep_in_either_mode(before, sub, a, b);
                }
            },
            _ => {},
        }
        assert(sweep_entry(before, entries.last(), a) == sweep_entry(before, entries.last(), b));
    }
}

/// Cleaning a directory on the tree on which a run works does not depend on
/// whether the run is a dry run.
pub proof fn lemma_clean_in_either_mode(
    summary: SummaryView,
    dir: DirView,
    location: Seq<char>,
    a: OptionsView,
    b: OptionsView,
)
    requires
        alike(a, b),
    ensures
        clean_dir(summary, dir, location, a) == clean_dir(summary, dir, location, b),
    decreases dir,
{
    match dir.listing {
        ListingView::Entries(entries) => {
            lemma_scan_in_either_mode(summary, entries, dir.path@, location, a, b);
            let scanned = scan(summary, entries, dir.path@, location, a);
            lemma_descend_in_either_mode(
                scanned.summary,
                entries,
                scanned.entries,
                scanned.reached,
                location,
                a,
                b,
            );
            let (cleaned, left) = descend(
                scanned.summary,
                entries,
                scanned.entries,
                scanned.reached,
                location,
                a,
            );
            let below = DirView { listing: ListingView::Entries(left), ..dir };
            lemma_sweep_in_either_mode(cleaned, below, a, b);
        },
        _ => {},
    }
}

/// The second pass on the tree on which a run works does not depend on
/// whether the run is a dry run.
pub proof fn lemma_descend_in_either_mode(
    summary: SummaryView,
    found: Seq<EntryView>,
    scanned: Seq<EntryView>,
    reached: int,
    location: Seq<char>,
    a: OptionsView,
    b: OptionsView,
)
    requires
        alike(a, b),
    ensures
        descend(summary, found, scanned, reached, location, a) == descend(
            summary,
            found,
            scanned,
            reached,
            location,
            b,
        ),
    decreases found,
{
    if found.len() > 0 {
        lemma_descend_in_either_mode(
            summary,
            found.drop_last(),
            scanned.drop_last(),
            reached,
            location,
            a,
            b,
        );
        let (before, done) = descend(
            summary,
            found.drop_last(),
            scanned.drop_last(),
            reached,
            location,
            a,
        );
        match found.last() {
            EntryView::Dir(sub) => {
                lemma_clean_in_either_mode(before, sub, location, a, b);
            },
            _ => {},
        }
    }
}

/// A dry run over a directory counts what a run counts in which no deletion
/// fails: it gives the summary, and the failure if any, of the run that
/// deletes for real in the same directory with every deletion succeeding.
pub proof fn lemma_dry_run_counts_as_unhindered_run(
    summary: SummaryView,
    dir: DirView,
    location: Seq<char>,
    dry: OptionsView,
    live: OptionsView,
)
    requires
        dry.dry_run,
        !live.dry_run,
        alike(dry, live),
    ensures
        clean_dir(summary, tree_at_work(dir, dry), location, dry) == clean_dir(
            summary,
            unhindered(dir),
            location,
            live,
        ),
{
    lemma_clean_in_either_mode(summary, unhindered(dir), location, dry, live);
}

/// Where nothing in a directory resists deletion, a dry run over it gives
/// the summary of the run that deletes for live.
pub proof fn lemma_dry_run_counts_as_real_run(
    summary: SummaryView,
    dir: DirView,
    location: Seq<char>,
    dry: OptionsView,
    live: OptionsView,
)
    requires
        dry.dry_run,
        !live.dry_run,
        alike(dry, live),
        faultless(dir),
    ensures
        clean_dir(summary, tree_at_work(dir, dry), location, dry) == clean_dir(
            summary,
            tree_at_work(dir, live),
            location,
            live,
        ),
{
    lemma_unhindered_of_faultless(dir);
    lemma_clean_in_either_mode(summary, dir, location, dry, live);
}

/// The same of the pass for empty directories alone.
pub proof fn lemma_dry_sweep_counts_as_real_sweep(
    summary: SummaryView,
    dir: DirView,
    dry: OptionsView,
    live: OptionsView,
)
    requires
        dry.dry_run,
        !live.dry_run,
        alike(dry, live),
        faultless(dir),
    ensures
        sweep(summary, tree_at_work(dir, dry), dry) == sweep(
            summary,
            tree_at_work(dir, live),
            live,
        ),
{
    lemma_unhindered_of_faultless(dir);
    lemma_sweep_in_either_mode(summary, dir, dry, live);
}

/// Cleaning what lies at a path does not depend on whether the run is a dry
/// run.
pub proof fn lemma_visit_in_either_mode(
    state: RunState,
    name: Seq<char>,
    path: Seq<char>,
    a: OptionsView,
    b: OptionsView,
)
    requires
        alike(a, b),
    ensures
        visit(state, name, path, a) == visit(state, name, path, b),
{
    let at = root_index(state.roots, path);
    if at < state.roots.len() && !state.roots[at].removed {
        lemma_clean_in_either_mode(state.summary, state.roots[at], name, a, b);
    }
}

/// Cleaning what lies at some paths does not depend on whether the run is a
/// dry run.
pub proof fn lemma_visit_all_in_either_mode(
    state: RunState,
    name: Seq<char>,
    paths: Seq<Seq<char>>,
    a: OptionsView,
    b: OptionsView,
)
    requires
        alike(a, b),
    ensures
        visit_all(state, name, paths, a) == visit_all(state, name, paths, b),
    decreases paths.len(),
{
    if paths.len() > 0 {
        lemma_visit_all_in_either_mode(state, name, paths.drop_last(), a, b);
        lemma_visit_in_either_mode(
            visit_all(state, name, paths.drop_last(), a),
            name,
            paths.last(),
            a,
            b,
        );
    }
}

/// Cleaning what lies below a directory does not depend on whether the run
/// is a dry run.
pub proof fn lemma_visit_below_in_either_mode(
    state: RunState,
    name: Seq<char>,
    base: Seq<char>,
    subdirs: Seq<Seq<char>>,
    a: OptionsView,
    b: OptionsView,
)
    requires
        alike(a, b),
    ensures
        visit_below(state, name, base, subdirs, a) == visit_below(state, name, base, subdirs, b),
    decreases subdirs.len(),
{
    if subdirs.len() > 0 {
        lemma_visit_below_in_either_mode(state, name, base, subdirs.drop_last(), a, b);
        lemma_visit_in_either_mode(
            visit_below(state, name, base, subdirs.drop_last(), a),
            name,
            joined(base, subdirs.last()),
            a,
            b,
        );
    }
}

/// The work at the fixed locations does not depend on whether the run is a
/// dry run.
pub proof fn lemma_locations_in_either_mode(
    state: RunState,
    locations: Seq<TempLocationView>,
    a: OptionsView,
    b: OptionsView,
)
    requires
        alike(a, b),
    ensures
        locations_pass(state, locations, a) == locations_pass(state, locations, b),
    decreases locations.len(),
{
    if locations.len() > 0 {
        lemma_locations_in_either_mode(state, locations.drop_last(), a, b);
        lemma_visit_all_in_either_mode(
            locations_pass(state, locations.drop_last(), a),
            locations.last().name,
            locations.last().paths,
            a,
            b,
        );
    }
}

/// The work at the profiles of a browser does not depend on whether the run
/// is a dry run.
pub proof fn lemma_profiles_in_either_mode(
    state: RunState,
    env: Environment,
    browser: BrowserCacheView,
    profiles: Seq<Seq<char>>,
    a: OptionsView,
    b: OptionsView,
)
    requires
        alike(a, b),
    ensures
        profiles_pass(state, env, browser, profiles, a) == profiles_pass(
            state,
            env,
            browser,
            profiles,
            b,
        ),
    decreases profiles.len(),
{
    if profiles.len() > 0 {
        lemma_profiles_in_either_mode(state, env, browser, profiles.drop_last(), a, b);
        let before = profiles_pass(state, env, browser, profiles.drop_last(), a);
        match expanded_path(profiles.last(), env, before.roots) {
            Some(base) => {
                lemma_visit_below_in_either_mode(
                    before,
                    browser.name,
                    base,
                    browser.cache_subdirs,
                    a,
                    b,
                );
            },
            None => {},
        }
    }
}

/// The work at the browsers does not depend on whether the run is a dry run.
pub proof fn lemma_browsers_in_either_mode(
    state: RunState,
    env: Environment,
    browsers: Seq<BrowserCacheView>,
    a: OptionsView,
    b: OptionsView,
)
    requires
        alike(a, b),
    ensures
        browsers_pass(state, env, browsers, a) == browsers_pass(state, env, browsers, b),
    decreases browsers.len(),
{
    if browsers.len() > 0 {
        lemma_browsers_in_either_mode(state, env, browsers.drop_last(), a, b);
        lemma_profiles_in_either_mode(
            browsers_pass(state, env, browsers.drop_last(), a),
            env,
            browsers.last(),
            browsers.last().base_paths,
            a,
            b,
        );
    }
}

/// A whole dry run counts what a run counts in which no deletion fails: it
/// gives the summary of the run that deletes for real on the same host with
/// every deletion succeeding.
pub proof fn lemma_whole_dry_run_counts_as_unhindered_run(
    env: Environment,
    roots: Seq<DirView>,
    dry: OptionsView,
    live: OptionsView,
)
    requires
        dry.dry_run,
        !live.dry_run,
        alike(dry, live),
    ensures
        run(env, roots_at_work(roots, dry), dry) == run(env, unhindered_all(roots), live),
{
    let start = RunState { summary: empty_summary(), roots: unhindered_all(roots) };
    lemma_locations_in_either_mode(start, all_temp_locations(env), dry, live);
    let midway = locations_pass(start, all_temp_locations(env), dry);
    lemma_browsers_in_either_mode(
        midway,
        env,
        browser_catalog(firefox_profile_paths(env, midway.roots)),
        dry,
        live,
    );
}

/// Where nothing on the host resists deletion, a whole dry run gives the
/// summary of the run that deletes for live.
pub proof fn lemma_whole_dry_run_counts_as_real_run(
    env: Environment,
    roots: Seq<DirView>,
    dry: OptionsView,
    live: OptionsView,
)
    requires
        dry.dry_run,
        !live.dry_run,
        alike(dry, live),
        forall|i: int| 0 <= i < roots.len() ==> faultless(#[trigger] roots[i]),
    ensures
        run(env, roots_at_work(roots, dry), dry) == run(env, roots_at_work(roots, live), live),
{
    assert forall|i: int| 0 <= i < roots.len() implies unhindered_all(roots)[i] == roots[i] by {
        lemma_unhindered_of_faultless(roots[i]);
    }
    assert(unhindered_all(roots) =~= roots);
    lemma_whole_dry_run_counts_as_unhindered_run(env, roots, dry, live);
}

} // verus!
