//! A whole run: every fixed location, then the caches of every browser.

use vstd::prelude::*;
use crate::cleaning::browsers::{
    browser_catalog, browser_views, expand_environment_path, expanded_path,
    firefox_profile_paths, get_browser_cache_info, BrowserCacheInfo, BrowserCacheView,
};
use crate::cleaning::engine::{clean_at_work, clean_dir, with_failure};
use crate::cleaning::host::{
    dir_views, find_root, root_index, unhindered_all, DirView, Host,
};
use crate::cleaning::locations::{
    all_temp_locations, get_all_temp_locations, join, joined, location_views, texts,
    Environment, TempLocation, TempLocationView,
};
use crate::cleaning::options::{default_options, CleaningOptions, OptionsView};
use crate::cleaning::summary::{
    empty_summary, grown, names_distinct, CleaningSummary, LocationView, SummaryView,
};

verus! {

/// How far a run has come: its summary, and the directories of the host as
/// the run has left them.
pub struct RunState {
    pub summary: SummaryView,
    pub roots: Seq<DirView>,
}

/// Cleaning the directory at `path` for the location `name`. Where nothing
/// exists at the path, nothing is done. A failure to clean the directory is
/// recorded as an error.
pub open spec fn visit(state: RunState, name: Seq<char>, path: Seq<char>, options: OptionsView)
    -> RunState {
    let at = root_index(state.roots, path);
    if at < state.roots.len() && !state.roots[at].removed {
        let cleaned = clean_dir(state.summary, state.roots[at], name, options);
        RunState {
            summary: with_failure(cleaned.summary, cleaned.error),
            roots: state.roots.update(at, cleaned.dir),
        }
    } else {
        state
    }
}

/// Cleaning the directories at `paths`, in order, for the location `name`.
pub open spec fn visit_all(
    state: RunState,
    name: Seq<char>,
    paths: Seq<Seq<char>>,
    options: OptionsView,
) -> RunState
    decreases paths.len(),
{
    if paths.len() == 0 {
        state
    } else {
        visit(visit_all(state, name, paths.drop_last(), options), name, paths.last(), options)
    }
}

/// Cleaning the directories `subdirs` below `base`, in order.
pub open spec fn visit_below(
    state: RunState,
    name: Seq<char>,
    base: Seq<char>,
    subdirs: Seq<Seq<char>>,
    options: OptionsView,
) -> RunState
    decreases subdirs.len(),
{
    if subdirs.len() == 0 {
        state
    } else {
        visit(
            visit_below(state, name, base, subdirs.drop_last(), options),
            name,
            joined(base, subdirs.last()),
            options,
        )
    }
}

/// The summary `after` the work at the location `name`, which began at
/// `before`. Where a file was deleted or kept there, or an error recorded,
/// the location is entered with what was added to each counter; an entry
/// that stands under the same name is replaced.
pub open spec fn recorded(before: SummaryView, after: SummaryView, name: Seq<char>)
    -> SummaryView {
    let entry = LocationView {
        location_name: name,
        deleted_files: (after.deleted_files - before.deleted_files) as usize,
        total_size: (after.total_size - before.total_size) as u64,
        errors: (after.errors.len() - before.errors.len()) as usize,
        skipped_files: (after.skipped_files - before.skipped_files) as usize,
    };
    if entry.deleted_files > 0 || entry.errors > 0 || entry.skipped_files > 0 {
        SummaryView { locations: after.locations.insert(name, entry), ..after }
    } else {
        after
    }
}

/// The work at one fixed location.
pub open spec fn location_step(state: RunState, location: TempLocationView, options: OptionsView)
    -> RunState {
    let after = visit_all(state, location.name, location.paths, options);
    RunState { summary: recorded(state.summary, after.summary, location.name), roots: after.roots }
}

/// The work at the fixed locations, in order.
pub open spec fn locations_pass(
    state: RunState,
    locations: Seq<TempLocationView>,
    options: OptionsView,
) -> RunState
    decreases locations.len(),
{
    if locations.len() == 0 {
        state
    } else {
        location_step(
            locations_pass(state, locations.drop_last(), options),
            locations.last(),
            options,
        )
    }
}

/// The work at the profiles of one browser, in order: each profile's path is
/// resolved on the host as the run has left it, and where it stands for a
/// directory, the caches below it are cleaned.
pub open spec fn profiles_pass(
    state: RunState,
    env: Environment,
    browser: BrowserCacheView,
    profiles: Seq<Seq<char>>,
    options: OptionsView,
) -> RunState
    decreases profiles.len(),
{
    if profiles.len() == 0 {
        state
    } else {
        let before = profiles_pass(state, env, browser, profiles.drop_last(), options);
        match expanded_path(profiles.last(), env, before.roots) {
            Some(base) => visit_below(before, browser.name, base, browser.cache_subdirs, options),
            None => before,
        }
    }
}

/// The work at one browser.
pub open spec fn browser_step(
    state: RunState,
    env: Environment,
    browser: BrowserCacheView,
    options: OptionsView,
) -> RunState {
    let after = profiles_pass(state, env, browser, browser.base_paths, options);
    RunState { summary: recorded(state.summary, after.summary, browser.name), roots: after.roots }
}

/// The work at `browsers`, in order.
pub open spec fn browsers_pass(
    state: RunState,
    env: Environment,
    browsers: Seq<BrowserCacheView>,
    options: OptionsView,
) -> RunState
    decreases browsers.len(),
{
    if browsers.len() == 0 {
        state
    } else {
        browser_step(
            browsers_pass(state, env, browsers.drop_last(), options),
            env,
            browsers.last(),
            options,
        )
    }
}

/// The work at the caches of all browsers; the profiles of Firefox are
/// looked up on the host as the run has left it.
pub open spec fn browser_caches_pass(state: RunState, env: Environment, options: OptionsView)
    -> RunState {
    browsers_pass(
        state,
        env,
        browser_catalog(firefox_profile_paths(env, state.roots)),
        options,
    )
}

/// A whole run on a host with the directories `roots`: the fixed locations
/// first, then the caches of the browsers.
pub open spec fn run(env: Environment, roots: Seq<DirView>, options: OptionsView) -> RunState {
    browser_caches_pass(
        locations_pass(
            RunState { summary: empty_summary(), roots },
            all_temp_locations(env),
            options,
        ),
        env,
        options,
    )
}

/// The state of a run with the summary `summary` on `host`.
pub open spec fn state_of(summary: CleaningSummary, host: Host) -> RunState {
    RunState { summary: summary@, roots: dir_views(host.roots@) }
}

/// Cleans the directory at `path`, if one exists there, for the location
/// `location_name`, on the host on which a run works.
pub(crate) fn clean_path(
    host: &mut Host,
    location_name: &str,
    path: &str,
    summary: &mut CleaningSummary,
    options: &CleaningOptions,
)
    ensures
        state_of(*final(summary), *final(host)) == visit(
            state_of(*old(summary), *old(host)),
            location_name@,
            path@,
            options@,
        ),
        final(host).env == old(host).env,
        final(summary).cleaned_locations == old(summary).cleaned_locations,
        grown(old(summary)@, final(summary)@),
{
    let at = find_root(&host.roots, path);
    let ghost before = host.roots@;
    if at < host.roots.len() {
        assert(dir_views(before)[at as int] == before[at as int]@);
        if !host.roots[at].removed {
            match clean_at_work(&mut host.roots[at], location_name, summary, options) {
                Ok(_) => {},
                Err(failure) => {
                    summary.add_error(failure);
                },
            }
            assert(dir_views(host.roots@) =~= dir_views(before).update(
                at as int,
                host.roots@[at as int]@,
            ));
        }
    }
}

/// Enters the location `name` into `summary` where work was done there since
/// the counters stood at the given values.
fn record_location(
    summary: &mut CleaningSummary,
    name: &str,
    before: Ghost<SummaryView>,
    files_before: usize,
    size_before: u64,
    errors_before: usize,
    skipped_before: usize,
)
    requires
        grown(before@, old(summary)@),
        files_before == before@.deleted_files,
        size_before == before@.total_size,
        errors_before == before@.errors.len(),
        skipped_before == before@.skipped_files,
    ensures
        final(summary)@ == recorded(before@, old(summary)@, name@),
        names_distinct(old(summary).cleaned_locations@) ==> names_distinct(
            final(summary).cleaned_locations@,
        ),
{
    let files_cleaned = summary.deleted_files - files_before;
    let size_cleaned = summary.total_size - size_before;
    let errors_count = summary.errors.len() - errors_before;
    let skipped_count = summary.skipped_files - skipped_before;
    if files_cleaned > 0 || errors_count > 0 || skipped_count > 0 {
        summary.add_location_data(name, files_cleaned, size_cleaned, errors_count, skipped_count);
    }
}

/// Cleans the directories of one fixed location and enters the location into
/// the summary, on the host on which a run works.
pub(crate) fn clean_location(
    host: &mut Host,
    location: &TempLocation,
    summary: &mut CleaningSummary,
    options: &CleaningOptions,
)
    ensures
        state_of(*final(summary), *final(host)) == location_step(
            state_of(*old(summary), *old(host)),
            location@,
            options@,
        ),
        final(host).env == old(host).env,
        names_distinct(old(summary).cleaned_locations@) ==> names_distinct(
            final(summary).cleaned_locations@,
        ),
{
    let ghost start = state_of(*summary, *host);
    let ghost paths = texts(location.paths@);
    let files_before = summary.deleted_files;
    let size_before = summary.total_size;
    let errors_before = summary.errors.len();
    let skipped_before = summary.skipped_files;
    let mut i: usize = 0;
    proof {
        assert(paths.take(0) =~= Seq::<Seq<char>>::empty());
    }
    while i < location.paths.len()
        invariant
            i <= location.paths.len(),
            paths == texts(location.paths@),
            visit_all(start, location.name@, paths.take(i as int), options@) == state_of(
                *summary,
                *host,
            ),
            host.env == old(host).env,
            summary.cleaned_locations == old(summary).cleaned_locations,
            grown(start.summary, summary@),
        decreases location.paths.len() - i,
    {
        proof {
            assert(paths.take(i + 1).drop_last() =~= paths.take(i as int));
            assert(paths.take(i + 1).last() == location.paths@[i as int]@);
        }
        clean_path(
            host,
            location.name.as_str(),
            location.paths[i].as_str(),
            summary,
            options,
        );
        i += 1;
    }
    proof {
        assert(paths.take(location.paths.len() as int) =~= paths);
    }
    record_location(
        summary,
        location.name.as_str(),
        Ghost(start.summary),
        files_before,
        size_before,
        errors_before,
        skipped_before,
    );
}

/// Cleans the caches of one browser and enters the browser into the
/// summary, on the host on which a run works.
pub(crate) fn clean_browser(
    host: &mut Host,
    browser: &BrowserCacheInfo,
    summary: &mut CleaningSummary,
    options: &CleaningOptions,
)
    ensures
        state_of(*final(summary), *final(host)) == browser_step(
            state_of(*old(summary), *old(host)),
            old(host).env,
            browser@,
            options@,
        ),
        final(host).env == old(host).env,
        names_distinct(old(summary).cleaned_locations@) ==> names_distinct(
            final(summary).cleaned_locations@,
        ),
{
    let ghost start = state_of(*summary, *host);
    let ghost env = host.env;
    let ghost profiles = texts(browser.base_paths@);
    let ghost subdirs = texts(browser.cache_subdirs@);
    let files_before = summary.deleted_files;
    let size_before = summary.total_size;
    let errors_before = summary.errors.len();
    let skipped_before = summary.skipped_files;
    let mut i: usize = 0;
    proof {
        assert(profiles.take(0) =~= Seq::<Seq<char>>::empty());
    }
    while i < browser.base_paths.len()
        invariant
            i <= browser.base_paths.len(),
            profiles == texts(browser.base_paths@),
            subdirs == texts(browser.cache_subdirs@),
            profiles_pass(start, env, browser@, profiles.take(i as int), options@) == state_of(
                *summary,
                *host,
            ),
            host.env == env,
            summary.cleaned_locations == old(summary).cleaned_locations,
            grown(start.summary, summary@),
        decreases browser.base_paths.len() - i,
    {
        proof {
            assert(profiles.take(i + 1).drop_last() =~= profiles.take(i as int));
            assert(profiles.take(i + 1).last() == browser.base_paths@[i as int]@);
        }
        match expand_environment_path(browser.base_paths[i].as_str(), host) {
            Some(base) => {
                let ghost reached = state_of(*summary, *host);
                let mut j: usize = 0;
                proof {
                    assert(subdirs.take(0) =~= Seq::<Seq<char>>::empty());
                }
                while j < browser.cache_subdirs.len()
                    invariant
                        j <= browser.cache_subdirs.len(),
                        subdirs == texts(browser.cache_subdirs@),
                        visit_below(
                            reached,
                            browser.name@,
                            base@,
                            subdirs.take(j as int),
                            options@,
                        ) == state_of(*summary, *host),
                        host.env == env,
                        summary.cleaned_locations == old(summary).cleaned_locations,
                        grown(start.summary, summary@),
                    decreases browser.cache_subdirs.len() - j,
                {
                    proof {
                        assert(subdirs.take(j + 1).drop_last() =~= subdirs.take(j as int));
                        assert(subdirs.take(j + 1).last() == browser.cache_subdirs@[j as int]@);
                    }
                    let cache_path = join(base.as_str(), browser.cache_subdirs[j].as_str());
                    clean_path(
                        host,
                        browser.name.as_str(),
                        cache_path.as_str(),
                        summary,
                        options,
                    );
                    j += 1;
                }
                proof {
                    assert(subdirs.take(browser.cache_subdirs.len() as int) =~= subdirs);
                }
            },
            None => {},
        }
        i += 1;
    }
    proof {
        assert(profiles.take(browser.base_paths.len() as int) =~= profiles);
    }
    record_location(
        summary,
        browser.name.as_str(),
        Ghost(start.summary),
        files_before,
        size_before,
        errors_before,
        skipped_before,
    );
}

/// Cleans the caches of all browsers on the host on which a run works.
fn clean_browser_caches_at_work(
    summary: &mut CleaningSummary,
    options: &CleaningOptions,
    host: &mut Host,
)
    ensures
        state_of(*final(summary), *final(host)) == browser_caches_pass(
            state_of(*old(summary), *old(host)),
            old(host).env,
            options@,
        ),
        final(host).env == old(host).env,
        names_distinct(old(summary).cleaned_locations@) ==> names_distinct(
            final(summary).cleaned_locations@,
        ),
{
    let browsers = get_browser_cache_info(host);
    let ghost start = state_of(*summary, *host);
    let ghost env = host.env;
    let ghost catalog = browser_views(browsers@);
    let mut i: usize = 0;
    proof {
        assert(catalog.take(0) =~= Seq::<BrowserCacheView>::empty());
    }
    while i < browsers.len()
        invariant
            i <= browsers.len(),
            catalog == browser_views(browsers@),
            browsers_pass(start, env, catalog.take(i as int), options@) == state_of(
                *summary,
                *host,
            ),
            host.env == env,
            names_distinct(old(summary).cleaned_locations@) ==> names_distinct(
                summary.cleaned_locations@,
            ),
        decreases browsers.len() - i,
    {
        proof {
            assert(catalog.take(i + 1).drop_last() =~= catalog.take(i as int));
            assert(catalog.take(i + 1).last() == browsers@[i as int]@);
        }
        clean_browser(host, &browsers[i], summary, options);
        i += 1;
    }
    proof {
        assert(catalog.take(browsers.len() as int) =~= catalog);
    }
}

/// The directories on which a run works: the directories themselves, or,
/// in a dry run, the same directories with nothing that resists deletion.
pub open spec fn roots_at_work(roots: Seq<DirView>, options: OptionsView) -> Seq<DirView> {
    if options.dry_run {
        unhindered_all(roots)
    } else {
        roots
    }
}

/// The state in which a run with the summary `summary` starts on `host`.
pub open spec fn start_of(summary: CleaningSummary, host: Host, options: OptionsView) -> RunState {
    RunState { summary: summary@, roots: roots_at_work(dir_views(host.roots@), options) }
}

/// Cleans the caches of all browsers. This never fails: what goes wrong at a
/// cache is recorded in the summary. A dry run counts as a run would in
/// which no deletion fails, and leaves the host as it is.
pub fn clean_browser_caches(
    summary: &mut CleaningSummary,
    options: &CleaningOptions,
    host: &mut Host,
) -> (result: Result<(), String>)
    ensures
        result is Ok,
        final(summary)@ == browser_caches_pass(
            start_of(*old(summary), *old(host), options@),
            old(host).env,
            options@,
        ).summary,
        dir_views(final(host).roots@) == (if options.dry_run {
            dir_views(old(host).roots@)
        } else {
            browser_caches_pass(
                start_of(*old(summary), *old(host), options@),
                old(host).env,
                options@,
            ).roots
        }),
        final(host).env == old(host).env,
        names_distinct(old(summary).cleaned_locations@) ==> names_distinct(
            final(summary).cleaned_locations@,
        ),
{
    if options.dry_run {
        let mut copy = host.working_copy(true);
        clean_browser_caches_at_work(summary, options, &mut copy);
    } else {
        clean_browser_caches_at_work(summary, options, host);
    }
    Ok(())
}

/// A whole run on the host on which it works.
fn run_at_work(options: &CleaningOptions, host: &mut Host) -> (summary: CleaningSummary)
    ensures
        state_of(summary, *final(host)) == run(
            old(host).env,
            dir_views(old(host).roots@),
            options@,
        ),
        names_distinct(summary.cleaned_locations@),
        final(host).env == old(host).env,
{
    let mut summary = CleaningSummary::new();
    let locations = get_all_temp_locations(&host.env);
    let ghost start = state_of(summary, *host);
    let ghost env = host.env;
    let ghost listed = location_views(locations@);
    let mut i: usize = 0;
    proof {
        assert(listed.take(0) =~= Seq::<TempLocationView>::empty());
    }
    while i < locations.len()
        invariant
            i <= locations.len(),
            listed == location_views(locations@),
            locations_pass(start, listed.take(i as int), options@) == state_of(summary, *host),
            host.env == env,
            names_distinct(summary.cleaned_locations@),
        decreases locations.len() - i,
    {
        proof {
            assert(listed.take(i + 1).drop_last() =~= listed.take(i as int));
            assert(listed.take(i + 1).last() == locations@[i as int]@);
        }
        clean_location(host, &locations[i], &mut summary, options);
        i += 1;
    }
    proof {
        assert(listed.take(locations.len() as int) =~= listed);
    }
    clean_browser_caches_at_work(&mut summary, options, host);
    summary
}

/// Runs a cleaning with `options` on `host` and gives the summary. A run as
/// a whole never fails: what goes wrong on the way is recorded in the
/// summary. A dry run counts as a run would in which no deletion fails, and
/// leaves the host as it is. The time that the run took is left at zero for
/// the caller to set.
pub fn clean_temp_files_with_options(options: CleaningOptions, host: &mut Host) -> (result: Result<
    CleaningSummary,
    String,
>)
    ensures
        result matches Ok(summary) && summary@ == run(
            old(host).env,
            roots_at_work(dir_views(old(host).roots@), options@),
            options@,
        ).summary && names_distinct(summary.cleaned_locations@),
        dir_views(final(host).roots@) == (if options.dry_run {
            dir_views(old(host).roots@)
        } else {
            run(old(host).env, dir_views(old(host).roots@), options@).roots
        }),
        final(host).env == old(host).env,
{
    if options.dry_run {
        let mut copy = host.working_copy(true);
        Ok(run_at_work(&options, &mut copy))
    } else {
        Ok(run_at_work(&options, host))
    }
}

/// Runs a cleaning with the default options on `host`.
pub fn clean_temp_files(host: &mut Host) -> (result: Result<CleaningSummary, String>)
    ensures
        result matches Ok(summary) && state_of(summary, *final(host)) == run(
            old(host).env,
            dir_views(old(host).roots@),
            default_options(),
        ) && names_distinct(summary.cleaned_locations@),
        final(host).env == old(host).env,
{
    clean_temp_files_with_options(CleaningOptions::default(), host)
}

} // verus!
