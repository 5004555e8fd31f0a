//! The caches of web browsers: where each browser keeps them, and how a
//! path with variables and a wildcard is resolved.

use vstd::prelude::*;
use crate::cleaning::filter::texts_of;
use crate::cleaning::host::{
    dir_views, entry_views, find_root, root_index, DirView, Entry, EntryView, Host, Listing,
    ListingView,
};
use crate::cleaning::locations::{join, joined, texts, Environment};
use crate::text::{chars_of, contains_char, replace_all, replaced, string_of};

verus! {

/// Where one browser keeps its caches.
#[derive(Debug, Clone)]
pub struct BrowserCacheInfo {
    /// The name under which the browser's caches are reported.
    pub name: String,
    /// The directories of the browser's profiles. A path may hold variables
    /// between percent signs, and `*` as its last part for the first
    /// directory that is found there.
    pub base_paths: Vec<String>,
    /// The directories to clean below each profile.
    pub cache_subdirs: Vec<String>,
}

/// A `BrowserCacheInfo` as character sequences.
pub struct BrowserCacheView {
    pub name: Seq<char>,
    pub base_paths: Seq<Seq<char>>,
    pub cache_subdirs: Seq<Seq<char>>,
}

impl View for BrowserCacheInfo {
    type V = BrowserCacheView;

    open spec fn view(&self) -> BrowserCacheView {
        BrowserCacheView {
            name: self.name@,
            base_paths: texts(self.base_paths@),
            cache_subdirs: texts(self.cache_subdirs@),
        }
    }
}

/// The views of a list of browsers, in order.
pub open spec fn browser_views(items: Seq<BrowserCacheInfo>) -> Seq<BrowserCacheView> {
    items.map_values(|b: BrowserCacheInfo| b@)
}

/// An entry that counts as a directory when a path is resolved: a directory
/// that is there, or a symbolic link to one.
pub open spec fn directory_path(entry: EntryView) -> Option<Seq<char>> {
    match entry {
        EntryView::Dir(dir) => if dir.removed {
            None
        } else {
            Some(dir.path@)
        },
        EntryView::DirLink(path) => Some(path@),
        _ => None,
    }
}

/// The paths of the directories among `entries`, in order.
pub open spec fn directories_in(entries: Seq<EntryView>) -> Seq<Seq<char>>
    decreases entries.len(),
{
    if entries.len() == 0 {
        Seq::empty()
    } else {
        directories_in(entries.drop_last()) + (match directory_path(entries.last()) {
            Some(path) => seq![path],
            None => Seq::empty(),
        })
    }
}

/// The entries of the directory at `path`, where one is there and can be read.
pub open spec fn entries_at(roots: Seq<DirView>, path: Seq<char>) -> Option<Seq<EntryView>> {
    let at = root_index(roots, path);
    if at < roots.len() && !roots[at].removed {
        match roots[at].listing {
            ListingView::Entries(entries) => Some(entries),
            _ => None,
        }
    } else {
        None
    }
}

/// The path of an entry that counts as a directory when a path is resolved.
fn directory_path_of(entry: &Entry) -> (path: Option<String>)
    ensures
        match path {
            Some(p) => directory_path(entry@) == Some(p@),
            None => directory_path(entry@) is None,
        },
{
    match entry {
        Entry::Dir(dir) => {
            if dir.removed {
                None
            } else {
                Some(dir.path.clone())
            }
        },
        Entry::DirLink(path) => Some(path.clone()),
        _ => None,
    }
}

/// The paths of the directories in the directory at `path`; none where
/// nothing that can be read is there.
pub fn list_directories(host: &Host, path: &str) -> (found: Vec<String>)
    ensures
        texts(found@) == (match entries_at(dir_views(host.roots@), path@) {
            Some(entries) => directories_in(entries),
            None => Seq::empty(),
        }),
{
    let mut found: Vec<String> = Vec::new();
    let at = find_root(&host.roots, path);
    proof {
        assert(texts(found@) =~= Seq::<Seq<char>>::empty());
    }
    if at >= host.roots.len() {
        return found;
    }
    let root = &host.roots[at];
    assert(dir_views(host.roots@)[at as int] == root@);
    if root.removed {
        return found;
    }
    match &root.listing {
        Listing::Entries(entries) => {
            let ghost views = entry_views(entries@);
            let mut i: usize = 0;
            proof {
                assert(views.take(0) =~= Seq::<EntryView>::empty());
            }
            while i < entries.len()
                invariant
                    i <= entries.len(),
                    views == entry_views(entries@),
                    texts(found@) == directories_in(views.take(i as int)),
                decreases entries.len() - i,
            {
                let ghost before = found@;
                proof {
                    assert(views.take(i + 1).drop_last() =~= views.take(i as int));
                    assert(views.take(i + 1).last() == entries@[i as int]@);
                }
                match directory_path_of(&entries[i]) {
                    Some(p) => {
                        found.push(p);
                        assert(texts(found@) =~= texts(before) + seq![p@]);
                    },
                    None => {
                        assert(texts(found@) =~= texts(before) + Seq::<Seq<char>>::empty());
                    },
                }
                i += 1;
            }
            proof {
                assert(views.take(entries.len() as int) =~= views);
            }
            found
        },
        _ => found,
    }
}

/// The directory in which Firefox keeps its profiles, where the roaming
/// application data is known.
pub open spec fn firefox_profiles_directory(env: Environment) -> Option<Seq<char>> {
    match env.app_data {
        Some(app_data) => Some(joined(app_data@, "Mozilla\\Firefox\\Profiles"@)),
        None => None,
    }
}

/// The directory in which Firefox keeps its profiles.
pub fn firefox_profiles_dir(env: &Environment) -> (dir: Option<String>)
    ensures
        match dir {
            Some(d) => firefox_profiles_directory(*env) == Some(d@),
            None => firefox_profiles_directory(*env) is None,
        },
{
    match &env.app_data {
        Some(app_data) => Some(join(app_data.as_str(), "Mozilla\\Firefox\\Profiles")),
        None => None,
    }
}

/// The profiles of Firefox: the directories below its profile directory, or,
/// where none is found, the path that stands for the first one there.
pub open spec fn firefox_profile_paths(env: Environment, roots: Seq<DirView>) -> Seq<Seq<char>> {
    let found = match firefox_profiles_directory(env) {
        Some(profiles) => match entries_at(roots, profiles) {
            Some(entries) => directories_in(entries),
            None => Seq::empty(),
        },
        None => Seq::empty(),
    };
    if found.len() == 0 {
        seq!["%APPDATA%\\Mozilla\\Firefox\\Profiles\\*"@]
    } else {
        found
    }
}

/// The profiles of Firefox that are found on the host.
pub fn get_firefox_profile_paths(host: &Host) -> (paths: Vec<String>)
    ensures
        texts(paths@) == firefox_profile_paths(host.env, dir_views(host.roots@)),
{
    let mut paths: Vec<String> = match firefox_profiles_dir(&host.env) {
        Some(profiles) => list_directories(host, profiles.as_str()),
        None => {
            let none: Vec<String> = Vec::new();
            assert(texts(none@) =~= Seq::<Seq<char>>::empty());
            none
        },
    };
    if paths.len() == 0 {
        paths.push("%APPDATA%\\Mozilla\\Firefox\\Profiles\\*".to_string());
        assert(texts(paths@) =~= seq!["%APPDATA%\\Mozilla\\Firefox\\Profiles\\*"@]);
    }
    paths
}

/// The browsers whose caches a run cleans, in the order in which it visits
/// them; `firefox_profiles` are the profiles of Firefox.
pub open spec fn browser_catalog(firefox_profiles: Seq<Seq<char>>) -> Seq<BrowserCacheView> {
    seq![
        BrowserCacheView {
            name: "Chrome Cache"@,
            base_paths: seq![
                "%LOCALAPPDATA%\\Google\\Chrome\\User Data\\Default"@,
                "%LOCALAPPDATA%\\Google\\Chrome\\User Data\\Profile 1"@,
                "%LOCALAPPDATA%\\Google\\Chrome\\User Data\\Profile 2"@,
            ],
            cache_subdirs: seq![
                "Cache"@,
                "GPUCache"@,
                "Code Cache"@,
                "Service Worker\\CacheStorage"@,
            ],
        },
        BrowserCacheView {
            name: "Firefox Cache"@,
            base_paths: firefox_profiles,
            cache_subdirs: seq!["cache2"@, "startupCache"@, "OfflineCache"@, "thumbnails"@],
        },
        BrowserCacheView {
            name: "Edge Cache"@,
            base_paths: seq![
                "%LOCALAPPDATA%\\Microsoft\\Edge\\User Data\\Default"@,
                "%LOCALAPPDATA%\\Microsoft\\Edge\\User Data\\Profile 1"@,
            ],
            cache_subdirs: seq![
                "Cache"@,
                "GPUCache"@,
                "Code Cache"@,
                "Service Worker\\CacheStorage"@,
            ],
        },
        BrowserCacheView {
            name: "Brave Cache"@,
            base_paths: seq![
                "%LOCALAPPDATA%\\BraveSoftware\\Brave-Browser\\User Data\\Default"@,
                "%LOCALAPPDATA%\\BraveSoftware\\Brave-Browser\\User Data\\Profile 1"@,
            ],
            cache_subdirs: seq!["Cache"@, "GPUCache"@, "Code Cache"@],
        },
        BrowserCacheView {
            name: "Opera Cache"@,
            base_paths: seq![
                "%APPDATA%\\Opera Software\\Opera Stable"@,
                "%APPDATA%\\Opera Software\\Opera GX Stable"@,
            ],
            cache_subdirs: seq!["Cache"@, "GPUCache"@, "Code Cache"@],
        },
        BrowserCacheView {
            name: "Vivaldi Cache"@,
            base_paths: seq!["%LOCALAPPDATA%\\Vivaldi\\User Data\\Default"@],
            cache_subdirs: seq!["Cache"@, "GPUCache"@, "Code Cache"@],
        },
    ]
}

/// The strings of a list of string slices.
fn owned(items: Vec<&'static str>) -> (strings: Vec<String>)
    ensures
        texts(strings@) == texts_of(items@),
{
    let mut strings: Vec<String> = Vec::new();
    let mut i: usize = 0;
    while i < items.len()
        invariant
            i <= items.len(),
            strings@.len() == i,
            forall|k: int| 0 <= k < i ==> strings@[k]@ == items@[k]@,
        decreases items.len() - i,
    {
        strings.push(items[i].to_string());
        i += 1;
    }
    assert(texts(strings@) =~= texts_of(items@));
    strings
}

/// The browsers whose caches a run cleans, with the profiles of Firefox that
/// are found on the host.
pub fn get_browser_cache_info(host: &Host) -> (browsers: Vec<BrowserCacheInfo>)
    ensures
        browser_views(browsers@) == browser_catalog(
            firefox_profile_paths(host.env, dir_views(host.roots@)),
        ),
{
    let chromium: Vec<&'static str> = vec![
        "Cache",
        "GPUCache",
        "Code Cache",
        "Service Worker\\CacheStorage",
    ];
    let plain: Vec<&'static str> = vec!["Cache", "GPUCache", "Code Cache"];
    let mut browsers: Vec<BrowserCacheInfo> = Vec::new();
    let chrome: Vec<&'static str> = vec![
        "%LOCALAPPDATA%\\Google\\Chrome\\User Data\\Default",
        "%LOCALAPPDATA%\\Google\\Chrome\\User Data\\Profile 1",
        "%LOCALAPPDATA%\\Google\\Chrome\\User Data\\Profile 2",
    ];
    browsers.push(
        BrowserCacheInfo {
            name: "Chrome Cache".to_string(),
            base_paths: owned(chrome),
            cache_subdirs: owned(
                vec!["Cache", "GPUCache", "Code Cache", "Service Worker\\CacheStorage"],
            ),
        },
    );
    browsers.push(
        BrowserCacheInfo {
            name: "Firefox Cache".to_string(),
            base_paths: get_firefox_profile_paths(host),
            cache_subdirs: owned(vec!["cache2", "startupCache", "OfflineCache", "thumbnails"]),
        },
    );
    browsers.push(
        BrowserCacheInfo {
            name: "Edge Cache".to_string(),
            base_paths: owned(
                vec![
                    "%LOCALAPPDATA%\\Microsoft\\Edge\\User Data\\Default",
                    "%LOCALAPPDATA%\\Microsoft\\Edge\\User Data\\Profile 1",
                ],
            ),
            cache_subdirs: owned(chromium),
        },
    );
    browsers.push(
        BrowserCacheInfo {
            name: "Brave Cache".to_string(),
            base_paths: owned(
                vec![
                    "%LOCALAPPDATA%\\BraveSoftware\\Brave-Browser\\User Data\\Default",
                    "%LOCALAPPDATA%\\BraveSoftware\\Brave-Browser\\User Data\\Profile 1",
                ],
            ),
            cache_subdirs: owned(vec!["Cache", "GPUCache", "Code Cache"]),
        },
    );
    browsers.push(
        BrowserCacheInfo {
            name: "Opera Cache".to_string(),
            base_paths: owned(
                vec![
                    "%APPDATA%\\Opera Software\\Opera Stable",
                    "%APPDATA%\\Opera Software\\Opera GX Stable",
                ],
            ),
            cache_subdirs: owned(vec!["Cache", "GPUCache", "Code Cache"]),
        },
    );
    browsers.push(
        BrowserCacheInfo {
            name: "Vivaldi Cache".to_string(),
            base_paths: owned(vec!["%LOCALAPPDATA%\\Vivaldi\\User Data\\Default"]),
            cache_subdirs: owned(plain),
        },
    );
    proof {
        let views = browser_views(browsers@);
        let catalog = browser_catalog(firefox_profile_paths(host.env, dir_views(host.roots@)));
        assert(views.len() == catalog.len());
        assert forall|i: int| 0 <= i < views.len() implies views[i] == catalog[i] by {
            assert(views[i].name == catalog[i].name);
            assert(views[i].base_paths =~= catalog[i].base_paths);
            assert(views[i].cache_subdirs =~= catalog[i].cache_subdirs);
        }
        assert(views =~= catalog);
    }
    browsers
}

/// `template` with each variable that is set replaced by its value: the
/// local application data first, then the roaming application data, then
/// the user's profile.
pub open spec fn expanded_variables(template: Seq<char>, env: Environment) -> Seq<char> {
    let first = match env.local_app_data {
        Some(value) => replaced(template, "%LOCALAPPDATA%"@, value@),
        None => template,
    };
    let second = match env.app_data {
        Some(value) => replaced(first, "%APPDATA%"@, value@),
        None => first,
    };
    match env.user_profile {
        Some(value) => replaced(second, "%USERPROFILE%"@, value@),
        None => second,
    }
}

/// The first of `items`, if there is any.
pub open spec fn first_of(items: Seq<Seq<char>>) -> Option<Seq<char>> {
    if items.len() == 0 {
        None
    } else {
        Some(items[0])
    }
}

/// The directory in which a template with a wildcard looks for its first
/// directory: the template with its variables replaced and each `\*` taken
/// out. A template without `*` has none.
pub open spec fn wildcard_directory(template: Seq<char>, env: Environment) -> Option<Seq<char>> {
    let path = expanded_variables(template, env);
    if path.contains('*') {
        Some(replaced(path, "\\*"@, Seq::empty()))
    } else {
        None
    }
}

/// The path that a template stands for. Variables are replaced by their
/// values. A path that then holds a `*` stands for the first directory in
/// its wildcard directory, and for nothing where that cannot be read or
/// holds no directory.
pub open spec fn expanded_path(template: Seq<char>, env: Environment, roots: Seq<DirView>)
    -> Option<Seq<char>> {
    match wildcard_directory(template, env) {
        Some(parent) => match entries_at(roots, parent) {
            Some(entries) => first_of(directories_in(entries)),
            None => None,
        },
        None => Some(expanded_variables(template, env)),
    }
}

/// `text` with the variable `name` replaced by `value`, where it is set.
fn replace_variable(text: Vec<char>, name: &str, value: &Option<String>) -> (out: Vec<char>)
    ensures
        out@ == (match *value {
            Some(v) => replaced(text@, name@, v@),
            None => text@,
        }),
{
    match value {
        Some(v) => {
            let from = chars_of(name);
            let to = chars_of(v.as_str());
            replace_all(&text, &from, &to)
        },
        None => text,
    }
}

/// `path_template` with its variables replaced by their values.
fn expand_variables(path_template: &str, env: &Environment) -> (expanded: Vec<char>)
    ensures
        expanded@ == expanded_variables(path_template@, *env),
{
    let template = chars_of(path_template);
    let first = replace_variable(template, "%LOCALAPPDATA%", &env.local_app_data);
    let second = replace_variable(first, "%APPDATA%", &env.app_data);
    replace_variable(second, "%USERPROFILE%", &env.user_profile)
}

/// The directory in which `path_template` looks for its first directory, if
/// it holds a wildcard.
pub fn wildcard_parent(path_template: &str, env: &Environment) -> (parent: Option<String>)
    ensures
        match parent {
            Some(p) => wildcard_directory(path_template@, *env) == Some(p@),
            None => wildcard_directory(path_template@, *env) is None,
        },
{
    let expanded = expand_variables(path_template, env);
    if contains_char(&expanded, '*') {
        let wildcard = chars_of("\\*");
        let nothing: Vec<char> = Vec::new();
        Some(string_of(&replace_all(&expanded, &wildcard, &nothing)))
    } else {
        None
    }
}

/// The path that `path_template` stands for on the host, if any.
pub fn expand_environment_path(path_template: &str, host: &Host) -> (path: Option<String>)
    ensures
        match path {
            Some(p) => expanded_path(path_template@, host.env, dir_views(host.roots@)) == Some(p@),
            None => expanded_path(path_template@, host.env, dir_views(host.roots@)) is None,
        },
{
    match wildcard_parent(path_template, &host.env) {
        Some(parent) => {
            let mut found = list_directories(host, parent.as_str());
            if found.len() == 0 {
                None
            } else {
                Some(found.swap_remove(0))
            }
        },
        None => Some(string_of(&expand_variables(path_template, &host.env))),
    }
}

} // verus!
