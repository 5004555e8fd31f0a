//! Where a run looks: the fixed locations of the system, built from the
//! environment.

use vstd::prelude::*;
use crate::text::chars_of;

verus! {

/// The variables of the environment that locations are built from. One that
/// is not set is `None`, and the locations that rest on it are left out.
#[derive(Debug)]
pub struct Environment {
    /// The system's root directory (`SystemRoot`).
    pub system_root: Option<String>,
    /// The system's drive (`SystemDrive`).
    pub system_drive: Option<String>,
    /// The user's directory for temporary files (`TEMP`).
    pub temp: Option<String>,
    /// The user's local application data (`LOCALAPPDATA`).
    pub local_app_data: Option<String>,
    /// The user's roaming application data (`APPDATA`).
    pub app_data: Option<String>,
    /// The user's profile directory (`USERPROFILE`).
    pub user_profile: Option<String>,
}

/// A copy of a string that may be missing.
fn copy_of(item: &Option<String>) -> (copy: Option<String>)
    ensures
        copy == *item,
{
    match item {
        Some(s) => Some(s.clone()),
        None => None,
    }
}

impl Clone for Environment {
    fn clone(&self) -> (copy: Self)
        ensures
            copy == *self,
    {
        Environment {
            system_root: copy_of(&self.system_root),
            system_drive: copy_of(&self.system_drive),
            temp: copy_of(&self.temp),
            local_app_data: copy_of(&self.local_app_data),
            app_data: copy_of(&self.app_data),
            user_profile: copy_of(&self.user_profile),
        }
    }
}

/// A named location with the directories that belong to it.
#[derive(Debug, Clone)]
pub struct TempLocation {
    pub name: String,
    pub paths: Vec<String>,
}

/// A `TempLocation` as character sequences.
pub struct TempLocationView {
    pub name: Seq<char>,
    pub paths: Seq<Seq<char>>,
}

/// The views of a list of strings, in order.
pub open spec fn texts(items: Seq<String>) -> Seq<Seq<char>> {
    items.map_values(|s: String| s@)
}

impl View for TempLocation {
    type V = TempLocationView;

    open spec fn view(&self) -> TempLocationView {
        TempLocationView { name: self.name@, paths: texts(self.paths@) }
    }
}

/// The views of a list of locations, in order.
pub open spec fn location_views(items: Seq<TempLocation>) -> Seq<TempLocationView> {
    items.map_values(|l: TempLocation| l@)
}

/// The text of a string that may be missing.
pub open spec fn text_of(item: Option<String>) -> Option<Seq<char>> {
    match item {
        Some(s) => Some(s@),
        None => None,
    }
}

/// The path of `rest` below `base`: the two are joined by a backslash,
/// unless `base` is empty or ends with a separator already.
pub open spec fn joined(base: Seq<char>, rest: Seq<char>) -> Seq<char> {
    if base.len() == 0 || base.last() == '\\' || base.last() == '/' {
        base + rest
    } else {
        base + seq!['\\'] + rest
    }
}

/// The path of `rest` below `base`.
pub fn join(base: &str, rest: &str) -> (path: String)
    ensures
        path@ == joined(base@, rest@),
{
    let b = chars_of(base);
    if b.len() == 0 || b[b.len() - 1] == '\\' || b[b.len() - 1] == '/' {
        base.to_string().concat(rest)
    } else {
        proof {
            reveal_strlit("\\");
            assert("\\"@ =~= seq!['\\']);
        }
        base.to_string().concat("\\").concat(rest)
    }
}

/// The path of `rest` below the directory that a variable names, if it is set.
pub open spec fn under(root: Option<String>, rest: Seq<char>) -> Option<Seq<char>> {
    match root {
        Some(r) => Some(joined(r@, rest)),
        None => None,
    }
}

/// The path of `rest` below the directory that a variable names, if it is set.
pub fn resolve_under(root: &Option<String>, rest: &str) -> (path: Option<String>)
    ensures
        text_of(path) == under(*root, rest@),
{
    match root {
        Some(r) => Some(join(r.as_str(), rest)),
        None => None,
    }
}

/// The system's directory for temporary files.
pub fn get_windows_temp_dir(env: &Environment) -> (dir: Option<String>)
    ensures
        text_of(dir) == under(env.system_root, "Temp"@),
{
    resolve_under(&env.system_root, "Temp")
}

/// The user's directory for temporary files.
pub fn get_user_temp_dir(env: &Environment) -> (dir: Option<String>)
    ensures
        text_of(dir) == text_of(env.temp),
{
    match &env.temp {
        Some(t) => Some(t.clone()),
        None => None,
    }
}

/// The directory of prefetch data.
pub fn get_prefetch_dir(env: &Environment) -> (dir: Option<String>)
    ensures
        text_of(dir) == under(env.system_root, "Prefetch"@),
{
    resolve_under(&env.system_root, "Prefetch")
}

/// The cache of Internet Explorer.
pub fn get_ie_cache_dir(env: &Environment) -> (dir: Option<String>)
    ensures
        text_of(dir) == under(env.local_app_data, "Microsoft\\Windows\\Temporary Internet Files"@),
{
    resolve_under(&env.local_app_data, "Microsoft\\Windows\\Temporary Internet Files")
}

/// The cache of thumbnails.
pub fn get_thumbnails_cache_dir(env: &Environment) -> (dir: Option<String>)
    ensures
        text_of(dir) == under(env.local_app_data, "Microsoft\\Windows\\Explorer"@),
{
    resolve_under(&env.local_app_data, "Microsoft\\Windows\\Explorer")
}

/// The downloads of the system's update service.
pub fn get_windows_update_dir(env: &Environment) -> (dir: Option<String>)
    ensures
        text_of(dir) == under(env.system_root, "SoftwareDistribution\\Download"@),
{
    resolve_under(&env.system_root, "SoftwareDistribution\\Download")
}

/// Further directories of the system: three below the system's root, and the
/// logs of the web server on the system's drive.
pub open spec fn additional_windows_temp_dirs(env: Environment) -> Seq<Seq<char>> {
    (match env.system_root {
        Some(root) => seq![
            joined(root@, "Installer\\$PatchCache$"@),
            joined(root@, "SoftwareDistribution\\DataStore"@),
            joined(root@, "Logs"@),
        ],
        None => Seq::empty(),
    }) + (match env.system_drive {
        Some(drive) => seq![joined(drive@, "inetpub\\logs"@)],
        None => Seq::empty(),
    })
}

/// Further directories of the system, or `None` where there is none.
pub fn get_additional_windows_temp_dirs(env: &Environment) -> (dirs: Option<Vec<String>>)
    ensures
        match dirs {
            Some(list) => list@.len() > 0 && texts(list@) == additional_windows_temp_dirs(*env),
            None => additional_windows_temp_dirs(*env).len() == 0,
        },
{
    let mut dirs: Vec<String> = Vec::new();
    match &env.system_root {
        Some(root) => {
            dirs.push(join(root.as_str(), "Installer\\$PatchCache$"));
            dirs.push(join(root.as_str(), "SoftwareDistribution\\DataStore"));
            dirs.push(join(root.as_str(), "Logs"));
        },
        None => {},
    }
    match &env.system_drive {
        Some(drive) => {
            dirs.push(join(drive.as_str(), "inetpub\\logs"));
        },
        None => {},
    }
    assert(texts(dirs@) =~= additional_windows_temp_dirs(*env));
    if dirs.len() == 0 {
        None
    } else {
        Some(dirs)
    }
}

/// The user's own directories of temporary data, below the profile.
pub open spec fn system_temp_dirs(env: Environment) -> Seq<Seq<char>> {
    match env.user_profile {
        Some(profile) => seq![
            joined(profile@, "AppData\\Local\\Temp"@),
            joined(profile@, "AppData\\Local\\Microsoft\\Windows\\INetCache"@),
            joined(profile@, "AppData\\Local\\Microsoft\\Windows\\WebCache"@),
            joined(profile@, "AppData\\Roaming\\Microsoft\\Windows\\Recent"@),
        ],
        None => Seq::empty(),
    }
}

/// The user's own directories of temporary data, or `None` where the profile
/// is not known.
pub fn get_system_temp_dirs(env: &Environment) -> (dirs: Option<Vec<String>>)
    ensures
        match dirs {
            Some(list) => list@.len() > 0 && texts(list@) == system_temp_dirs(*env),
            None => system_temp_dirs(*env).len() == 0,
        },
{
    match &env.user_profile {
        Some(profile) => {
            let mut dirs: Vec<String> = Vec::new();
            dirs.push(join(profile.as_str(), "AppData\\Local\\Temp"));
            dirs.push(join(profile.as_str(), "AppData\\Local\\Microsoft\\Windows\\INetCache"));
            dirs.push(join(profile.as_str(), "AppData\\Local\\Microsoft\\Windows\\WebCache"));
            dirs.push(join(profile.as_str(), "AppData\\Roaming\\Microsoft\\Windows\\Recent"));
            assert(texts(dirs@) =~= system_temp_dirs(*env));
            Some(dirs)
        },
        None => None,
    }
}

/// The location `name` with the one directory `path`, where that is known.
pub open spec fn single(name: Seq<char>, path: Option<Seq<char>>) -> Seq<TempLocationView> {
    match path {
        Some(p) => seq![TempLocationView { name, paths: seq![p] }],
        None => Seq::empty(),
    }
}

/// The location `name` with the directories `paths`, where there is any.
pub open spec fn group(name: Seq<char>, paths: Seq<Seq<char>>) -> Seq<TempLocationView> {
    if paths.len() == 0 {
        Seq::empty()
    } else {
        seq![TempLocationView { name, paths }]
    }
}

/// The fixed locations, in the order in which a run visits them. Each stands
/// under a name of its own, and one whose variable is not set is left out.
pub open spec fn all_temp_locations(env: Environment) -> Seq<TempLocationView> {
    single("Windows Temp"@, under(env.system_root, "Temp"@)) + single(
        "Benutzer Temp"@,
        text_of(env.temp),
    ) + single("Windows Prefetch"@, under(env.system_root, "Prefetch"@)) + single(
        "Internet Explorer Cache"@,
        under(env.local_app_data, "Microsoft\\Windows\\Temporary Internet Files"@),
    ) + single(
        "Windows Miniaturansichten"@,
        under(env.local_app_data, "Microsoft\\Windows\\Explorer"@),
    ) + single(
        "Windows Update Cache"@,
        under(env.system_root, "SoftwareDistribution\\Download"@),
    ) + group("Weitere Windows Temp"@, additional_windows_temp_dirs(env)) + group(
        "System Temp"@,
        system_temp_dirs(env),
    )
}

/// Appends the location `name` with the one directory `dir`, if it is known.
fn push_single(locations: &mut Vec<TempLocation>, name: &str, dir: Option<String>)
    ensures
        location_views(final(locations)@) == location_views(old(locations)@) + single(
            name@,
            text_of(dir),
        ),
{
    match dir {
        Some(path) => {
            let mut paths: Vec<String> = Vec::new();
            paths.push(path);
            assert(texts(paths@) =~= seq![path@]);
            locations.push(TempLocation { name: name.to_string(), paths });
            assert(location_views(locations@) =~= location_views(old(locations)@) + single(
                name@,
                text_of(dir),
            ));
        },
        None => {
            assert(location_views(locations@) =~= location_views(old(locations)@) + single(
                name@,
                text_of(dir),
            ));
        },
    }
}

/// Appends the location `name` with the directories `dirs`, if there is any.
fn push_group(locations: &mut Vec<TempLocation>, name: &str, dirs: Option<Vec<String>>)
    requires
        dirs matches Some(list) ==> list@.len() > 0,
    ensures
        location_views(final(locations)@) == location_views(old(locations)@) + group(
            name@,
            match dirs {
                Some(list) => texts(list@),
                None => Seq::empty(),
            },
        ),
{
    match dirs {
        Some(paths) => {
            let ghost listed = texts(paths@);
            locations.push(TempLocation { name: name.to_string(), paths });
            assert(location_views(locations@) =~= location_views(old(locations)@) + group(
                name@,
                listed,
            ));
        },
        None => {
            assert(location_views(locations@) =~= location_views(old(locations)@)
                + group(name@, Seq::empty()));
        },
    }
}

/// The fixed locations, in the order in which a run visits them.
pub fn get_all_temp_locations(env: &Environment) -> (locations: Vec<TempLocation>)
    ensures
        location_views(locations@) == all_temp_locations(*env),
{
    let mut locations: Vec<TempLocation> = Vec::new();
    assert(location_views(locations@) =~= Seq::<TempLocationView>::empty());
    push_single(&mut locations, "Windows Temp", get_windows_temp_dir(env));
    push_single(&mut locations, "Benutzer Temp", get_user_temp_dir(env));
    push_single(&mut locations, "Windows Prefetch", get_prefetch_dir(env));
    push_single(&mut locations, "Internet Explorer Cache", get_ie_cache_dir(env));
    push_single(&mut locations, "Windows Miniaturansichten", get_thumbnails_cache_dir(env));
    push_single(&mut locations, "Windows Update Cache", get_windows_update_dir(env));
    let additional = get_additional_windows_temp_dirs(env);
    assert(additional is None ==> additional_windows_temp_dirs(*env) =~= Seq::empty());
    push_group(&mut locations, "Weitere Windows Temp", additional);
    let system = get_system_temp_dirs(env);
    assert(system is None ==> system_temp_dirs(*env) =~= Seq::empty());
    push_group(&mut locations, "System Temp", system);
    assert(location_views(locations@) =~= all_temp_locations(*env));
    locations
}

} // verus!
