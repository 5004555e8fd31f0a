use rustyclean::cleaning::{
    clean_browser_caches, clean_temp_files, clean_temp_files_with_options,
    expand_environment_path, firefox_profiles_dir, get_all_temp_locations,
    get_browser_cache_info, get_firefox_profile_paths, join, wildcard_parent, CleaningOptions,
    CleaningSummary, DirNode, Entry, Environment, FileAge, FileMeta, FileNode, Host, Listing,
};

const DAY: u64 = 86400;

fn env() -> Environment {
    Environment {
        system_root: Some("C:\\Windows".to_string()),
        system_drive: Some("C:".to_string()),
        temp: Some("C:\\Users\\u\\AppData\\Local\\Temp".to_string()),
        local_app_data: Some("C:\\Users\\u\\AppData\\Local".to_string()),
        app_data: Some("C:\\Users\\u\\AppData\\Roaming".to_string()),
        user_profile: Some("C:\\Users\\u".to_string()),
    }
}

fn no_env() -> Environment {
    Environment {
        system_root: None,
        system_drive: None,
        temp: None,
        local_app_data: None,
        app_data: None,
        user_profile: None,
    }
}

fn file(dir: &str, name: &str, size: u64, days: u64) -> Entry {
    Entry::File(FileNode {
        name: name.to_string(),
        path: format!("{}\\{}", dir, name),
        metadata: Ok(FileMeta { size, age: FileAge::SecondsAgo(days * DAY) }),
        removal: None,
        removed: false,
    })
}

fn dir(path: &str, entries: Vec<Entry>) -> DirNode {
    DirNode {
        path: path.to_string(),
        listing: Listing::Entries(entries),
        removal: None,
        removed: false,
    }
}

fn host() -> Host {
    let temp = "C:\\Users\\u\\AppData\\Local\\Temp";
    let win = "C:\\Windows\\Temp";
    let chrome = "C:\\Users\\u\\AppData\\Local\\Google\\Chrome\\User Data\\Default\\Cache";
    let profiles = "C:\\Users\\u\\AppData\\Roaming\\Mozilla\\Firefox\\Profiles";
    let fox = "C:\\Users\\u\\AppData\\Roaming\\Mozilla\\Firefox\\Profiles\\abc.default\\cache2";
    Host {
        env: env(),
        roots: vec![
            dir(
                win,
                vec![
                    file(win, "setup.log", 1000, 10),
                    file(win, "old.tmp", 200, 10),
                    file(win, "new.tmp", 30, 0),
                ],
            ),
            dir(
                temp,
                vec![
                    file(temp, "a.tmp", 10, 2),
                    Entry::Dir(dir(
                        "C:\\Users\\u\\AppData\\Local\\Temp\\sub",
                        vec![file("C:\\Users\\u\\AppData\\Local\\Temp\\sub", "b.tmp", 5, 3)],
                    )),
                ],
            ),
            dir(chrome, vec![file(chrome, "data_1", 64, 9), file(chrome, "f_0001", 4096, 9)]),
            dir(
                profiles,
                vec![
                    file(profiles, "notes.txt", 1, 1),
                    Entry::Dir(dir(
                        "C:\\Users\\u\\AppData\\Roaming\\Mozilla\\Firefox\\Profiles\\abc.default",
                        vec![],
                    )),
                ],
            ),
            dir(fox, vec![file(fox, "entries.bin", 7, 4)]),
            DirNode {
                path: "C:\\Windows\\Prefetch".to_string(),
                listing: Listing::NotADirectory,
                removal: None,
                removed: false,
            },
        ],
    }
}

fn location<'a>(summary: &'a CleaningSummary, name: &str) -> Option<(usize, u64, usize, usize)> {
    summary
        .cleaned_locations
        .iter()
        .find(|l| l.location_name == name)
        .map(|l| (l.deleted_files, l.total_size, l.errors, l.skipped_files))
}

#[test]
fn fixed_locations_in_order() {
    let locations = get_all_temp_locations(&env());
    let names: Vec<&str> = locations.iter().map(|l| l.name.as_str()).collect();
    assert_eq!(
        names,
        vec![
            "Windows Temp",
            "Benutzer Temp",
            "Windows Prefetch",
            "Internet Explorer Cache",
            "Windows Miniaturansichten",
            "Windows Update Cache",
            "Weitere Windows Temp",
            "System Temp",
        ]
    );
    assert_eq!(locations[0].paths, vec!["C:\\Windows\\Temp"]);
    assert_eq!(locations[1].paths, vec!["C:\\Users\\u\\AppData\\Local\\Temp"]);
    assert_eq!(locations[2].paths, vec!["C:\\Windows\\Prefetch"]);
    assert_eq!(
        locations[3].paths,
        vec!["C:\\Users\\u\\AppData\\Local\\Microsoft\\Windows\\Temporary Internet Files"]
    );
    assert_eq!(
        locations[4].paths,
        vec!["C:\\Users\\u\\AppData\\Local\\Microsoft\\Windows\\Explorer"]
    );
    assert_eq!(locations[5].paths, vec!["C:\\Windows\\SoftwareDistribution\\Download"]);
    assert_eq!(
        locations[6].paths,
        vec![
            "C:\\Windows\\Installer\\$PatchCache$",
            "C:\\Windows\\SoftwareDistribution\\DataStore",
            "C:\\Windows\\Logs",
            "C:\\inetpub\\logs",
        ]
    );
    assert_eq!(
        locations[7].paths,
        vec![
            "C:\\Users\\u\\AppData\\Local\\Temp",
            "C:\\Users\\u\\AppData\\Local\\Microsoft\\Windows\\INetCache",
            "C:\\Users\\u\\AppData\\Local\\Microsoft\\Windows\\WebCache",
            "C:\\Users\\u\\AppData\\Roaming\\Microsoft\\Windows\\Recent",
        ]
    );
}

#[test]
fn locations_without_their_variable_are_left_out() {
    assert!(get_all_temp_locations(&no_env()).is_empty());
    let mut only_drive = no_env();
    only_drive.system_drive = Some("D:\\".to_string());
    let locations = get_all_temp_locations(&only_drive);
    assert_eq!(locations.len(), 1);
    assert_eq!(locations[0].name, "Weitere Windows Temp");
    assert_eq!(locations[0].paths, vec!["D:\\inetpub\\logs"]);
    let mut only_temp = no_env();
    only_temp.temp = Some("T:\\tmp".to_string());
    let locations = get_all_temp_locations(&only_temp);
    assert_eq!(locations.len(), 1);
    assert_eq!(locations[0].name, "Benutzer Temp");
    assert_eq!(locations[0].paths, vec!["T:\\tmp"]);
}

#[test]
fn templates_are_expanded() {
    let h = host();
    assert_eq!(
        expand_environment_path("%LOCALAPPDATA%\\Vivaldi\\User Data\\Default", &h),
        Some("C:\\Users\\u\\AppData\\Local\\Vivaldi\\User Data\\Default".to_string())
    );
    assert_eq!(
        expand_environment_path("%APPDATA%\\Opera Software\\Opera Stable", &h),
        Some("C:\\Users\\u\\AppData\\Roaming\\Opera Software\\Opera Stable".to_string())
    );
    assert_eq!(
        expand_environment_path("%USERPROFILE%\\x\\%USERPROFILE%", &h),
        Some("C:\\Users\\u\\x\\C:\\Users\\u".to_string())
    );
    assert_eq!(
        expand_environment_path("%APPDATA%\\Mozilla\\Firefox\\Profiles\\*", &h),
        Some("C:\\Users\\u\\AppData\\Roaming\\Mozilla\\Firefox\\Profiles\\abc.default".to_string())
    );
    assert_eq!(expand_environment_path("%APPDATA%\\Nothing\\*", &h), None);
    assert_eq!(expand_environment_path("C:\\Windows\\Temp\\*", &h), None);
    let bare = Host { env: no_env(), roots: vec![] };
    assert_eq!(
        expand_environment_path("%APPDATA%\\x", &bare),
        Some("%APPDATA%\\x".to_string())
    );
    assert_eq!(expand_environment_path("%APPDATA%\\x\\*", &bare), None);
}

#[test]
fn browsers_and_their_profiles() {
    let h = host();
    assert_eq!(
        get_firefox_profile_paths(&h),
        vec!["C:\\Users\\u\\AppData\\Roaming\\Mozilla\\Firefox\\Profiles\\abc.default"]
    );
    let bare = Host { env: env(), roots: vec![] };
    assert_eq!(
        get_firefox_profile_paths(&bare),
        vec!["%APPDATA%\\Mozilla\\Firefox\\Profiles\\*"]
    );
    let browsers = get_browser_cache_info(&h);
    let names: Vec<&str> = browsers.iter().map(|b| b.name.as_str()).collect();
    assert_eq!(
        names,
        vec![
            "Chrome Cache",
            "Firefox Cache",
            "Edge Cache",
            "Brave Cache",
            "Opera Cache",
            "Vivaldi Cache",
        ]
    );
    assert_eq!(browsers[0].base_paths.len(), 3);
    assert_eq!(
        browsers[0].cache_subdirs,
        vec!["Cache", "GPUCache", "Code Cache", "Service Worker\\CacheStorage"]
    );
    assert_eq!(
        browsers[1].base_paths,
        vec!["C:\\Users\\u\\AppData\\Roaming\\Mozilla\\Firefox\\Profiles\\abc.default"]
    );
    assert_eq!(
        browsers[1].cache_subdirs,
        vec!["cache2", "startupCache", "OfflineCache", "thumbnails"]
    );
    assert_eq!(
        browsers[4].base_paths,
        vec![
            "%APPDATA%\\Opera Software\\Opera Stable",
            "%APPDATA%\\Opera Software\\Opera GX Stable",
        ]
    );
    assert_eq!(browsers[5].cache_subdirs, vec!["Cache", "GPUCache", "Code Cache"]);
}

#[test]
fn a_whole_run() {
    let mut h = host();
    let summary = clean_temp_files(&mut h).unwrap();
    // old.tmp; a.tmp and b.tmp; f_0001; entries.bin
    assert_eq!(summary.deleted_files, 5);
    assert_eq!(summary.total_size, 200 + 10 + 5 + 4096 + 7);
    // setup.log and new.tmp; data_1
    assert_eq!(summary.skipped_files, 3);
    assert_eq!(summary.empty_dirs_removed, 1);
    let errors: Vec<String> = summary.errors.iter().map(|e| e.message()).collect();
    assert_eq!(
        errors,
        vec![
            "Verzeichnis nicht gefunden: C:\\Windows\\Prefetch"
        ]
    );
    assert_eq!(location(&summary, "Windows Temp"), Some((1, 200, 0, 2)));
    assert_eq!(location(&summary, "Benutzer Temp"), Some((2, 15, 0, 0)));
    assert_eq!(location(&summary, "Windows Prefetch"), Some((0, 0, 1, 0)));
    // The same directory again, now without anything to do.
    assert_eq!(location(&summary, "System Temp"), None);
    assert_eq!(location(&summary, "Windows Update Cache"), None);
    assert_eq!(location(&summary, "Chrome Cache"), Some((1, 4096, 0, 1)));
    assert_eq!(location(&summary, "Firefox Cache"), Some((1, 7, 0, 0)));
    assert_eq!(summary.cleaned_locations.len(), 5);
    assert_eq!(summary.processing_time_ms, 0);
    assert_eq!(summary.formatted_size(), "4.22 KB");
}

#[test]
fn a_whole_dry_run_twice() {
    let mut options = CleaningOptions::default();
    options.dry_run = true;
    let mut h = host();
    let first = clean_temp_files_with_options(options.clone(), &mut h).unwrap();
    assert_eq!(format!("{:?}", h), format!("{:?}", host()));
    let second = clean_temp_files_with_options(options, &mut h).unwrap();
    assert_eq!(format!("{:?}", h), format!("{:?}", host()));
    assert_eq!(format!("{:?}", first), format!("{:?}", second));
    // A dry run counts what the run counts.
    let mut taken = host();
    let done = clean_temp_files(&mut taken).unwrap();
    assert_eq!(format!("{:?}", first), format!("{:?}", done));
    assert_eq!(first.deleted_files, 5);
    assert_eq!(first.total_size, 200 + 15 + 4096 + 7);
    assert_eq!(first.empty_dirs_removed, 1);
    assert_eq!(location(&first, "System Temp"), None);
}

#[test]
fn a_run_on_nothing() {
    let mut bare = Host { env: no_env(), roots: vec![] };
    let summary = clean_temp_files(&mut bare).unwrap();
    assert_eq!(summary.deleted_files, 0);
    assert_eq!(summary.skipped_files, 0);
    assert_eq!(summary.errors.len(), 0);
    assert!(summary.cleaned_locations.is_empty());
    assert_eq!(summary.success_rate_percent(), 100);
}

#[test]
fn browser_caches_in_a_dry_run() {
    let mut options = CleaningOptions::default();
    options.dry_run = true;
    let mut h = host();
    let mut summary = CleaningSummary::new();
    assert_eq!(clean_browser_caches(&mut summary, &options, &mut h), Ok(()));
    assert_eq!(summary.deleted_files, 2);
    assert_eq!(location(&summary, "Chrome Cache"), Some((1, 4096, 0, 1)));
    assert_eq!(format!("{:?}", h), format!("{:?}", host()));
}

#[test]
fn browser_caches_alone() {
    let mut h = host();
    let mut summary = CleaningSummary::new();
    summary.add_location_data("Chrome Cache", 9, 9, 9, 9);
    let result = clean_browser_caches(&mut summary, &CleaningOptions::default(), &mut h);
    assert_eq!(result, Ok(()));
    assert_eq!(summary.deleted_files, 2);
    assert_eq!(location(&summary, "Chrome Cache"), Some((1, 4096, 0, 1)));
    assert_eq!(location(&summary, "Firefox Cache"), Some((1, 7, 0, 0)));
    assert_eq!(summary.cleaned_locations.len(), 2);
}

#[test]
fn a_location_entered_twice_is_replaced() {
    let mut summary = CleaningSummary::new();
    summary.add_location_data("A", 1, 10, 0, 2);
    summary.add_location_data("B", 2, 20, 1, 0);
    summary.add_location_data("A", 5, 50, 3, 4);
    assert_eq!(summary.cleaned_locations.len(), 2);
    assert_eq!(location(&summary, "A"), Some((5, 50, 3, 4)));
    assert_eq!(location(&summary, "B"), Some((2, 20, 1, 0)));
    assert_eq!(summary.cleaned_locations[0].location_name, "A");
    assert_eq!(summary.deleted_files, 0);
    assert_eq!(summary.total_size, 0);
}

#[test]
fn where_wildcards_and_profiles_are_looked_up() {
    assert_eq!(
        firefox_profiles_dir(&env()),
        Some("C:\\Users\\u\\AppData\\Roaming\\Mozilla\\Firefox\\Profiles".to_string())
    );
    assert_eq!(firefox_profiles_dir(&no_env()), None);
    assert_eq!(
        wildcard_parent("%APPDATA%\\Mozilla\\Firefox\\Profiles\\*", &env()),
        Some("C:\\Users\\u\\AppData\\Roaming\\Mozilla\\Firefox\\Profiles".to_string())
    );
    assert_eq!(wildcard_parent("%APPDATA%\\Mozilla", &env()), None);
    assert_eq!(wildcard_parent("a\\*\\b\\*", &no_env()), Some("a\\b".to_string()));
    assert_eq!(wildcard_parent("a*", &no_env()), Some("a*".to_string()));
    assert_eq!(join("C:\\a", "b"), "C:\\a\\b");
    assert_eq!(join("C:\\a\\", "b"), "C:\\a\\b");
    assert_eq!(join("C:/a/", "b"), "C:/a/b");
    assert_eq!(join("", "b"), "b");
    assert_eq!(join("C:", "b\\c"), "C:\\b\\c");
}
