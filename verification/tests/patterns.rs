use rustyclean::cleaning::{should_skip_file_advanced, CleaningOptions};
use rustyclean::pattern::{matches_pattern, wildcard_match};
use rustyclean::text::{chars_of, ends_with, eq_ignore_ascii_case, replace_all, starts_with};

fn chars(s: &str) -> Vec<char> {
    s.chars().collect()
}

#[test]
fn star_log_matches_whatever_the_case() {
    assert!(matches_pattern("report.LOG", "*.log"));
    assert!(!matches_pattern("report.txt", "*.log"));
    assert!(matches_pattern("REPORT.log", "*.LOG"));
}

#[test]
fn star_in_the_middle() {
    assert!(matches_pattern("thumbcache_32.db", "thumbcache_*.db"));
    assert!(matches_pattern("thumbcache_.db", "thumbcache_*.db"));
    assert!(!matches_pattern("thumbcache_32.dat", "thumbcache_*.db"));
    assert!(!matches_pattern("iconcache_32.db", "thumbcache_*.db"));
}

#[test]
fn empty_pattern_matches_the_empty_name_only() {
    assert!(!matches_pattern("a", ""));
    assert!(matches_pattern("", ""));
}

#[test]
fn pattern_without_star_is_equality_up_to_ascii_case() {
    assert!(matches_pattern("Desktop.INI", "desktop.ini"));
    assert!(!matches_pattern("desktop.ini.bak", "desktop.ini"));
    assert!(!matches_pattern("desktop", "desktop.ini"));
}

#[test]
fn single_star_matches_everything() {
    assert!(matches_pattern("", "*"));
    assert!(matches_pattern("anything at all", "*"));
    assert!(matches_pattern("data_0", "data_*"));
    assert!(matches_pattern("data_", "data_*"));
    assert!(!matches_pattern("dat", "data_*"));
}

#[test]
fn several_stars() {
    assert!(matches_pattern("", "**"));
    assert!(matches_pattern("abc", "**"));
    assert!(matches_pattern("a_b_c.tmp", "a*b*c.tmp"));
    assert!(matches_pattern("ab_c.tmp", "a*b*c.tmp"));
    assert!(matches_pattern("abc.tmp", "a*b*c.tmp"));
    assert!(!matches_pattern("a_c.tmp", "a*b*c.tmp"));
    assert!(matches_pattern("Cache_Data_01.BIN", "*data*.bin"));
    assert!(matches_pattern("xay", "*a*"));
    assert!(!matches_pattern("xyz", "*a*"));
    assert!(matches_pattern("aXbXc", "*a*b*c*"));
    assert!(!matches_pattern("acb", "*a*b*c*"));
    assert!(matches_pattern("log.2024.old", "log.*.*"));
    assert!(!matches_pattern("log.2024", "log.*.*"));
}

#[test]
fn wildcard_match_takes_case_as_it_is() {
    assert!(wildcard_match(&chars("abc"), &chars("a*c")));
    assert!(!wildcard_match(&chars("aBc"), &chars("a*b*c")));
    assert!(wildcard_match(&chars(""), &chars("")));
    assert!(wildcard_match(&chars(""), &chars("***")));
    assert!(!wildcard_match(&chars("a"), &chars("")));
    assert!(wildcard_match(&chars("aaab"), &chars("*a*ab")));
    assert!(!wildcard_match(&chars("aaa"), &chars("*a*ab")));
}

#[test]
fn text_helpers() {
    assert_eq!(chars_of("a\u{e4}b"), vec!['a', '\u{e4}', 'b']);
    assert!(starts_with(&chars("report.log"), &chars("report")));
    assert!(starts_with(&chars("report.log"), &chars("")));
    assert!(!starts_with(&chars("rep"), &chars("report")));
    assert!(ends_with(&chars("report.log"), &chars(".log")));
    assert!(!ends_with(&chars("report.log"), &chars(".txt")));
    assert!(eq_ignore_ascii_case(&chars("ThUmBs.Db"), &chars("thumbs.db")));
    assert!(!eq_ignore_ascii_case(&chars("\u{c4}"), &chars("\u{e4}")));
    assert_eq!(
        replace_all(&chars("%A%\\x\\%A%"), &chars("%A%"), &chars("C:\\a")),
        chars("C:\\a\\x\\C:\\a")
    );
    assert_eq!(replace_all(&chars("aaa"), &chars("aa"), &chars("b")), chars("ba"));
    assert_eq!(replace_all(&chars("abc"), &chars(""), &chars("x")), chars("abc"));
}

#[test]
fn hidden_excluded_and_protected_names_are_skipped() {
    let mut options = CleaningOptions::default();
    options.excluded_patterns = vec!["keep_*".to_string(), "*.lock".to_string()];
    assert!(should_skip_file_advanced(".hidden", "Windows Temp", &options));
    assert!(should_skip_file_advanced("keep_me.tmp", "Windows Temp", &options));
    assert!(should_skip_file_advanced("db.LOCK", "Windows Temp", &options));
    assert!(should_skip_file_advanced("setup.log", "Windows Temp", &options));
    assert!(should_skip_file_advanced("Thumbs.db", "Windows Temp", &options));
    assert!(!should_skip_file_advanced("setup.tmp", "Windows Temp", &options));
    assert!(!should_skip_file_advanced("setup.log", "Benutzer Temp", &options));
    assert!(should_skip_file_advanced("some_app_config", "Benutzer Temp", &options));
    assert!(should_skip_file_advanced("data_3", "Chrome Cache", &options));
    assert!(should_skip_file_advanced("index", "Edge Cache", &options));
    assert!(should_skip_file_advanced("x.sqlite-wal", "Firefox Cache", &options));
    assert!(should_skip_file_advanced("thumbcache_96.db", "Windows Miniaturansichten", &options));
    assert!(should_skip_file_advanced("update.cab", "Windows Update Cache", &options));
    assert!(should_skip_file_advanced("layout.ini", "Windows Prefetch", &options));
    assert!(should_skip_file_advanced("a.dat", "Internet Explorer Cache", &options));
}

#[test]
fn unknown_locations_protect_the_system_files() {
    let options = CleaningOptions::default();
    for name in [
        "desktop.ini",
        "thumbs.db",
        "ntuser.dat",
        "iconcache.db",
        "bootsect.bak",
        "pagefile.sys",
    ] {
        assert!(should_skip_file_advanced(name, "Somewhere", &options));
    }
    assert!(!should_skip_file_advanced("a.tmp", "Somewhere", &options));
    assert!(!should_skip_file_advanced("index", "Somewhere", &options));
}

#[test]
fn letters_beyond_ascii() {
    // With a star both sides are taken in lowercase by the Unicode rules.
    assert!(matches_pattern("\u{c4}RGER.LOG", "\u{e4}*.log"));
    assert!(matches_pattern("\u{e4}rger.log", "\u{c4}*.LOG"));
    // Without a star only the letters A to Z lose their case.
    assert!(!matches_pattern("\u{c4}rger", "\u{e4}rger"));
    assert!(matches_pattern("\u{e4}RGER", "\u{e4}rger"));
}
