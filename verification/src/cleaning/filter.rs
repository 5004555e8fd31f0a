//! The filter policy: which files a run keeps, and why.

use vstd::prelude::*;
use crate::cleaning::options::{CleaningOptions, OptionsView};
use crate::pattern::{matches_pattern, pattern_matches};
use crate::text::{chars_of, eq_ignore_ascii_case, equal_ignoring_ascii_case, same_text};

verus! {

/// How long ago a file was last changed.
#[derive(Clone, Copy, Debug, PartialEq, Eq, Structural)]
pub enum FileAge {
    /// So many whole seconds ago.
    SecondsAgo(u64),
    /// The file system gives a time that is yet to come.
    InFuture,
    /// The file system gives no time.
    Unknown,
}

/// The number of seconds in a day.
pub const SECONDS_PER_DAY: u64 = 86400;

/// Names that begin with a dot are hidden.
pub open spec fn is_hidden(name: Seq<char>) -> bool {
    name.len() > 0 && name[0] == '.'
}

/// `name` matches at least one of `patterns`.
pub open spec fn matches_any(name: Seq<char>, patterns: Seq<Seq<char>>) -> bool {
    exists|i: int| 0 <= i < patterns.len() && pattern_matches(name, #[trigger] patterns[i])
}

/// The names that are never deleted at a location. A location that is not
/// listed has the general list of system files.
pub open spec fn protected_patterns(location: Seq<char>) -> Seq<Seq<char>> {
    if location == "Windows Temp"@ {
        seq!["desktop.ini"@, "thumbs.db"@, "*.log"@]
    } else if location == "Benutzer Temp"@ {
        seq!["desktop.ini"@, "some_app_config"@]
    } else if location == "Windows Prefetch"@ {
        seq!["layout.ini"@, "pf.txt"@]
    } else if location == "Internet Explorer Cache"@ {
        seq!["index.dat"@, "*.dat"@]
    } else if location == "Chrome Cache"@ || location == "Edge Cache"@ || location
        == "Brave Cache"@ {
        seq!["index"@, "data_*"@]
    } else if location == "Firefox Cache"@ {
        seq!["places.sqlite"@, "cookies.sqlite"@, "*.sqlite-wal"@, "*.sqlite-shm"@]
    } else if location == "Windows Miniaturansichten"@ {
        seq!["thumbcache_*.db"@, "iconcache_*.db"@]
    } else if location == "Windows Update Cache"@ {
        seq!["*.cab"@, "*.msu"@]
    } else {
        seq![
            "desktop.ini"@,
            "thumbs.db"@,
            "ntuser.dat"@,
            "iconcache.db"@,
            "bootsect.bak"@,
            "pagefile.sys"@,
        ]
    }
}

/// A file is protected, whatever its age and size, if its name is hidden,
/// matches an excluded pattern, or matches a protected name of the location.
pub open spec fn is_protected(name: Seq<char>, location: Seq<char>, options: OptionsView)
    -> bool {
    is_hidden(name) || matches_any(name, options.excluded_patterns) || matches_any(
        name,
        protected_patterns(location),
    )
}

/// The views of a list of string slices.
pub open spec fn texts_of(items: Seq<&'static str>) -> Seq<Seq<char>> {
    items.map_values(|p: &'static str| p@)
}

/// The protected names of a location.
pub fn protected_patterns_for(location_name: &str) -> (patterns: Vec<&'static str>)
    ensures
        texts_of(patterns@) == protected_patterns(location_name@),
{
    let patterns: Vec<&'static str> = if same_text(location_name, "Windows Temp") {
        vec!["desktop.ini", "thumbs.db", "*.log"]
    } else if same_text(location_name, "Benutzer Temp") {
        vec!["desktop.ini", "some_app_config"]
    } else if same_text(location_name, "Windows Prefetch") {
        vec!["layout.ini", "pf.txt"]
    } else if same_text(location_name, "Internet Explorer Cache") {
        vec!["index.dat", "*.dat"]
    } else if same_text(location_name, "Chrome Cache") || same_text(location_name, "Edge Cache")
        || same_text(location_name, "Brave Cache") {
        vec!["index", "data_*"]
    } else if same_text(location_name, "Firefox Cache") {
        vec!["places.sqlite", "cookies.sqlite", "*.sqlite-wal", "*.sqlite-shm"]
    } else if same_text(location_name, "Windows Miniaturansichten") {
        vec!["thumbcache_*.db", "iconcache_*.db"]
    } else if same_text(location_name, "Windows Update Cache") {
        vec!["*.cab", "*.msu"]
    } else {
        vec!["desktop.ini", "thumbs.db", "ntuser.dat", "iconcache.db", "bootsect.bak", "pagefile.sys"]
    };
    assert(texts_of(patterns@) =~= protected_patterns(location_name@));
    patterns
}

/// Whether the file named `file_name` is protected at the location.
pub fn should_skip_file_advanced(
    file_name: &str,
    location_name: &str,
    options: &CleaningOptions,
) -> (skip: bool)
    ensures
        skip == is_protected(file_name@, location_name@, options@),
{
    let name = chars_of(file_name);
    if name.len() > 0 && name[0] == '.' {
        return true;
    }
    let ghost excluded = options@.excluded_patterns;
    let mut i: usize = 0;
    while i < options.excluded_patterns.len()
        invariant
            i <= options.excluded_patterns.len(),
            excluded == options@.excluded_patterns,
            forall|k: int| 0 <= k < i ==> !pattern_matches(file_name@, #[trigger] excluded[k]),
        decreases options.excluded_patterns.len() - i,
    {
        if matches_pattern(file_name, options.excluded_patterns[i].as_str()) {
            assert(pattern_matches(file_name@, excluded[i as int]));
            return true;
        }
        i += 1;
    }
    let protected = protected_patterns_for(location_name);
    let ghost listed = protected_patterns(location_name@);
    let mut j: usize = 0;
    while j < protected.len()
        invariant
            j <= protected.len(),
            listed == protected_patterns(location_name@),
            texts_of(protected@) == listed,
            forall|k: int| 0 <= k < j ==> !pattern_matches(file_name@, #[trigger] listed[k]),
        decreases protected.len() - j,
    {
        assert(texts_of(protected@)[j as int] == protected@[j as int]@);
        if matches_pattern(file_name, protected[j]) {
            assert(pattern_matches(file_name@, listed[j as int]));
            return true;
        }
        j += 1;
    }
    false
}

/// The position of the last `c` in `text`, or -1 where there is none.
pub open spec fn last_index(text: Seq<char>, c: char) -> int
    decreases text.len(),
{
    if text.len() == 0 {
        -1
    } else if text.last() == c {
        text.len() - 1
    } else {
        last_index(text.drop_last(), c)
    }
}

/// The extension of a file name: what follows its last dot. A name without
/// a dot has none, nor has a name whose only dot is its first character, nor
/// has the name `..`.
pub open spec fn extension_of(name: Seq<char>) -> Option<Seq<char>> {
    let dot = last_index(name, '.');
    if dot <= 0 || name == seq!['.', '.'] {
        None
    } else {
        Some(name.skip(dot + 1))
    }
}

/// The extension of `name`, if it has one.
pub fn extension(name: &Vec<char>) -> (ext: Option<Vec<char>>)
    ensures
        match ext {
            Some(e) => extension_of(name@) == Some(e@),
            None => extension_of(name@) is None,
        },
{
    let n = name.len();
    let mut i: usize = n;
    proof {
        assert(name@.take(n as int) =~= name@);
    }
    while i > 0 && name[i - 1] != '.'
        invariant
            i <= n,
            n == name.len(),
            last_index(name@, '.') == last_index(name@.take(i as int), '.'),
        decreases i,
    {
        proof {
            assert(name@.take(i as int).drop_last() =~= name@.take(i - 1));
        }
        i -= 1;
    }
    proof {
        assert(name@.take(n as int) =~= name@);
        if i > 0 {
            assert(name@.take(i as int).last() == '.');
        }
    }
    // A dot stands at i - 1, or there is none and i is 0.
    if i <= 1 {
        return None;
    }
    if n == 2 && name[0] == '.' && name[1] == '.' {
        assert(name@ =~= seq!['.', '.']);
        return None;
    }
    let mut ext: Vec<char> = Vec::new();
    let mut k: usize = i;
    while k < n
        invariant
            i <= k <= n,
            n == name.len(),
            ext@ == name@.subrange(i as int, k as int),
        decreases n - k,
    {
        ext.push(name[k]);
        assert(ext@ =~= name@.subrange(i as int, k + 1));
        k += 1;
    }
    proof {
        assert(name@.subrange(i as int, n as int) =~= name@.skip(i as int));
        if name@ == seq!['.', '.'] {
            assert(name@.len() == 2 && name@[0] == '.' && name@[1] == '.');
        }
    }
    Some(ext)
}

/// Where target extensions are set, a file is wanted only if its name has an
/// extension that equals one of them up to the case of ASCII letters.
pub open spec fn extension_wanted(name: Seq<char>, options: OptionsView) -> bool {
    options.target_extensions matches Some(targets) ==> extension_of(name) is Some && exists|
        i: int,
    |
        0 <= i < targets.len() && equal_ignoring_ascii_case(
            #[trigger] targets[i],
            extension_of(name)->0,
        )
}

/// Whether the extension filter lets a file of this name through.
pub fn has_wanted_extension(file_name: &str, options: &CleaningOptions) -> (wanted: bool)
    ensures
        wanted == extension_wanted(file_name@, options@),
{
    match &options.target_extensions {
        None => true,
        Some(extensions) => {
            let name = chars_of(file_name);
            match extension(&name) {
                None => false,
                Some(ext) => {
                    let ghost targets = options@.target_extensions->0;
                    let mut i: usize = 0;
                    while i < extensions.len()
                        invariant
                            i <= extensions.len(),
                            options.target_extensions == Some(*extensions),
                            targets == options@.target_extensions->0,
                            extension_of(file_name@) == Some(ext@),
                            forall|k: int|
                                0 <= k < i ==> !equal_ignoring_ascii_case(
                                    #[trigger] targets[k],
                                    ext@,
                                ),
                        decreases extensions.len() - i,
                    {
                        let candidate = chars_of(extensions[i].as_str());
                        assert(targets[i as int] == candidate@);
                        if eq_ignore_ascii_case(&candidate, &ext) {
                            assert(equal_ignoring_ascii_case(targets[i as int], ext@));
                            return true;
                        }
                        i += 1;
                    }
                    false
                },
            }
        },
    }
}

/// The size limits let a file of `size` bytes through; a limit of 0 is no limit.
pub open spec fn size_allowed(size: u64, options: OptionsView) -> bool {
    &&& options.max_file_size > 0 ==> size <= options.max_file_size
    &&& options.min_file_size > 0 ==> size >= options.min_file_size
}

/// Whether the size limits let a file of `size` bytes through.
pub fn is_size_allowed(size: u64, options: &CleaningOptions) -> (allowed: bool)
    ensures
        allowed == size_allowed(size, options@),
{
    !(options.max_file_size > 0 && size > options.max_file_size) && !(options.min_file_size > 0
        && size < options.min_file_size)
}

/// A file is old enough if it was last changed at least `days` days ago. A
/// file whose time of change is unknown or yet to come is never old enough.
pub open spec fn old_enough(age: FileAge, days: u64) -> bool {
    age matches FileAge::SecondsAgo(seconds) && seconds >= days * SECONDS_PER_DAY
}

/// Whether a file of this age was last changed at least `days` days ago.
pub fn is_file_older_than_days(age: FileAge, days: u64) -> (older: bool)
    ensures
        older == old_enough(age, days),
{
    match age {
        FileAge::SecondsAgo(seconds) => {
            let whole_days = seconds / SECONDS_PER_DAY;
            assert(whole_days >= days <==> seconds >= days * SECONDS_PER_DAY) by (nonlinear_arith)
                requires
                    whole_days == seconds / 86400,
                    SECONDS_PER_DAY == 86400,
            ;
            whole_days >= days
        },
        FileAge::InFuture => false,
        FileAge::Unknown => false,
    }
}

} // verus!
