//! The cleaning engine: where to look, what to keep, what to delete, and the
//! record of what was done.

pub mod browsers;
pub mod deeds;
pub mod dry_run;
pub mod emptied;
pub mod engine;
pub mod error;
pub mod filter;
pub mod format;
pub mod host;
pub mod laws;
pub mod locations;
pub mod options;
pub mod remains;
pub mod run;
pub mod summary;

pub use self::browsers::{
    expand_environment_path, firefox_profiles_dir, get_browser_cache_info,
    get_firefox_profile_paths, wildcard_parent, BrowserCacheInfo,
};
pub use self::engine::{
    clean_directory_advanced, is_eligible, process_file, remove_empty_directories_safe,
};
pub use self::error::{
    classify_io_error, is_file_in_use_error, CleaningError, IoErrorKind, IoFailure,
};
pub use self::filter::{is_file_older_than_days, should_skip_file_advanced, FileAge};
pub use self::format::format_bytes;
pub use self::host::{is_directory_empty, DirNode, Entry, FileMeta, FileNode, Host, Listing};
pub use self::locations::{get_all_temp_locations, join, Environment, TempLocation};
pub use self::options::CleaningOptions;
pub use self::run::{clean_browser_caches, clean_temp_files, clean_temp_files_with_options};
pub use self::summary::{CleaningSummary, LocationSummary};
pub use crate::pattern::matches_pattern;
