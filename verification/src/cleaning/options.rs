//! What a run is asked to do.

use vstd::prelude::*;

verus! {

/// The settings of one run. A run only reads them.
#[derive(Debug, Clone)]
pub struct CleaningOptions {
    /// A file is deleted only if it was last changed at least this many days ago.
    pub min_file_age_days: u64,
    /// Whether subdirectories are cleaned too.
    pub recursive: bool,
    /// Whether directories that are empty after cleaning are removed.
    pub remove_empty_dirs: bool,
    /// Where set, only files with one of these extensions are deleted.
    pub target_extensions: Option<Vec<String>>,
    /// The number of files after which a run deletes no more (0: no limit).
    pub max_files: usize,
    /// Files larger than this many bytes are kept (0: no limit).
    pub max_file_size: u64,
    /// Files smaller than this many bytes are kept (0: no limit).
    pub min_file_size: u64,
    /// Files whose name matches one of these patterns are kept.
    pub excluded_patterns: Vec<String>,
    /// Whether the caller wants progress to be reported.
    pub verbose: bool,
    /// Whether the run only counts what it would delete.
    pub dry_run: bool,
}

/// `CleaningOptions` with its lists as sequences of texts.
pub struct OptionsView {
    pub min_file_age_days: u64,
    pub recursive: bool,
    pub remove_empty_dirs: bool,
    pub target_extensions: Option<Seq<Seq<char>>>,
    pub max_files: usize,
    pub max_file_size: u64,
    pub min_file_size: u64,
    pub excluded_patterns: Seq<Seq<char>>,
    pub verbose: bool,
    pub dry_run: bool,
}

impl View for CleaningOptions {
    type V = OptionsView;

    open spec fn view(&self) -> OptionsView {
        OptionsView {
            min_file_age_days: self.min_file_age_days,
            recursive: self.recursive,
            remove_empty_dirs: self.remove_empty_dirs,
            target_extensions: match self.target_extensions {
                Some(extensions) => Some(extensions@.map_values(|e: String| e@)),
                None => None,
            },
            max_files: self.max_files,
            max_file_size: self.max_file_size,
            min_file_size: self.min_file_size,
            excluded_patterns: self.excluded_patterns@.map_values(|p: String| p@),
            verbose: self.verbose,
            dry_run: self.dry_run,
        }
    }
}

/// The options of a run that nobody has set: files older than one day,
/// subdirectories included, empty directories removed, no limits, nothing
/// excluded, and no dry run.
pub open spec fn default_options() -> OptionsView {
    OptionsView {
        min_file_age_days: 1,
        recursive: true,
        remove_empty_dirs: true,
        target_extensions: None,
        max_files: 0,
        max_file_size: 0,
        min_file_size: 0,
        excluded_patterns: Seq::empty(),
        verbose: false,
        dry_run: false,
    }
}

impl Default for CleaningOptions {
    /// The options of a run that nobody has set.
    fn default() -> (options: Self)
        ensures
            options@ == default_options(),
    {
        let options = CleaningOptions {
            min_file_age_days: 1,
            recursive: true,
            remove_empty_dirs: true,
            target_extensions: None,
            max_files: 0,
            max_file_size: 0,
            min_file_size: 0,
            excluded_patterns: Vec::new(),
            verbose: false,
            dry_run: false,
        };
        assert(options@.excluded_patterns =~= Seq::empty());
        options
    }
}

} // verus!
