//! The part of a file system that a run looks at, as plain values.
//!
//! A directory is held with everything below it. What a run deletes it marks
//! as removed; an entry that is marked counts as absent from then on.

use vstd::prelude::*;
use crate::cleaning::error::IoFailure;
use crate::cleaning::filter::FileAge;
use crate::cleaning::locations::Environment;
use crate::text::same_text;

verus! {

/// What the file system tells about a file.
#[derive(Clone, Copy, Debug)]
pub struct FileMeta {
    /// The size in bytes.
    pub size: u64,
    /// How long ago the file was last changed.
    pub age: FileAge,
}

/// A file in a directory.
#[derive(Debug)]
pub struct FileNode {
    /// The file's name, empty where the name is no valid text.
    pub name: String,
    /// The file's full path.
    pub path: String,
    /// The file's metadata, or the failure where it cannot be read.
    pub metadata: Result<FileMeta, IoFailure>,
    /// How an attempt to delete the file ends: `None` where it succeeds.
    pub removal: Option<IoFailure>,
    /// Whether the file was deleted.
    pub removed: bool,
}

impl Clone for FileNode {
    fn clone(&self) -> (copy: Self)
        ensures
            copy == *self,
    {
        FileNode {
            name: self.name.clone(),
            path: self.path.clone(),
            metadata: match &self.metadata {
                Ok(meta) => Ok(*meta),
                Err(failure) => Err(failure.clone()),
            },
            removal: match &self.removal {
                Some(failure) => Some(failure.clone()),
                None => None,
            },
            removed: self.removed,
        }
    }
}

/// What a directory holds under one name.
#[derive(Debug)]
pub enum Entry {
    /// An entry that could not be read, with the failure.
    Unreadable(IoFailure),
    File(FileNode),
    Dir(DirNode),
    /// A symbolic link to a directory, with the link's path.
    DirLink(String),
    /// Anything else, with its path.
    Other(String),
}

/// What reading a directory gives.
#[derive(Debug)]
pub enum Listing {
    /// The path names no directory.
    NotADirectory,
    /// The directory cannot be read; the failure.
    Unreadable(IoFailure),
    /// The entries, in the order in which the system gives them.
    Entries(Vec<Entry>),
}

/// A directory with all that lies below it.
#[derive(Debug)]
pub struct DirNode {
    /// The directory's full path.
    pub path: String,
    pub listing: Listing,
    /// How an attempt to remove the empty directory ends: `None` where it succeeds.
    pub removal: Option<IoFailure>,
    /// Whether the directory was removed.
    pub removed: bool,
}

/// An `Entry` with what lies below it as sequences.
pub enum EntryView {
    Unreadable(IoFailure),
    File(FileNode),
    Dir(DirView),
    DirLink(String),
    Other(String),
}

/// A `Listing` with its entries as a sequence.
pub enum ListingView {
    NotADirectory,
    Unreadable(IoFailure),
    Entries(Seq<EntryView>),
}

/// A `DirNode` with what lies below it as sequences.
pub struct DirView {
    pub path: String,
    pub listing: ListingView,
    pub removal: Option<IoFailure>,
    pub removed: bool,
}

/// The views of a list of entries, in order.
pub open spec fn entry_views(entries: Seq<Entry>) -> Seq<EntryView>
    decreases entries,
{
    Seq::new(
        entries.len(),
        |i: int|
            if 0 <= i < entries.len() {
                entries[i]@
            } else {
                arbitrary()
            },
    )
}

impl View for Entry {
    type V = EntryView;

    open spec fn view(&self) -> EntryView
        decreases self,
    {
        match *self {
            Entry::Unreadable(failure) => EntryView::Unreadable(failure),
            Entry::File(file) => EntryView::File(file),
            Entry::Dir(dir) => EntryView::Dir(dir@),
            Entry::DirLink(path) => EntryView::DirLink(path),
            Entry::Other(path) => EntryView::Other(path),
        }
    }
}

impl View for Listing {
    type V = ListingView;

    open spec fn view(&self) -> ListingView
        decreases self,
    {
        match *self {
            Listing::NotADirectory => ListingView::NotADirectory,
            Listing::Unreadable(failure) => ListingView::Unreadable(failure),
            Listing::Entries(entries) => ListingView::Entries(entry_views(entries@)),
        }
    }
}

impl View for DirNode {
    type V = DirView;

    open spec fn view(&self) -> DirView
        decreases self,
    {
        DirView {
            path: self.path,
            listing: self.listing@,
            removal: self.removal,
            removed: self.removed,
        }
    }
}

/// An entry that is absent: a file that was deleted or a directory that was
/// removed.
pub open spec fn is_absent(entry: EntryView) -> bool {
    match entry {
        EntryView::File(file) => file.removed,
        EntryView::Dir(dir) => dir.removed,
        _ => false,
    }
}

/// A directory is empty if it can be read and every entry in it is absent.
pub open spec fn is_empty_dir(dir: DirView) -> bool {
    dir.listing matches ListingView::Entries(entries) && forall|i: int|
        0 <= i < entries.len() ==> is_absent(#[trigger] entries[i])
}

/// Whether `entry` is absent.
pub fn entry_is_absent(entry: &Entry) -> (absent: bool)
    ensures
        absent == is_absent(entry@),
{
    match entry {
        Entry::File(file) => file.removed,
        Entry::Dir(dir) => dir.removed,
        _ => false,
    }
}

/// Whether `dir` can be read and holds nothing.
pub fn is_directory_empty(dir: &DirNode) -> (empty: bool)
    ensures
        empty == is_empty_dir(dir@),
{
    match &dir.listing {
        Listing::Entries(entries) => {
            let mut i: usize = 0;
            while i < entries.len()
                invariant
                    i <= entries.len(),
                    dir@.listing == ListingView::Entries(entry_views(entries@)),
                    forall|k: int| 0 <= k < i ==> is_absent(#[trigger] entry_views(entries@)[k]),
                decreases entries.len() - i,
            {
                if !entry_is_absent(&entries[i]) {
                    proof {
                        let views = entry_views(entries@);
                        assert(0 <= i < views.len() && !is_absent(views[i as int]));
                        assert(dir@.listing->Entries_0 == views);
                    }
                    return false;
                }
                i += 1;
            }
            true
        },
        _ => false,
    }
}

impl DirNode {
    /// A copy of the directory and of all that lies below it.
    pub fn duplicate(&self) -> (copy: DirNode)
        ensures
            copy@ == self@,
        decreases self,
    {
        let listing = match &self.listing {
            Listing::NotADirectory => Listing::NotADirectory,
            Listing::Unreadable(failure) => Listing::Unreadable(failure.clone()),
            Listing::Entries(entries) => {
                let mut copies: Vec<Entry> = Vec::new();
                let mut i: usize = 0;
                while i < entries.len()
                    invariant
                        i <= entries.len(),
                        self.listing is Entries,
                        self.listing->Entries_0@ == entries@,
                        copies@.len() == i,
                        forall|k: int| 0 <= k < i ==> (#[trigger] copies@[k])@ == entries@[k]@,
                    decreases entries.len() - i,
                {
                    proof {
                        let listed = self.listing->Entries_0;
                        assert(decreases_to!(*self => self.listing));
                        assert(decreases_to!(self.listing => listed));
                        assert(decreases_to!(listed => listed@[i as int]));
                    }
                    let copy = match &entries[i] {
                        Entry::Unreadable(failure) => Entry::Unreadable(failure.clone()),
                        Entry::File(file) => Entry::File(file.clone()),
                        Entry::Dir(sub) => {
                            assert(decreases_to!(entries@[i as int] => *sub));
                            Entry::Dir(sub.duplicate())
                        },
                        Entry::DirLink(path) => Entry::DirLink(path.clone()),
                        Entry::Other(path) => Entry::Other(path.clone()),
                    };
                    copies.push(copy);
                    i += 1;
                }
                assert(entry_views(copies@) =~= entry_views(entries@));
                Listing::Entries(copies)
            },
        };
        DirNode {
            path: self.path.clone(),
            listing,
            removal: match &self.removal {
                Some(failure) => Some(failure.clone()),
                None => None,
            },
            removed: self.removed,
        }
    }
}

/// The entry as a dry run takes it: nothing in it resists deletion.
pub open spec fn unhindered_entry(entry: EntryView) -> EntryView
    decreases entry,
{
    match entry {
        EntryView::File(file) => EntryView::File(FileNode { removal: None, ..file }),
        EntryView::Dir(dir) => EntryView::Dir(unhindered(dir)),
        _ => entry,
    }
}

/// The entries as a dry run takes them.
pub open spec fn unhindered_entries(entries: Seq<EntryView>) -> Seq<EntryView>
    decreases entries,
{
    Seq::new(
        entries.len(),
        |i: int|
            if 0 <= i < entries.len() {
                unhindered_entry(entries[i])
            } else {
                arbitrary()
            },
    )
}

/// The directory as a dry run takes it: the same directory, in which every
/// deletion and every removal succeeds. A dry run attempts nothing, so
/// nothing can fail in it.
pub open spec fn unhindered(dir: DirView) -> DirView
    decreases dir,
{
    DirView {
        listing: match dir.listing {
            ListingView::Entries(entries) => ListingView::Entries(unhindered_entries(entries)),
            other => other,
        },
        removal: None,
        ..dir
    }
}

/// The directories as a dry run takes them.
pub open spec fn unhindered_all(dirs: Seq<DirView>) -> Seq<DirView> {
    dirs.map_values(|d: DirView| unhindered(d))
}

/// Nothing in the entry resists deletion.
pub open spec fn faultless_entry(entry: EntryView) -> bool
    decreases entry,
{
    match entry {
        EntryView::File(file) => file.removal is None,
        EntryView::Dir(dir) => faultless(dir),
        _ => true,
    }
}

/// Neither the directory nor anything below it resists deletion.
pub open spec fn faultless(dir: DirView) -> bool
    decreases dir,
{
    &&& dir.removal is None
    &&& dir.listing matches ListingView::Entries(entries) ==> forall|i: int|
        0 <= i < entries.len() ==> faultless_entry(#[trigger] entries[i])
}

/// Where nothing resists deletion, a dry run takes the entry as it is.
pub proof fn lemma_unhindered_entry_of_faultless(entry: EntryView)
    requires
        faultless_entry(entry),
    ensures
        unhindered_entry(entry) == entry,
    decreases entry,
{
    match entry {
        EntryView::Dir(dir) => {
            lemma_unhindered_of_faultless(dir);
        },
        _ => {},
    }
}

/// Where nothing resists deletion, a dry run takes the directory as it is.
pub proof fn lemma_unhindered_of_faultless(dir: DirView)
    requires
        faultless(dir),
    ensures
        unhindered(dir) == dir,
    decreases dir,
{
    match dir.listing {
        ListingView::Entries(entries) => {
            assert forall|i: int| 0 <= i < entries.len() implies unhindered_entries(entries)[i]
                == entries[i] by {
                lemma_unhindered_entry_of_faultless(entries[i]);
            }
            assert(unhindered_entries(entries) =~= entries);
        },
        _ => {},
    }
}

impl DirNode {
    /// A copy of the directory as a dry run takes it.
    pub fn unhindered_copy(&self) -> (copy: DirNode)
        ensures
            copy@ == unhindered(self@),
        decreases self,
    {
        let listing = match &self.listing {
            Listing::NotADirectory => Listing::NotADirectory,
            Listing::Unreadable(failure) => Listing::Unreadable(failure.clone()),
            Listing::Entries(entries) => {
                let mut copies: Vec<Entry> = Vec::new();
                let mut i: usize = 0;
                while i < entries.len()
                    invariant
                        i <= entries.len(),
                        self.listing is Entries,
                        self.listing->Entries_0@ == entries@,
                        copies@.len() == i,
                        forall|k: int|
                            0 <= k < i ==> (#[trigger] copies@[k])@ == unhindered_entry(
                                entries@[k]@,
                            ),
                    decreases entries.len() - i,
                {
                    proof {
                        let listed = self.listing->Entries_0;
                        assert(decreases_to!(*self => self.listing));
                        assert(decreases_to!(self.listing => listed));
                        assert(decreases_to!(listed => listed@[i as int]));
                    }
                    let copy = match &entries[i] {
                        Entry::Unreadable(failure) => Entry::Unreadable(failure.clone()),
                        Entry::File(file) => {
                            let mut free = file.clone();
                            free.removal = None;
                            Entry::File(free)
                        },
                        Entry::Dir(sub) => {
                            assert(decreases_to!(entries@[i as int] => *sub));
                            Entry::Dir(sub.unhindered_copy())
                        },
                        Entry::DirLink(path) => Entry::DirLink(path.clone()),
                        Entry::Other(path) => Entry::Other(path.clone()),
                    };
                    copies.push(copy);
                    i += 1;
                }
                assert(entry_views(copies@) =~= unhindered_entries(entry_views(entries@)));
                Listing::Entries(copies)
            },
        };
        DirNode { path: self.path.clone(), listing, removal: None, removed: self.removed }
    }
}

/// What a run sees of the machine: the environment, and the directories
/// that it may look at, each under its path.
#[derive(Debug)]
pub struct Host {
    pub env: Environment,
    /// The directories that are known. A path that none of them has names
    /// nothing; of two with the same path the first counts.
    pub roots: Vec<DirNode>,
}

/// The views of a list of directories, in order.
pub open spec fn dir_views(dirs: Seq<DirNode>) -> Seq<DirView> {
    dirs.map_values(|d: DirNode| d@)
}

/// The position of the first directory at `path`, or the length of the list
/// where there is none.
pub open spec fn root_index(roots: Seq<DirView>, path: Seq<char>) -> int
    decreases roots.len(),
{
    if roots.len() == 0 || roots[0].path@ == path {
        0
    } else {
        1 + root_index(roots.skip(1), path)
    }
}

/// `root_index` gives the first directory at the path, if there is one.
pub proof fn lemma_root_index(roots: Seq<DirView>, path: Seq<char>)
    ensures
        0 <= root_index(roots, path) <= roots.len(),
        root_index(roots, path) < roots.len() ==> roots[root_index(roots, path)].path@ == path,
        forall|i: int| 0 <= i < root_index(roots, path) ==> roots[i].path@ != path,
    decreases roots.len(),
{
    if roots.len() == 0 || roots[0].path@ == path {
    } else {
        let rest = roots.skip(1);
        lemma_root_index(rest, path);
        assert forall|i: int| 0 <= i < root_index(roots, path) implies roots[i].path@ != path by {
            if i > 0 {
                assert(rest[i - 1] == roots[i]);
            }
        }
        if root_index(roots, path) < roots.len() {
            assert(rest[root_index(rest, path)] == roots[root_index(roots, path)]);
        }
    }
}

/// Something exists at `path`: a directory is known there and was not removed.
pub open spec fn exists_at(roots: Seq<DirView>, path: Seq<char>) -> bool {
    root_index(roots, path) < roots.len() && !roots[root_index(roots, path)].removed
}

/// The position of the first directory at `path` in `roots`, or the length of
/// `roots` where there is none.
pub fn find_root(roots: &Vec<DirNode>, path: &str) -> (at: usize)
    ensures
        at == root_index(dir_views(roots@), path@),
        at <= roots.len(),
{
    let ghost views = dir_views(roots@);
    let mut i: usize = 0;
    let mut found = false;
    proof {
        assert(views.skip(0) =~= views);
    }
    while i < roots.len() && !found
        invariant
            i <= roots.len(),
            views == dir_views(roots@),
            root_index(views, path@) == i + root_index(views.skip(i as int), path@),
            found ==> i < roots.len() && roots@[i as int].path@ == path@,
        decreases roots.len() - i + (if found { 0int } else { 1int }),
    {
        proof {
            assert(views.skip(i as int)[0] == roots@[i as int]@);
            assert(views.skip(i as int).skip(1) =~= views.skip(i + 1));
        }
        if same_text(roots[i].path.as_str(), path) {
            found = true;
        } else {
            i += 1;
        }
    }
    proof {
        if i < roots.len() {
            assert(views.skip(i as int)[0] == roots@[i as int]@);
        }
    }
    i
}

impl Host {
    /// The host on which a run works: the host itself, or, for a dry run, a
    /// copy of it on which nothing resists deletion.
    pub fn working_copy(&self, dry_run: bool) -> (copy: Host)
        ensures
            copy.env == self.env,
            dir_views(copy.roots@) == (if dry_run {
                unhindered_all(dir_views(self.roots@))
            } else {
                dir_views(self.roots@)
            }),
    {
        let mut roots: Vec<DirNode> = Vec::new();
        let mut i: usize = 0;
        while i < self.roots.len()
            invariant
                i <= self.roots.len(),
                roots@.len() == i,
                forall|k: int|
                    0 <= k < i ==> (#[trigger] roots@[k])@ == (if dry_run {
                        unhindered(self.roots@[k]@)
                    } else {
                        self.roots@[k]@
                    }),
            decreases self.roots.len() - i,
        {
            let copy = if dry_run {
                self.roots[i].unhindered_copy()
            } else {
                self.roots[i].duplicate()
            };
            roots.push(copy);
            i += 1;
        }
        proof {
            if dry_run {
                assert(dir_views(roots@) =~= unhindered_all(dir_views(self.roots@)));
            } else {
                assert(dir_views(roots@) =~= dir_views(self.roots@));
            }
        }
        Host { env: self.env.clone(), roots }
    }
}

} // verus!
