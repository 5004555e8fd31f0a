//! What a run leaves to be done on disk: the files and directories that it
//! marked, in the order in which it took them, and the note of a deletion
//! that the system refused.

use vstd::prelude::*;
use crate::cleaning::error::IoFailure;
use crate::cleaning::host::{
    entry_views, DirNode, DirView, Entry, EntryView, FileNode, Listing, ListingView,
};
use crate::cleaning::locations::texts;
use crate::text::same_text;

verus! {

/// The paths of the files among `entries` that are marked as deleted, in order.
pub open spec fn own_marked_files(entries: Seq<EntryView>) -> Seq<Seq<char>>
    decreases entries.len(),
{
    if entries.len() == 0 {
        Seq::empty()
    } else {
        own_marked_files(entries.drop_last()) + (match entries.last() {
            EntryView::File(file) => if file.removed {
                seq![file.path@]
            } else {
                Seq::empty()
            },
            _ => Seq::empty(),
        })
    }
}

/// The paths of the files in the directories among `entries` that are
/// marked as deleted, directory by directory.
pub open spec fn nested_marked_files(entries: Seq<EntryView>) -> Seq<Seq<char>>
    decreases entries,
{
    if entries.len() == 0 {
        Seq::empty()
    } else {
        nested_marked_files(entries.drop_last()) + (match entries.last() {
            EntryView::Dir(sub) => marked_files(sub),
            _ => Seq::empty(),
        })
    }
}

/// The paths of the files below `dir` that are marked as deleted, in the
/// order in which a run takes them: the files of a directory first, then
/// those of its subdirectories.
pub open spec fn marked_files(dir: DirView) -> Seq<Seq<char>>
    decreases dir,
{
    match dir.listing {
        ListingView::Entries(entries) => own_marked_files(entries) + nested_marked_files(entries),
        _ => Seq::empty(),
    }
}

/// The paths of the directories among and below `entries` that are marked
/// as removed, the deepest first.
pub open spec fn marked_dirs_in(entries: Seq<EntryView>) -> Seq<Seq<char>>
    decreases entries,
{
    if entries.len() == 0 {
        Seq::empty()
    } else {
        marked_dirs_in(entries.drop_last()) + (match entries.last() {
            EntryView::Dir(sub) => marked_dirs(sub) + (if sub.removed {
                seq![sub.path@]
            } else {
                Seq::empty()
            }),
            _ => Seq::empty(),
        })
    }
}

/// The paths of the directories below `dir` that are marked as removed, the
/// deepest first, so that each stands after all that lies in it.
pub open spec fn marked_dirs(dir: DirView) -> Seq<Seq<char>>
    decreases dir,
{
    match dir.listing {
        ListingView::Entries(entries) => marked_dirs_in(entries),
        _ => Seq::empty(),
    }
}

/// What noting a refusal does at one entry: the first file or directory at
/// `path` that was taken to let itself be deleted now holds the failure.
/// The flag says whether one was found.
pub open spec fn noted_entry(entry: EntryView, path: Seq<char>, failure: IoFailure) -> (
    EntryView,
    bool,
)
    decreases entry,
{
    match entry {
        EntryView::File(file) => if file.path@ == path && file.removal is None {
            (EntryView::File(FileNode { removal: Some(failure), ..file }), true)
        } else {
            (entry, false)
        },
        EntryView::Dir(sub) => if sub.path@ == path && sub.removal is None {
            (EntryView::Dir(DirView { removal: Some(failure), ..sub }), true)
        } else {
            let (below, found) = noted(sub, path, failure);
            (EntryView::Dir(below), found)
        },
        _ => (entry, false),
    }
}

/// What noting a refusal does to the entries of a directory: it is noted at
/// the first entry at which it can be, and at no other.
pub open spec fn noted_entries(entries: Seq<EntryView>, path: Seq<char>, failure: IoFailure)
    -> (Seq<EntryView>, bool)
    decreases entries,
{
    if entries.len() == 0 {
        (Seq::empty(), false)
    } else {
        let (before, found) = noted_entries(entries.drop_last(), path, failure);
        if found {
            (before.push(entries.last()), true)
        } else {
            let (entry, here) = noted_entry(entries.last(), path, failure);
            (before.push(entry), here)
        }
    }
}

/// What noting a refusal does below `dir`.
pub open spec fn noted(dir: DirView, path: Seq<char>, failure: IoFailure) -> (DirView, bool)
    decreases dir,
{
    match dir.listing {
        ListingView::Entries(entries) => {
            let (left, found) = noted_entries(entries, path, failure);
            (DirView { listing: ListingView::Entries(left), ..dir }, found)
        },
        _ => (dir, false),
    }
}

impl DirNode {
    /// Appends to `out` the paths of the files below the directory that are
    /// marked as deleted, in the order in which a run takes them.
    pub fn marked_files(&self, out: &mut Vec<String>)
        ensures
            texts(final(out)@) == texts(old(out)@) + marked_files(self@),
        decreases self,
    {
        let ghost start = texts(out@);
        match &self.listing {
            Listing::Entries(entries) => {
                let ghost views = entry_views(entries@);
                let mut i: usize = 0;
                proof {
                    assert(views.take(0) =~= Seq::<EntryView>::empty());
                    assert(texts(out@) =~= start + own_marked_files(views.take(0)));
                }
                while i < entries.len()
                    invariant
                        i <= entries.len(),
                        views == entry_views(entries@),
                        texts(out@) == start + own_marked_files(views.take(i as int)),
                    decreases entries.len() - i,
                {
                    let ghost before = texts(out@);
                    proof {
                        assert(views.take(i + 1).drop_last() =~= views.take(i as int));
                        assert(views.take(i + 1).last() == entries@[i as int]@);
                    }
                    match &entries[i] {
                        Entry::File(file) => {
                            if file.removed {
                                out.push(file.path.clone());
                                assert(texts(out@) =~= before + seq![file.path@]);
                            }
                        },
                        _ => {},
                    }
                    proof {
                        assert(texts(out@) =~= start + own_marked_files(views.take(i + 1)));
                    }
                    i += 1;
                }
                let ghost own = texts(out@);
                let mut j: usize = 0;
                proof {
                    assert(views.take(entries.len() as int) =~= views);
                    assert(texts(out@) =~= own + nested_marked_files(views.take(0)));
                }
                while j < entries.len()
                    invariant
                        j <= entries.len(),
                        views == entry_views(entries@),
                        self.listing is Entries,
                        self.listing->Entries_0@ == entries@,
                        texts(out@) == own + nested_marked_files(views.take(j as int)),
                    decreases entries.len() - j,
                {
                    let ghost before = texts(out@);
                    proof {
                        assert(views.take(j + 1).drop_last() =~= views.take(j as int));
                        assert(views.take(j + 1).last() == entries@[j as int]@);
                        let listed = self.listing->Entries_0;
                        assert(decreases_to!(*self => self.listing));
                        assert(decreases_to!(self.listing => listed));
                        assert(decreases_to!(listed => listed@[j as int]));
                    }
                    match &entries[j] {
                        Entry::Dir(sub) => {
                            assert(decreases_to!(entries@[j as int] => *sub));
                            sub.marked_files(out);
                        },
                        _ => {},
                    }
                    proof {
                        assert(texts(out@) =~= own + nested_marked_files(views.take(j + 1)));
                    }
                    j += 1;
                }
                proof {
                    assert(views.take(entries.len() as int) =~= views);
                    assert(texts(out@) =~= start + marked_files(self@));
                }
            },
            _ => {
                assert(texts(out@) =~= start + marked_files(self@));
            },
        }
    }

    /// Appends to `out` the paths of the directories below the directory
    /// that are marked as removed, the deepest first.
    pub fn marked_dirs(&self, out: &mut Vec<String>)
        ensures
            texts(final(out)@) == texts(old(out)@) + marked_dirs(self@),
        decreases self,
    {
        let ghost start = texts(out@);
        match &self.listing {
            Listing::Entries(entries) => {
                let ghost views = entry_views(entries@);
                let mut i: usize = 0;
                proof {
                    assert(views.take(0) =~= Seq::<EntryView>::empty());
                    assert(texts(out@) =~= start + marked_dirs_in(views.take(0)));
                }
                while i < entries.len()
                    invariant
                        i <= entries.len(),
                        views == entry_views(entries@),
                        self.listing is Entries,
                        self.listing->Entries_0@ == entries@,
                        texts(out@) == start + marked_dirs_in(views.take(i as int)),
                    decreases entries.len() - i,
                {
                    proof {
                        assert(views.take(i + 1).drop_last() =~= views.take(i as int));
                        assert(views.take(i + 1).last() == entries@[i as int]@);
                        let listed = self.listing->Entries_0;
                        assert(decreases_to!(*self => self.listing));
                        assert(decreases_to!(self.listing => listed));
                        assert(decreases_to!(listed => listed@[i as int]));
                    }
                    match &entries[i] {
                        Entry::Dir(sub) => {
                            assert(decreases_to!(entries@[i as int] => *sub));
                            sub.marked_dirs(out);
                            let ghost below = texts(out@);
                            if sub.removed {
                                out.push(sub.path.clone());
                                assert(texts(out@) =~= below + seq![sub.path@]);
                            }
                        },
                        _ => {},
                    }
                    proof {
                        assert(texts(out@) =~= start + marked_dirs_in(views.take(i + 1)));
                    }
                    i += 1;
                }
                proof {
                    assert(views.take(entries.len() as int) =~= views);
                }
            },
            _ => {
                assert(texts(out@) =~= start + marked_dirs(self@));
            },
        }
    }

    /// Notes that the system refused to delete what lies at `path` below
    /// the directory: the first file or directory at that path that was
    /// taken to let itself be deleted now holds `failure`. Says whether one
    /// was found.
    pub fn note_refusal(&mut self, path: &str, failure: &IoFailure) -> (found: bool)
        ensures
            (final(self)@, found) == noted(old(self)@, path@, *failure),
        decreases *old(self),
    {
        let mut found = false;
        match &mut self.listing {
            Listing::Entries(entries) => {
                let ghost before = entries@;
                let ghost views = entry_views(before);
                let n = entries.len();
                let mut i: usize = 0;
                proof {
                    assert(views.take(0) =~= Seq::<EntryView>::empty());
                    assert(entry_views(entries@).take(0) =~= Seq::<EntryView>::empty());
                }
                while i < n
                    invariant
                        i <= n,
                        entries@.len() == n,
                        before.len() == n,
                        views == entry_views(before),
                        old(self).listing is Entries,
                        old(self).listing->Entries_0@ == before,
                        forall|k: int| i <= k < n ==> entries@[k] == before[k],
                        noted_entries(views.take(i as int), path@, *failure) == (
                            entry_views(entries@).take(i as int),
                            found,
                        ),
                    decreases n - i,
                {
                    let ghost prior = entries@;
                    proof {
                        let listed = old(self).listing->Entries_0;
                        assert(decreases_to!(*old(self) => old(self).listing));
                        assert(decreases_to!(old(self).listing => listed));
                        assert(decreases_to!(listed => listed@[i as int]));
                        assert(decreases_to!(*old(self) => before[i as int]));
                    }
                    if !found {
                        match &mut entries[i] {
                            Entry::File(file) => {
                                let here = same_text(file.path.as_str(), path);
                                let free = match &file.removal {
                                    None => true,
                                    Some(_) => false,
                                };
                                if here && free {
                                    file.removal = Some(failure.clone());
                                    found = true;
                                }
                            },
                            Entry::Dir(sub) => {
                                assert(decreases_to!(before[i as int] => *sub));
                                let here = same_text(sub.path.as_str(), path);
                                let free = match &sub.removal {
                                    None => true,
                                    Some(_) => false,
                                };
                                if here && free {
                                    sub.removal = Some(failure.clone());
                                    found = true;
                                } else {
                                    found = sub.note_refusal(path, failure);
                                }
                            },
                            _ => {},
                        }
                        assert((entries@[i as int]@, found) == noted_entry(
                            before[i as int]@,
                            path@,
                            *failure,
                        ));
                    }
                    proof {
                        assert(views.take(i + 1).drop_last() =~= views.take(i as int));
                        assert(views.take(i + 1).last() == before[i as int]@);
                        assert(prior[i as int] == before[i as int]);
                        assert(entry_views(entries@).take(i + 1) =~= entry_views(prior).take(
                            i as int,
                        ).push(entries@[i as int]@));
                    }
                    i += 1;
                }
                proof {
                    assert(views.take(n as int) =~= views);
                    assert(entry_views(entries@).take(n as int) =~= entry_views(entries@));
                }
            },
            _ => {},
        }
        found
    }
}

} // verus!
