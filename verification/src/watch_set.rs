//! The watch set and the directory scanner that fills it.
//!
//! Walking the directory tree is the caller's business. The scanner takes the
//! entries that the walk produced, in the order it produced them, and decides
//! which of them are tracked.

use vstd::prelude::*;
use crate::text::{lemma_lines_of_push, lines_of};

verus! {

/// One step of a directory walk.
pub enum ScanEntry {
    /// The walk reached `path`; `is_file` tells whether it is a regular file.
    Found { path: String, is_file: bool },
    /// The walk could not read an entry (permission denied on a subtree, a
    /// dangling link); `reason` says why.
    Failed { reason: String },
}

/// Whether `entry` names a regular file.
pub open spec fn is_file_entry(entry: ScanEntry) -> bool {
    entry matches ScanEntry::Found { is_file, .. } && is_file
}

/// Whether some entry of the walk names `path` as a regular file.
pub open spec fn is_scanned_file(entries: Seq<ScanEntry>, path: Seq<char>) -> bool {
    exists|i: int|
        0 <= i < entries.len() && is_file_entry(#[trigger] entries[i]) && entries[i]->path@ == path
}

/// The regular files of a walk in the order the walk met them, each path once.
pub open spec fn scan_listing(entries: Seq<ScanEntry>) -> Seq<Seq<char>>
    decreases entries.len(),
{
    if entries.len() == 0 {
        Seq::empty()
    } else {
        let before = scan_listing(entries.drop_last());
        let entry = entries.last();
        if is_file_entry(entry) && !before.contains(entry->path@) {
            before.push(entry->path@)
        } else {
            before
        }
    }
}

/// The reasons of the entries that could not be read, in walk order.
pub open spec fn scan_errors(entries: Seq<ScanEntry>) -> Seq<Seq<char>>
    decreases entries.len(),
{
    if entries.len() == 0 {
        Seq::empty()
    } else {
        let before = scan_errors(entries.drop_last());
        match entries.last() {
            ScanEntry::Failed { reason } => before.push(reason@),
            ScanEntry::Found { .. } => before,
        }
    }
}

/// How many entries of the walk name a regular file.
pub open spec fn file_count(entries: Seq<ScanEntry>) -> nat
    decreases entries.len(),
{
    if entries.len() == 0 {
        0
    } else {
        file_count(entries.drop_last()) + if is_file_entry(entries.last()) {
            1nat
        } else {
            0nat
        }
    }
}

/// No two regular-file entries of the walk carry the same path.
pub open spec fn files_listed_once(entries: Seq<ScanEntry>) -> bool {
    forall|i: int, j: int|
        0 <= i < j < entries.len() && is_file_entry(#[trigger] entries[i]) && is_file_entry(
            #[trigger] entries[j],
        ) ==> entries[i]->path@ != entries[j]->path@
}

/// The set of tracked file paths.
///
/// The model is a finite set of paths. The paths are also kept in the order
/// in which they were inserted, which is the order a listing shows them in.
pub struct WatchedFileSet {
    paths: Vec<String>,
}

impl View for WatchedFileSet {
    type V = Set<Seq<char>>;

    closed spec fn view(&self) -> Set<Seq<char>> {
        lines_of(self.paths@).to_set()
    }
}

impl WatchedFileSet {
    #[verifier::type_invariant]
    spec fn each_path_once(&self) -> bool {
        lines_of(self.paths@).no_duplicates()
    }

    /// The tracked paths in insertion order.
    pub closed spec fn listing(&self) -> Seq<Seq<char>> {
        lines_of(self.paths@)
    }

    /// The empty watch set.
    pub fn new() -> (set: WatchedFileSet)
        ensures
            set@ == Set::<Seq<char>>::empty(),
            set.listing() == Seq::<Seq<char>>::empty(),
    {
        WatchedFileSet { paths: Vec::new() }
    }

    /// Whether `path` is tracked.
    pub fn contains(&self, path: &String) -> (found: bool)
        ensures
            found == self@.contains(path@),
            found == self.listing().contains(path@),
    {
        let mut i: usize = 0;
        while i < self.paths.len()
            invariant
                i <= self.paths.len(),
                forall|j: int| 0 <= j < i ==> #[trigger] lines_of(self.paths@)[j] != path@,
            decreases self.paths.len() - i,
        {
            if self.paths[i] == *path {
                assert(lines_of(self.paths@)[i as int] == path@);
                return true;
            }
            i = i + 1;
        }
        false
    }

    /// Adds `path` unless it is tracked already; says whether it was added.
    pub fn insert(&mut self, path: String) -> (added: bool)
        ensures
            added == !old(self)@.contains(path@),
            final(self)@ == old(self)@.insert(path@),
            final(self).listing() == if added {
                old(self).listing().push(path@)
            } else {
                old(self).listing()
            },
    {
        proof {
            use_type_invariant(&*self);
        }
        if self.contains(&path) {
            false
        } else {
            let ghost before = self.paths@;
            let mut paths: Vec<String> = Vec::new();
            std::mem::swap(&mut paths, &mut self.paths);
            proof {
                lemma_lines_of_push(before, path);
                lines_of(before).lemma_push_to_set_commute(path@);
            }
            paths.push(path);
            self.paths = paths;
            true
        }
    }

    /// The number of tracked paths.
    pub fn len(&self) -> (n: usize)
        ensures
            n == self@.len(),
            n == self.listing().len(),
            self@.finite(),
    {
        proof {
            use_type_invariant(self);
            lines_of(self.paths@).unique_seq_to_set();
        }
        self.paths.len()
    }

    /// The tracked paths in insertion order, borrowed.
    pub fn paths(&self) -> (paths: &Vec<String>)
        ensures
            lines_of(paths@) == self.listing(),
            self.listing().no_duplicates(),
            self.listing().to_set() == self@,
    {
        proof {
            use_type_invariant(self);
        }
        &self.paths
    }
}

/// What a directory walk yielded: the files to track and the entries that
/// could not be read.
pub struct ScanReport {
    /// The regular files that the walk met.
    pub files: WatchedFileSet,
    /// One reason per unreadable entry, in walk order.
    pub errors: Vec<String>,
}

/// Builds the watch set from the entries of a directory walk.
///
/// Every regular file that the walk met is tracked, once; directories and
/// other entries are not. An entry that could not be read does not stop the
/// scan: its reason is reported and the scan goes on with the next entry.
pub fn scan(entries: &Vec<ScanEntry>) -> (report: ScanReport)
    ensures
        forall|p: Seq<char>| #[trigger] report.files@.contains(p) <==> is_scanned_file(entries@, p),
        report.files.listing() == scan_listing(entries@),
        lines_of(report.errors@) == scan_errors(entries@),
{
    let mut files = WatchedFileSet::new();
    let mut errors: Vec<String> = Vec::new();
    let mut i: usize = 0;
    while i < entries.len()
        invariant
            i <= entries.len(),
            files.listing() == scan_listing(entries@.take(i as int)),
            lines_of(errors@) == scan_errors(entries@.take(i as int)),
        decreases entries.len() - i,
    {
        proof {
            assert(entries@.take(i + 1).drop_last() =~= entries@.take(i as int));
        }
        match &entries[i] {
            ScanEntry::Found { path, is_file } => {
                if *is_file {
                    files.insert(path.clone());
                }
            },
            ScanEntry::Failed { reason } => {
                proof {
                    lemma_lines_of_push(errors@, *reason);
                }
                errors.push(reason.clone());
            },
        }
        i = i + 1;
    }
    proof {
        assert(entries@.take(i as int) =~= entries@);
        assert forall|p: Seq<char>| #[trigger]
            files@.contains(p) <==> is_scanned_file(entries@, p) by {
            lemma_scan_listing_member(entries@, p);
        }
    }
    ScanReport { files, errors }
}

/// The listing of a walk holds no path twice.
pub proof fn lemma_scan_listing_distinct(entries: Seq<ScanEntry>)
    ensures
        scan_listing(entries).no_duplicates(),
    decreases entries.len(),
{
    if entries.len() > 0 {
        lemma_scan_listing_distinct(entries.drop_last());
    }
}

/// A path is in the listing of a walk exactly if some entry of the walk
/// names it as a regular file.
pub proof fn lemma_scan_listing_member(entries: Seq<ScanEntry>, path: Seq<char>)
    ensures
        scan_listing(entries).contains(path) <==> is_scanned_file(entries, path),
    decreases entries.len(),
{
    if entries.len() > 0 {
        let front = entries.drop_last();
        let before = scan_listing(front);
        let after = scan_listing(entries);
        lemma_scan_listing_member(front, path);
        if before.contains(path) {
            let i = choose|i: int|
                0 <= i < front.len() && is_file_entry(#[trigger] front[i]) && front[i]->path@
                    == path;
            assert(is_file_entry(entries[i]) && entries[i]->path@ == path);
            assert(after[before.index_of(path)] == path);
        } else if after.contains(path) {
            assert(after[before.len() as int] == path);
            assert(is_file_entry(entries[entries.len() - 1]));
        } else if is_scanned_file(entries, path) {
            let i = choose|i: int|
                0 <= i < entries.len() && is_file_entry(#[trigger] entries[i]) && entries[i]->path@
                    == path;
            if i < front.len() {
                assert(is_file_entry(front[i]) && front[i]->path@ == path);
            } else {
                assert(after[before.len() as int] == path);
            }
        }
    }
}

/// The watch set never has more members than the walk has regular-file
/// entries.
pub proof fn lemma_scan_counts_at_most(entries: Seq<ScanEntry>)
    ensures
        scan_listing(entries).len() <= file_count(entries),
    decreases entries.len(),
{
    if entries.len() > 0 {
        lemma_scan_counts_at_most(entries.drop_last());
    }
}

/// A walk over a tree with N regular files, each met once, yields a watch
/// set of exactly N members.
pub proof fn lemma_scan_counts_files(entries: Seq<ScanEntry>)
    requires
        files_listed_once(entries),
    ensures
        scan_listing(entries).len() == file_count(entries),
        scan_listing(entries).to_set().len() == file_count(entries),
    decreases entries.len(),
{
    lemma_scan_listing_distinct(entries);
    scan_listing(entries).unique_seq_to_set();
    if entries.len() > 0 {
        let front = entries.drop_last();
        let entry = entries.last();
        assert(files_listed_once(front)) by {
            assert forall|i: int, j: int|
                0 <= i < j < front.len() && is_file_entry(#[trigger] front[i]) && is_file_entry(
                    #[trigger] front[j],
                ) implies front[i]->path@ != front[j]->path@ by {
                assert(front[i] == entries[i] && front[j] == entries[j]);
            }
        }
        lemma_scan_counts_files(front);
        if is_file_entry(entry) {
            // The walk names this file for the first time, so it is new to the listing.
            assert(!scan_listing(front).contains(entry->path@)) by {
                lemma_scan_listing_member(front, entry->path@);
                if is_scanned_file(front, entry->path@) {
                    let i = choose|i: int|
                        0 <= i < front.len() && is_file_entry(#[trigger] front[i])
                            && front[i]->path@ == entry->path@;
                    assert(is_file_entry(entries[i]) && is_file_entry(entries[entries.len() - 1]));
                }
            }
        }
    }
}

} // verus!
