//! The status log: an ordered sequence of text lines that only ever grows.

use vstd::prelude::*;
use crate::text::{copy_lines, lemma_lines_of_push, lines_of};

verus! {

/// An append-only log of status lines.
///
/// The model of a `LogStore` is the sequence of its lines, oldest first.
/// No operation removes or rewrites a line, so every earlier state of the
/// log is a prefix of every later one.
pub struct LogStore {
    lines: Vec<String>,
}

impl View for LogStore {
    type V = Seq<Seq<char>>;

    closed spec fn view(&self) -> Seq<Seq<char>> {
        lines_of(self.lines@)
    }
}

impl LogStore {
    /// An empty log.
    pub fn new() -> (log: LogStore)
        ensures
            log@ == Seq::<Seq<char>>::empty(),
    {
        LogStore { lines: Vec::new() }
    }

    /// Appends `line` as the newest entry; every older entry stays in place.
    pub fn append(&mut self, line: String)
        ensures
            final(self)@ == old(self)@.push(line@),
            old(self)@.is_prefix_of(final(self)@),
    {
        proof {
            lemma_lines_of_push(self.lines@, line);
        }
        self.lines.push(line);
    }

    /// The number of lines in the log.
    pub fn len(&self) -> (n: usize)
        ensures
            n == self@.len(),
    {
        self.lines.len()
    }

    /// The lines of the log, oldest first, borrowed.
    pub fn lines(&self) -> (lines: &Vec<String>)
        ensures
            lines_of(lines@) == self@,
    {
        &self.lines
    }

    /// An owned copy of the log as it stands now.
    pub fn snapshot(&self) -> (copy: Vec<String>)
        ensures
            lines_of(copy@) == self@,
    {
        copy_lines(&self.lines)
    }
}

/// The log after `lines` have been appended to `log`, one call of
/// [`LogStore::append`] per line, oldest first.
pub open spec fn after_appends(log: Seq<Seq<char>>, lines: Seq<Seq<char>>) -> Seq<Seq<char>>
    decreases lines.len(),
{
    if lines.len() == 0 {
        log
    } else {
        after_appends(log, lines.drop_last()).push(lines.last())
    }
}

/// A run of appends adds exactly the appended lines behind what was there.
pub proof fn lemma_appends_extend(log: Seq<Seq<char>>, lines: Seq<Seq<char>>)
    ensures
        after_appends(log, lines) == log + lines,
    decreases lines.len(),
{
    if lines.len() == 0 {
    } else {
        lemma_appends_extend(log, lines.drop_last());
    }
}

/// The length of the log never decreases, and a snapshot taken at one time
/// is a prefix of any snapshot taken later: whatever is appended first and
/// whatever is appended after that, the log before, the log in between and
/// the log at the end extend one another.
pub proof fn lemma_snapshots_are_prefixes(
    log: Seq<Seq<char>>,
    first: Seq<Seq<char>>,
    then: Seq<Seq<char>>,
)
    ensures
        log.len() <= after_appends(log, first).len(),
        after_appends(log, first).len() <= after_appends(after_appends(log, first), then).len(),
        log.is_prefix_of(after_appends(log, first)),
        after_appends(log, first).is_prefix_of(after_appends(after_appends(log, first), then)),
        log.is_prefix_of(after_appends(after_appends(log, first), then)),
{
    lemma_appends_extend(log, first);
    lemma_appends_extend(log + first, then);
}

} // verus!
