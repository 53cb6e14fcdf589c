//! The whole-directory cleaner: every entry directly inside a directory is
//! removed, the first few successes and failures are reported by name and the
//! rest as a count.

use vstd::prelude::*;
use vstd::string::StringExecFns;
use crate::text::{decimal, push_decimal, push_lines, texts, with_line_feeds};
use crate::totals::{ScanTotals, Tally};
use crate::tree::{calculate_dir_size, EntryKind, Node};

verus! {

/// How many deleted entries are reported by name.
pub const SHOWN_DELETED: usize = 5;

/// How many entries that could not be deleted are reported by name.
pub const SHOWN_SKIPPED: usize = 3;

/// How an entry's size is found before it is removed.
#[derive(Clone, Copy, Debug, PartialEq, Eq, Structural)]
pub enum Measure {
    /// The file's length, zero where it cannot be read.
    Length,
    /// The sizes of all files below the directory.
    Tree,
    /// Nothing is measured: the size counts as zero.
    Nothing,
}

/// How an entry is removed.
#[derive(Clone, Copy, Debug, PartialEq, Eq, Structural)]
pub enum Method {
    /// As a single file.
    File,
    /// As a directory, with all that is below it.
    Tree,
}

/// How an entry of the given kind is measured and removed.
pub fn removal_plan(kind: EntryKind) -> (plan: (Measure, Method))
    ensures
        plan == match kind {
            EntryKind::File => (Measure::Length, Method::File),
            EntryKind::Directory => (Measure::Tree, Method::Tree),
            EntryKind::Other => (Measure::Nothing, Method::File),
        },
{
    match kind {
        EntryKind::File => (Measure::Length, Method::File),
        EntryKind::Directory => (Measure::Tree, Method::Tree),
        EntryKind::Other => (Measure::Nothing, Method::File),
    }
}

/// What became of one entry: its name, the bytes it held, and whether it was removed.
#[derive(Clone, Debug)]
pub struct Removal {
    pub name: String,
    pub size: u64,
    pub removed: bool,
}

/// What becomes of the entries of a directory held in memory when each is
/// measured and removed in turn.
pub open spec fn attempts_match(attempts: Seq<Removal>, entries: Seq<Node>) -> bool {
    &&& attempts.len() == entries.len()
    &&& forall|i: int|
        0 <= i < entries.len() ==> (#[trigger] attempts[i]).name@ == entries[i].name()
            && attempts[i].size == entries[i].size() && attempts[i].removed
            == entries[i].removable()
}

/// Measures and removes, in turn, the entries of a directory held in memory:
/// a file counts with its size, a directory with the sizes of all files below
/// it, anything else with nothing.
pub fn attempts_on(entries: &Vec<Node>) -> (attempts: Vec<Removal>)
    requires
        forall|i: int| 0 <= i < entries@.len() ==> (#[trigger] entries@[i]).size() <= u64::MAX,
    ensures
        attempts_match(attempts@, entries@),
{
    let mut attempts: Vec<Removal> = Vec::new();
    let mut i: usize = 0;
    while i < entries.len()
        invariant
            i <= entries.len(),
            forall|k: int| 0 <= k < entries@.len() ==> (#[trigger] entries@[k]).size() <= u64::MAX,
            attempts_match(attempts@, entries@.take(i as int)),
        decreases entries.len() - i,
    {
        let entry = &entries[i];
        let size: u64 = match removal_plan(entry.get_kind()).0 {
            Measure::Length => match entry {
                Node::File { size, .. } => *size,
                _ => 0,
            },
            Measure::Tree => match entry {
                Node::Directory { entries: below, .. } => calculate_dir_size(below),
                _ => 0,
            },
            Measure::Nothing => 0,
        };
        attempts.push(
            Removal {
                name: String::from_str(entry.get_name()),
                size,
                removed: entry.is_removable(),
            },
        );
        i = i + 1;
    }
    assert(entries@.take(entries.len() as int) =~= entries@);
    attempts
}

/// The line that reports a deleted entry.
pub open spec fn deleted_line(name: Seq<char>) -> Seq<char> {
    "   ✅ Deleted: "@ + name
}

/// The line that reports an entry that could not be deleted.
pub open spec fn skipped_line(name: Seq<char>) -> Seq<char> {
    "   ⚠️  Skipped: "@ + name + " (locked or no permission)"@
}

/// The line that stands for the deleted entries not reported by name.
pub open spec fn more_deleted_line(more: nat) -> Seq<char> {
    "...and "@ + decimal(more) + " more items deleted"@
}

/// The line that stands for the skipped entries not reported by name.
pub open spec fn more_skipped_line(more: nat) -> Seq<char> {
    "...and "@ + decimal(more) + " more items skipped"@
}

/// The line, if any, that an attempt is reported with, given the totals before it.
pub open spec fn attempt_line(before: Tally, name: Seq<char>, removed: bool) -> Option<Seq<char>> {
    if removed {
        if before.deleted < SHOWN_DELETED {
            Some(deleted_line(name))
        } else {
            None
        }
    } else {
        if before.failed < SHOWN_SKIPPED {
            Some(skipped_line(name))
        } else {
            None
        }
    }
}

/// The totals after the first `n` attempts.
pub open spec fn tally_of(attempts: Seq<Removal>, n: nat) -> Tally
    decreases n,
{
    if n == 0 || n > attempts.len() {
        Tally::zero()
    } else {
        tally_of(attempts, (n - 1) as nat).after(attempts[n - 1].removed, attempts[n - 1].size as nat)
    }
}

/// The lines reported while the first `n` attempts are made.
pub open spec fn progress_lines(attempts: Seq<Removal>, n: nat) -> Seq<Seq<char>>
    decreases n,
{
    if n == 0 || n > attempts.len() {
        Seq::empty()
    } else {
        let earlier = progress_lines(attempts, (n - 1) as nat);
        match attempt_line(
            tally_of(attempts, (n - 1) as nat),
            attempts[n - 1].name@,
            attempts[n - 1].removed,
        ) {
            Some(line) => earlier.push(line),
            None => earlier,
        }
    }
}

/// The lines that close a report: a count of what was not reported by name.
pub open spec fn closing_lines(totals: Tally) -> Seq<Seq<char>> {
    let deleted = if totals.deleted > SHOWN_DELETED {
        seq![more_deleted_line((totals.deleted - SHOWN_DELETED) as nat)]
    } else {
        Seq::empty()
    };
    let skipped = if totals.failed > SHOWN_SKIPPED {
        seq![more_skipped_line((totals.failed - SHOWN_SKIPPED) as nat)]
    } else {
        Seq::empty()
    };
    deleted + skipped
}

/// The whole report on a directory.
pub open spec fn report_lines(attempts: Seq<Removal>) -> Seq<Seq<char>> {
    progress_lines(attempts, attempts.len()) + closing_lines(tally_of(attempts, attempts.len()))
}

/// Every attempt is counted once, as deleted or as failed.
pub proof fn lemma_every_entry_counted(attempts: Seq<Removal>, n: nat)
    requires
        n <= attempts.len(),
    ensures
        tally_of(attempts, n).deleted + tally_of(attempts, n).failed == n,
    decreases n,
{
    if n > 0 {
        lemma_every_entry_counted(attempts, (n - 1) as nat);
    }
}

/// The totals never go down as more attempts are made.
pub proof fn lemma_tally_grows(attempts: Seq<Removal>, i: nat, j: nat)
    requires
        i <= j <= attempts.len(),
    ensures
        tally_of(attempts, i).le(tally_of(attempts, j)),
    decreases j,
{
    if i < j {
        lemma_tally_grows(attempts, i, (j - 1) as nat);
    }
}

/// The smaller of two numbers.
pub open spec fn least(a: nat, b: nat) -> nat {
    if a <= b {
        a
    } else {
        b
    }
}

/// At most five deleted and three skipped entries are reported by name, and
/// no fewer where that many exist.
pub proof fn lemma_progress_lines_capped(attempts: Seq<Removal>, n: nat)
    requires
        n <= attempts.len(),
    ensures
        progress_lines(attempts, n).len() == least(tally_of(attempts, n).deleted, SHOWN_DELETED as nat)
            + least(tally_of(attempts, n).failed, SHOWN_SKIPPED as nat),
    decreases n,
{
    if n > 0 {
        lemma_progress_lines_capped(attempts, (n - 1) as nat);
    }
}

/// The running state of a whole-directory clean-up.
pub struct DirectoryCleaner {
    totals: ScanTotals,
}

impl DirectoryCleaner {
    /// The totals so far.
    pub closed spec fn tally(self) -> Tally {
        self.totals@
    }

    /// A clean-up that has not attempted anything yet.
    pub fn new() -> (cleaner: DirectoryCleaner)
        ensures
            cleaner.tally() == Tally::zero(),
    {
        DirectoryCleaner { totals: ScanTotals::new() }
    }

    /// The totals so far.
    pub fn totals(&self) -> (totals: ScanTotals)
        ensures
            totals@ == self.tally(),
    {
        self.totals
    }

    /// Whether one more attempt can be counted without a counter running over.
    pub fn has_room(&self, removed: bool, size: u64) -> (room: bool)
        ensures
            room == self.tally().after(removed, size as nat).fits(),
    {
        if removed {
            self.totals.deleted < usize::MAX && size <= u64::MAX - self.totals.bytes
        } else {
            self.totals.failed < usize::MAX
        }
    }

    /// Counts one attempt and hands back the line to report it with, if it is
    /// among the first five successes or the first three failures.
    pub fn record(&mut self, name: &str, size: u64, removed: bool) -> (line: Option<String>)
        requires
            old(self).tally().after(removed, size as nat).fits(),
        ensures
            final(self).tally() == old(self).tally().after(removed, size as nat),
            match line {
                Some(text) => attempt_line(old(self).tally(), name@, removed) == Some(text@),
                None => attempt_line(old(self).tally(), name@, removed) is None,
            },
    {
        let shown = if removed {
            self.totals.deleted < SHOWN_DELETED
        } else {
            self.totals.failed < SHOWN_SKIPPED
        };
        self.totals = self.totals.record(removed, size);
        if !shown {
            None
        } else if removed {
            let mut text = String::from_str("   ✅ Deleted: ");
            text.append(name);
            Some(text)
        } else {
            let mut text = String::from_str("   ⚠️  Skipped: ");
            text.append(name);
            text.append(" (locked or no permission)");
            Some(text)
        }
    }

    /// The lines that close the report.
    pub fn finish(&self) -> (lines: Vec<String>)
        ensures
            texts(lines@) == closing_lines(self.tally()),
    {
        let mut lines: Vec<String> = Vec::new();
        if self.totals.deleted > SHOWN_DELETED {
            let mut text = String::from_str("...and ");
            push_decimal(&mut text, (self.totals.deleted - SHOWN_DELETED) as u128);
            text.append(" more items deleted");
            lines.push(text);
        }
        if self.totals.failed > SHOWN_SKIPPED {
            let mut text = String::from_str("...and ");
            push_decimal(&mut text, (self.totals.failed - SHOWN_SKIPPED) as u128);
            text.append(" more items skipped");
            lines.push(text);
        }
        assert(texts(lines@) =~= closing_lines(self.tally()));
        lines
    }
}

/// Reports on the entries of one directory, given what became of each: the
/// lines of the report and the totals.
pub fn clean_directory(attempts: &Vec<Removal>) -> (report: (Vec<String>, ScanTotals))
    requires
        tally_of(attempts@, attempts@.len()).bytes <= u64::MAX,
    ensures
        texts(report.0@) == report_lines(attempts@),
        report.1@ == tally_of(attempts@, attempts@.len()),
        report.1.deleted + report.1.failed == attempts@.len(),
{
    let mut cleaner = DirectoryCleaner::new();
    let mut lines: Vec<String> = Vec::new();
    let mut i: usize = 0;
    while i < attempts.len()
        invariant
            i <= attempts.len(),
            cleaner.tally() == tally_of(attempts@, i as nat),
            texts(lines@) == progress_lines(attempts@, i as nat),
            tally_of(attempts@, attempts@.len()).bytes <= u64::MAX,
        decreases attempts.len() - i,
    {
        proof {
            lemma_tally_grows(attempts@, (i + 1) as nat, attempts@.len());
            lemma_every_entry_counted(attempts@, (i + 1) as nat);
        }
        let attempt = &attempts[i];
        let line = cleaner.record(attempt.name.as_str(), attempt.size, attempt.removed);
        let ghost before = lines@;
        match line {
            Some(text) => {
                lines.push(text);
                assert(texts(lines@) =~= texts(before).push(text@));
            },
            None => {},
        }
        i = i + 1;
    }
    let mut closing = cleaner.finish();
    let ghost shown = lines@;
    lines.append(&mut closing);
    proof {
        lemma_every_entry_counted(attempts@, attempts@.len());
        assert(texts(lines@) =~= texts(shown) + closing_lines(cleaner.tally()));
    }
    (lines, cleaner.totals())
}

/// Reports on the entries of one directory and appends the report to `output`,
/// each line closed by a line feed.
pub fn clean_directory_with_output(attempts: &Vec<Removal>, output: &mut String) -> (totals:
    ScanTotals)
    requires
        tally_of(attempts@, attempts@.len()).bytes <= u64::MAX,
    ensures
        final(output)@ == old(output)@ + with_line_feeds(report_lines(attempts@)),
        totals@ == tally_of(attempts@, attempts@.len()),
        totals.deleted + totals.failed == attempts@.len(),
{
    let (lines, totals) = clean_directory(attempts);
    push_lines(output, &lines);
    totals
}

} // verus!
