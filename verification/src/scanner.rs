//! The bounded scanner: a walk over a directory tree that removes the files
//! with one of the given extensions, down to a fixed depth, and stays out of
//! the system directories at the root.
//!
//! The scanner decides; its caller lists directories and removes files. Each
//! answer of the caller is one step: the scanner takes it in and says what to
//! do next.

use vstd::prelude::*;
use crate::names::{has_extension_in, is_protected_name, matches_extension,
    protected_name, spell_all, spelled};
use crate::text::texts;
use crate::totals::{ScanTotals, Tally};
use crate::tree::EntryKind;

verus! {

/// The deepest level whose files are looked at; the directory that the scan
/// starts in is level 0.
pub const MAX_DEPTH: usize = 5;

/// What a listing shows of one entry.
#[derive(Debug)]
pub struct Entry {
    pub name: String,
    pub kind: EntryKind,
}

/// What the scanner does with an entry.
#[derive(Clone, Copy, Debug, PartialEq, Eq, Structural)]
pub enum Treatment {
    /// Leave it alone.
    Skip,
    /// Remove it.
    Remove,
    /// List it and go through its entries.
    Descend,
}

/// What the scanner does with an entry of a listing at `depth`: at the root
/// level it skips the system directories; elsewhere, and for the rest of the
/// root, it removes files with a matching extension and descends into
/// directories as long as their entries are no deeper than `MAX_DEPTH`.
///
/// Only the root level is guarded. A directory with the name of a system
/// directory that lies further down is entered like any other; whether that
/// is wanted is an open question, and callers that scan below the root
/// should know of it.
pub open spec fn treatment(
    name: Seq<char>,
    kind: EntryKind,
    depth: nat,
    extensions: Seq<Seq<char>>,
) -> Treatment {
    if depth == 0 && protected_name(name) {
        Treatment::Skip
    } else {
        match kind {
            EntryKind::File => if matches_extension(name, extensions) {
                Treatment::Remove
            } else {
                Treatment::Skip
            },
            EntryKind::Directory => if depth < MAX_DEPTH {
                Treatment::Descend
            } else {
                Treatment::Skip
            },
            EntryKind::Other => Treatment::Skip,
        }
    }
}

/// Decides what to do with an entry of a listing at `depth`.
pub fn treat(entry: &Entry, depth: usize, extensions: &Vec<Vec<char>>) -> (t: Treatment)
    ensures
        t == treatment(entry.name@, entry.kind, depth as nat, spelled(extensions@)),
{
    if depth == 0 && is_protected_name(entry.name.as_str()) {
        return Treatment::Skip;
    }
    match entry.kind {
        EntryKind::File => if has_extension_in(entry.name.as_str(), extensions) {
            Treatment::Remove
        } else {
            Treatment::Skip
        },
        EntryKind::Directory => if depth < MAX_DEPTH {
            Treatment::Descend
        } else {
            Treatment::Skip
        },
        EntryKind::Other => Treatment::Skip,
    }
}

/// The first entry from `from` on that is not skipped, or the listing's length
/// where all the rest are skipped.
pub open spec fn next_active(
    entries: Seq<Entry>,
    from: nat,
    depth: nat,
    extensions: Seq<Seq<char>>,
) -> nat
    decreases entries.len() - from,
{
    if from >= entries.len() {
        entries.len()
    } else if treatment(entries[from as int].name@, entries[from as int].kind, depth, extensions)
        != Treatment::Skip {
        from
    } else {
        next_active(entries, from + 1, depth, extensions)
    }
}

/// `next_active` skips only skipped entries and stops at the first other one.
pub proof fn lemma_next_active(
    entries: Seq<Entry>,
    from: nat,
    depth: nat,
    extensions: Seq<Seq<char>>,
)
    requires
        from <= entries.len(),
    ensures
        from <= next_active(entries, from, depth, extensions) <= entries.len(),
        forall|i: int|
            from <= i < next_active(entries, from, depth, extensions) ==> treatment(
                #[trigger] entries[i].name@,
                entries[i].kind,
                depth,
                extensions,
            ) == Treatment::Skip,
        next_active(entries, from, depth, extensions) < entries.len() ==> treatment(
            entries[next_active(entries, from, depth, extensions) as int].name@,
            entries[next_active(entries, from, depth, extensions) as int].kind,
            depth,
            extensions,
        ) != Treatment::Skip,
    decreases entries.len() - from,
{
    if from < entries.len() && treatment(
        entries[from as int].name@,
        entries[from as int].kind,
        depth,
        extensions,
    ) == Treatment::Skip {
        lemma_next_active(entries, from + 1, depth, extensions);
    }
}

/// The answer that the scanner waits for.
#[derive(Clone, Copy, Debug, PartialEq, Eq, Structural)]
pub enum Pending {
    /// Nothing yet: the scan has not been started.
    Start,
    /// The listing of a directory.
    Listing,
    /// The outcome of removing a file.
    Removal,
    /// Word that the caller has gone back to the directory above.
    Departure,
    /// Nothing any more: the scan is over.
    Nothing,
}

/// What the caller is to do next.
#[derive(Clone, Copy, Debug, PartialEq, Eq, Structural)]
pub enum Action {
    /// List the directory that the scan starts in, and answer with `listed`.
    ListRoot,
    /// List the directory at `index` of the current listing, make it the
    /// current one, and answer with `listed`.
    Enter { index: usize },
    /// Measure and remove the file at `index` of the current listing, and
    /// answer with `removed` or `failed`.
    Remove { index: usize },
    /// The current listing is done: go back to the one above, and answer with `left`.
    Leave,
    /// The scan is over, with these totals.
    Finish { totals: ScanTotals },
}

/// What the progress sink is told after a file has been removed: which entry of
/// the current listing it was, and the running totals of the whole scan, this
/// removal counted.
#[derive(Clone, Copy, Debug, PartialEq, Eq, Structural)]
pub struct Progress {
    pub index: usize,
    pub totals: ScanTotals,
}

/// One listing that the scan is in, as the contracts see it.
pub struct LevelView {
    /// The entries of the listing.
    pub entries: Seq<Entry>,
    /// The entry that is being dealt with; all before it are done.
    pub cursor: nat,
}

/// The scanner as the contracts see it.
pub struct ScannerView {
    /// The extensions of the files to remove.
    pub extensions: Seq<Seq<char>>,
    /// The depth of the directory that the scan starts in.
    pub depth: nat,
    /// The listings that the scan is in, the outermost first.
    pub levels: Seq<LevelView>,
    /// The totals of the whole scan so far.
    pub grand: Tally,
    /// The answer that the scanner waits for.
    pub pending: Pending,
}

/// Totals held in the machine's counters.
pub open spec fn counted(t: Tally) -> ScanTotals {
    ScanTotals { deleted: t.deleted as usize, failed: t.failed as usize, bytes: t.bytes as u64 }
}

impl ScannerView {
    /// A scanner that has not been started.
    pub open spec fn initial(extensions: Seq<Seq<char>>, depth: nat) -> ScannerView {
        ScannerView {
            extensions,
            depth,
            levels: Seq::empty(),
            grand: Tally::zero(),
            pending: Pending::Start,
        }
    }

    /// The current listing.
    pub open spec fn top(self) -> LevelView {
        self.levels.last()
    }

    /// The depth of the current listing.
    pub open spec fn top_depth(self) -> nat {
        (self.depth + self.levels.len() - 1) as nat
    }

    /// What is done with entry `i` of the current listing.
    pub open spec fn treatment_at(self, i: int) -> Treatment {
        treatment(
            self.top().entries[i].name@,
            self.top().entries[i].kind,
            self.top_depth(),
            self.extensions,
        )
    }

    /// What holds of the listings and totals at every moment of a scan.
    pub open spec fn steady(self) -> bool {
        &&& self.levels.len() > 0 ==> self.depth + self.levels.len() <= MAX_DEPTH + 1
        &&& self.grand.fits()
        &&& forall|i: int|
            0 <= i < self.levels.len() ==> (#[trigger] self.levels[i]).cursor
                <= self.levels[i].entries.len()
        &&& forall|i: int|
            0 <= i < self.levels.len() - 1 ==> (#[trigger] self.levels[i]).cursor
                < self.levels[i].entries.len()
    }

    /// What holds of the answer that is waited for.
    pub open spec fn expecting(self) -> bool {
        match self.pending {
            Pending::Start => self.levels.len() == 0 && self.grand == Tally::zero(),
            Pending::Listing => if self.levels.len() == 0 {
                self.depth <= MAX_DEPTH
            } else {
                self.top().cursor < self.top().entries.len() && self.treatment_at(
                    self.top().cursor as int,
                ) == Treatment::Descend
            },
            Pending::Removal => self.levels.len() > 0 && self.top().cursor
                < self.top().entries.len() && self.treatment_at(self.top().cursor as int)
                == Treatment::Remove,
            Pending::Departure => self.levels.len() >= 2 && self.top().cursor
                == self.top().entries.len(),
            Pending::Nothing => true,
        }
    }

    /// The scanner is in a state that a scan can reach.
    pub open spec fn wf(self) -> bool {
        self.steady() && self.expecting()
    }

    /// What the caller is asked to do in this state.
    pub open spec fn action(self) -> Action {
        match self.pending {
            Pending::Start => Action::ListRoot,
            Pending::Listing => if self.levels.len() == 0 {
                Action::ListRoot
            } else {
                Action::Enter { index: self.top().cursor as usize }
            },
            Pending::Removal => Action::Remove { index: self.top().cursor as usize },
            Pending::Departure => Action::Leave,
            Pending::Nothing => Action::Finish { totals: counted(self.grand) },
        }
    }

    /// With the current listing's cursor at `cursor`.
    pub open spec fn at(self, cursor: nat) -> ScannerView {
        ScannerView {
            levels: self.levels.drop_last().push(LevelView { cursor, ..self.top() }),
            ..self
        }
    }

    /// Moves the cursor on to the next entry that is not skipped, and waits for
    /// what that entry needs; past the last entry, for the caller to go back
    /// up, or for nothing where the outermost listing is done.
    pub open spec fn settle(self) -> ScannerView {
        let next = next_active(
            self.top().entries,
            self.top().cursor,
            self.top_depth(),
            self.extensions,
        );
        let moved = self.at(next);
        ScannerView {
            pending: if next < self.top().entries.len() {
                if self.treatment_at(next as int) == Treatment::Remove {
                    Pending::Removal
                } else {
                    Pending::Listing
                }
            } else if self.levels.len() == 1 {
                Pending::Nothing
            } else {
                Pending::Departure
            },
            ..moved
        }
    }

    /// After `start`: a scan that begins deeper than `MAX_DEPTH` is over at
    /// once; any other waits for the listing of its directory.
    pub open spec fn started(self) -> ScannerView {
        ScannerView {
            pending: if self.depth > MAX_DEPTH {
                Pending::Nothing
            } else {
                Pending::Listing
            },
            ..self
        }
    }

    /// After `listed`: the listing is the current one, and its first entry
    /// that is not skipped is dealt with.
    pub open spec fn listed(self, entries: Seq<Entry>) -> ScannerView {
        ScannerView {
            levels: self.levels.push(LevelView { entries, cursor: 0 }),
            ..self
        }.settle()
    }

    /// After one attempt on the entry under the cursor: it is counted, and the
    /// next entry that is not skipped is dealt with.
    pub open spec fn attempted(self, removed: bool, size: nat) -> ScannerView {
        ScannerView { grand: self.grand.after(removed, size), ..self }.at(
            self.top().cursor + 1,
        ).settle()
    }

    /// After `left`: the listing above is the current one again, and its next
    /// entry that is not skipped is dealt with.
    pub open spec fn left(self) -> ScannerView {
        let above = ScannerView { levels: self.levels.drop_last(), ..self };
        above.at(above.top().cursor + 1).settle()
    }
}

/// Whatever the listings held and however the removals went, the scanner
/// asks only for what its rules allow: it has a file removed only if the
/// file's extension matches and the file lies no deeper than `MAX_DEPTH`; it
/// has a directory listed only if the directory's entries lie no deeper than
/// `MAX_DEPTH`; and at the root it asks for neither on an entry whose name
/// marks a system directory.
pub proof fn lemma_asks_within_rules(view: ScannerView)
    requires
        view.wf(),
    ensures
        view.levels.len() > 0 ==> view.top_depth() <= MAX_DEPTH,
        view.pending == Pending::Removal ==> {
            let entry = view.top().entries[view.top().cursor as int];
            &&& entry.kind == EntryKind::File
            &&& matches_extension(entry.name@, view.extensions)
            &&& !(view.top_depth() == 0 && protected_name(entry.name@))
        },
        view.pending == Pending::Listing && view.levels.len() > 0 ==> {
            let entry = view.top().entries[view.top().cursor as int];
            &&& entry.kind == EntryKind::Directory
            &&& view.top_depth() < MAX_DEPTH
            &&& !(view.top_depth() == 0 && protected_name(entry.name@))
        },
        view.pending == Pending::Listing && view.levels.len() == 0 ==> view.depth <= MAX_DEPTH,
{
}

/// The totals of a scan never go down: a listing that comes in or is left
/// keeps them, a removal adds one file and its bytes, a failure adds one
/// failure and no bytes.
pub proof fn lemma_totals_never_go_down(
    view: ScannerView,
    entries: Seq<Entry>,
    removed: bool,
    size: nat,
)
    ensures
        view.started().grand == view.grand,
        view.listed(entries).grand == view.grand,
        view.left().grand == view.grand,
        view.attempted(removed, size).grand == view.grand.after(removed, size),
        view.grand.le(view.attempted(removed, size).grand),
        !removed ==> view.attempted(removed, size).grand.bytes == view.grand.bytes,
{
}

/// One listing that the scan is in.
struct Level {
    entries: Vec<Entry>,
    cursor: usize,
}

impl View for Level {
    type V = LevelView;

    closed spec fn view(&self) -> LevelView {
        LevelView { entries: self.entries@, cursor: self.cursor as nat }
    }
}

/// The scanner: the listings it is in, and the totals so far.
pub struct Scanner {
    extensions: Vec<Vec<char>>,
    depth: usize,
    levels: Vec<Level>,
    grand: ScanTotals,
    pending: Pending,
}

impl View for Scanner {
    type V = ScannerView;

    closed spec fn view(&self) -> ScannerView {
        ScannerView {
            extensions: spelled(self.extensions@),
            depth: self.depth as nat,
            levels: self.levels@.map_values(|level: Level| level@),
            grand: self.grand@,
            pending: self.pending,
        }
    }
}

impl Scanner {
    /// A scanner for files with the given extensions, to be started in a
    /// directory at `depth`.
    pub fn new(extensions: &Vec<String>, depth: usize) -> (scanner: Scanner)
        ensures
            scanner@ == ScannerView::initial(texts(extensions@), depth as nat),
            scanner@.wf(),
    {
        let scanner = Scanner {
            extensions: spell_all(extensions),
            depth,
            levels: Vec::new(),
            grand: ScanTotals::new(),
            pending: Pending::Start,
        };
        assert(scanner@.levels =~= Seq::empty());
        scanner
    }

    /// The answer that the scanner waits for.
    pub fn pending(&self) -> (pending: Pending)
        ensures
            pending == self@.pending,
    {
        self.pending
    }

    /// The totals of the whole scan so far.
    pub fn totals(&self) -> (totals: ScanTotals)
        ensures
            totals@ == self@.grand,
    {
        self.grand
    }

    /// Whether one more attempt can be counted without a counter running over.
    pub fn has_room(&self, removed: bool, size: u64) -> (room: bool)
        ensures
            room == self@.grand.after(removed, size as nat).fits(),
    {
        if removed {
            self.grand.deleted < usize::MAX && size <= u64::MAX - self.grand.bytes
        } else {
            self.grand.failed < usize::MAX
        }
    }

    /// Starts the scan.
    pub fn start(&mut self) -> (action: Action)
        requires
            old(self)@.wf(),
            old(self)@.pending == Pending::Start,
        ensures
            final(self)@ == old(self)@.started(),
            final(self)@.wf(),
            action == final(self)@.action(),
    {
        if self.depth > MAX_DEPTH {
            self.pending = Pending::Nothing;
            Action::Finish { totals: self.grand }
        } else {
            self.pending = Pending::Listing;
            Action::ListRoot
        }
    }

    /// Takes in the listing that was asked for. A directory that cannot be
    /// listed is given as an empty listing.
    pub fn listed(&mut self, entries: Vec<Entry>) -> (action: Action)
        requires
            old(self)@.wf(),
            old(self)@.pending == Pending::Listing,
        ensures
            final(self)@ == old(self)@.listed(entries@),
            final(self)@.wf(),
            action == final(self)@.action(),
    {
        let level = Level { entries, cursor: 0 };
        self.levels.push(level);
        proof {
            let pushed = ScannerView {
                levels: old(self)@.levels.push(LevelView { entries: entries@, cursor: 0 }),
                ..old(self)@
            };
            assert(self@.levels =~= pushed.levels);
            assert(self@ == pushed);
            assert forall|i: int| 0 <= i < pushed.levels.len() - 1 implies (
            #[trigger] pushed.levels[i]).cursor < pushed.levels[i].entries.len() by {
                assert(pushed.levels[i] == old(self)@.levels[i]);
            }
        }
        self.settle()
    }

    /// Takes in that the file under the cursor was removed and held `size`
    /// bytes. Hands back what to tell the progress sink, the running totals
    /// of the scan with this removal counted, and what to do next.
    pub fn removed(&mut self, size: u64) -> (step: (Progress, Action))
        requires
            old(self)@.wf(),
            old(self)@.pending == Pending::Removal,
            old(self)@.grand.after(true, size as nat).fits(),
        ensures
            final(self)@ == old(self)@.attempted(true, size as nat),
            final(self)@.wf(),
            step.1 == final(self)@.action(),
            step.0.index == old(self)@.top().cursor,
            step.0.totals@ == old(self)@.grand.after(true, size as nat),
    {
        self.grand = self.grand.record(true, size);
        let index = self.pass();
        let progress = Progress { index, totals: self.grand };
        let action = self.settle();
        (progress, action)
    }

    /// Takes in that the file under the cursor could not be removed.
    pub fn failed(&mut self) -> (action: Action)
        requires
            old(self)@.wf(),
            old(self)@.pending == Pending::Removal,
            old(self)@.grand.after(false, 0).fits(),
        ensures
            final(self)@ == old(self)@.attempted(false, 0),
            final(self)@.wf(),
            action == final(self)@.action(),
    {
        self.grand = self.grand.record(false, 0);
        let _ = self.pass();
        self.settle()
    }

    /// Takes in that the caller has gone back to the directory above.
    pub fn left(&mut self) -> (action: Action)
        requires
            old(self)@.wf(),
            old(self)@.pending == Pending::Departure,
        ensures
            final(self)@ == old(self)@.left(),
            final(self)@.wf(),
            action == final(self)@.action(),
    {
        let _ = self.levels.pop();
        proof {
            let above = ScannerView { levels: old(self)@.levels.drop_last(), ..old(self)@ };
            assert(self@.levels =~= above.levels);
            assert(self@ == above);
            assert forall|i: int| 0 <= i < above.levels.len() implies (
            #[trigger] above.levels[i]).cursor < above.levels[i].entries.len() by {
                assert(above.levels[i] == old(self)@.levels[i]);
            }
        }
        let _ = self.pass();
        self.settle()
    }

    /// Moves the cursor of the current listing past the entry it is on. Hands
    /// back where it was.
    fn pass(&mut self) -> (was: usize)
        requires
            old(self)@.steady(),
            old(self)@.levels.len() > 0,
            old(self)@.top().cursor < old(self)@.top().entries.len(),
        ensures
            final(self)@ == old(self)@.at(old(self)@.top().cursor + 1),
            final(self)@.steady(),
            was == old(self)@.top().cursor,
    {
        let mut level = self.levels.pop().unwrap();
        assert(level@ == old(self)@.levels[old(self)@.levels.len() - 1]);
        assert(level.cursor < level.entries.len());
        let index = level.cursor;
        level.cursor = index + 1;
        self.levels.push(level);
        proof {
            let moved = old(self)@.at(old(self)@.top().cursor + 1);
            assert(self@.levels =~= moved.levels);
            assert(self@ == moved);
            assert forall|i: int| 0 <= i < moved.levels.len() implies (
            #[trigger] moved.levels[i]).cursor <= moved.levels[i].entries.len() by {
                if i < moved.levels.len() - 1 {
                    assert(moved.levels[i] == old(self)@.levels[i]);
                }
            }
            assert forall|i: int| 0 <= i < moved.levels.len() - 1 implies (
            #[trigger] moved.levels[i]).cursor < moved.levels[i].entries.len() by {
                assert(moved.levels[i] == old(self)@.levels[i]);
            }
        }
        index
    }

    /// Moves the cursor on to the next entry that is not skipped and decides
    /// what is waited for.
    fn settle(&mut self) -> (action: Action)
        requires
            old(self)@.steady(),
            old(self)@.levels.len() > 0,
        ensures
            final(self)@ == old(self)@.settle(),
            final(self)@.wf(),
            action == final(self)@.action(),
    {
        let mut level = self.levels.pop().unwrap();
        assert(level@ == old(self)@.levels[old(self)@.levels.len() - 1]);
        let depth: usize = self.depth + self.levels.len();
        let ghost from = level.cursor as nat;
        let ghost exts = spelled(self.extensions@);
        let mut at: usize = level.cursor;
        let mut found = Treatment::Skip;
        let mut searching = true;
        while searching && at < level.entries.len()
            invariant
                from <= at <= level.entries.len(),
                exts == spelled(self.extensions@),
                next_active(level.entries@, at as nat, depth as nat, exts) == next_active(
                    level.entries@,
                    from,
                    depth as nat,
                    exts,
                ),
                searching ==> found == Treatment::Skip,
                !searching ==> at < level.entries.len() && found != Treatment::Skip && found
                    == treatment(
                    level.entries@[at as int].name@,
                    level.entries@[at as int].kind,
                    depth as nat,
                    exts,
                ),
            decreases level.entries.len() - at + if searching { 1nat } else { 0nat },
        {
            let t = treat(&level.entries[at], depth, &self.extensions);
            match t {
                Treatment::Skip => {
                    at = at + 1;
                },
                _ => {
                    found = t;
                    searching = false;
                },
            }
        }
        level.cursor = at;
        self.pending = match found {
            Treatment::Remove => Pending::Removal,
            Treatment::Descend => Pending::Listing,
            Treatment::Skip => if self.levels.len() == 0 {
                Pending::Nothing
            } else {
                Pending::Departure
            },
        };
        let grand = self.grand;
        self.levels.push(level);
        proof {
            let settled = old(self)@.settle();
            assert(at == next_active(level.entries@, from, depth as nat, exts));
            assert(self@.levels =~= settled.levels);
            assert(self@ == settled);
            assert forall|i: int| 0 <= i < settled.levels.len() implies (
            #[trigger] settled.levels[i]).cursor <= settled.levels[i].entries.len() by {
                if i < settled.levels.len() - 1 {
                    assert(settled.levels[i] == old(self)@.levels[i]);
                }
            }
            assert forall|i: int| 0 <= i < settled.levels.len() - 1 implies (
            #[trigger] settled.levels[i]).cursor < settled.levels[i].entries.len() by {
                assert(settled.levels[i] == old(self)@.levels[i]);
            }
        }
        match found {
            Treatment::Remove => Action::Remove { index: at },
            Treatment::Descend => Action::Enter { index: at },
            Treatment::Skip => if self.levels.len() == 1 {
                Action::Finish { totals: grand }
            } else {
                Action::Leave
            },
        }
    }
}

} // verus!
