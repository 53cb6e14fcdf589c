//! What a scan amounts to on a whole directory tree, and a run of the scanner
//! over a tree held in memory.

use vstd::prelude::*;
use vstd::string::StringExecFns;
use crate::scanner::{lemma_next_active, treatment, Action, Entry, LevelView, Pending,
    Scanner, ScannerView, Treatment, MAX_DEPTH};
use crate::text::texts;
use crate::totals::{ScanTotals, Tally};
use crate::tree::Node;

verus! {

/// What happened to an entry during a scan, as the contracts see it.
pub enum Touch {
    /// The directory was listed.
    Listed,
    /// The file was removed; the totals are the running totals of the whole
    /// scan right after the removal.
    Removed(Tally),
    /// The file could not be removed.
    Failed,
}

/// One thing that a scan did, as the contracts see it.
pub struct Event {
    /// Where the entry is: its position in the listing that the scan started
    /// in, or the positions that lead down to it. Empty for the listing that
    /// the scan started in.
    pub path: Seq<usize>,
    /// What happened to it.
    pub touch: Touch,
}

/// What the scan does with a node of a listing at `depth`.
pub open spec fn node_treatment(node: Node, depth: nat, extensions: Seq<Seq<char>>) -> Treatment {
    treatment(node.name(), node.kind(), depth, extensions)
}

/// The totals that a node of a listing at `depth` adds to a scan.
pub open spec fn node_tally(node: Node, depth: nat, extensions: Seq<Seq<char>>) -> Tally
    decreases node, 0nat,
{
    match node {
        Node::File { size, removable, .. } => if node_treatment(node, depth, extensions)
            == Treatment::Remove {
            Tally::zero().after(removable, size as nat)
        } else {
            Tally::zero()
        },
        Node::Directory { entries, .. } => if node_treatment(node, depth, extensions)
            == Treatment::Descend {
            listing_tally(entries@, entries@.len(), depth + 1, extensions)
        } else {
            Tally::zero()
        },
        Node::Other { .. } => Tally::zero(),
    }
}

/// The totals that the first `n` nodes of a listing at `depth` add to a scan.
pub open spec fn listing_tally(
    nodes: Seq<Node>,
    n: nat,
    depth: nat,
    extensions: Seq<Seq<char>>,
) -> Tally
    decreases nodes, n,
{
    if n == 0 || n > nodes.len() {
        Tally::zero()
    } else {
        listing_tally(nodes, (n - 1) as nat, depth, extensions).plus(
            node_tally(nodes[n - 1], depth, extensions),
        )
    }
}

/// The totals of a scan that starts in a listing at `depth`: nothing where
/// that is deeper than `MAX_DEPTH`.
pub open spec fn scan_tally(nodes: Seq<Node>, depth: nat, extensions: Seq<Seq<char>>) -> Tally {
    if depth > MAX_DEPTH {
        Tally::zero()
    } else {
        listing_tally(nodes, nodes.len(), depth, extensions)
    }
}

/// What a scan does to a node of a listing at `depth`, and below it, in order.
/// `path` leads to the node, and `before` are the totals of the scan when the
/// node's turn comes.
pub open spec fn node_journal(
    node: Node,
    depth: nat,
    extensions: Seq<Seq<char>>,
    path: Seq<usize>,
    before: Tally,
) -> Seq<Event>
    decreases node, 0nat,
{
    match node {
        Node::File { size, removable, .. } => if node_treatment(node, depth, extensions)
            == Treatment::Remove {
            if removable {
                seq![Event { path, touch: Touch::Removed(before.after(true, size as nat)) }]
            } else {
                seq![Event { path, touch: Touch::Failed }]
            }
        } else {
            Seq::empty()
        },
        Node::Directory { entries, .. } => if node_treatment(node, depth, extensions)
            == Treatment::Descend {
            seq![Event { path, touch: Touch::Listed }] + listing_journal(
                entries@,
                entries@.len(),
                depth + 1,
                extensions,
                path,
                before,
            )
        } else {
            Seq::empty()
        },
        Node::Other { .. } => Seq::empty(),
    }
}

/// What a scan does to the first `n` nodes of a listing at `depth`, and below
/// them, in order. `path` leads to the listing, and `before` are the totals of
/// the scan when the listing is entered.
pub open spec fn listing_journal(
    nodes: Seq<Node>,
    n: nat,
    depth: nat,
    extensions: Seq<Seq<char>>,
    path: Seq<usize>,
    before: Tally,
) -> Seq<Event>
    decreases nodes, n,
{
    if n == 0 || n > nodes.len() {
        Seq::empty()
    } else {
        listing_journal(nodes, (n - 1) as nat, depth, extensions, path, before) + node_journal(
            nodes[n - 1],
            depth,
            extensions,
            path.push((n - 1) as usize),
            before.plus(listing_tally(nodes, (n - 1) as nat, depth, extensions)),
        )
    }
}

/// All that a scan does which starts in a listing at `depth`: nothing where
/// that is deeper than `MAX_DEPTH`; else it lists the directory and goes on
/// from there.
pub open spec fn scan_journal(nodes: Seq<Node>, depth: nat, extensions: Seq<Seq<char>>) -> Seq<
    Event,
> {
    if depth > MAX_DEPTH {
        Seq::empty()
    } else {
        seq![Event { path: Seq::empty(), touch: Touch::Listed }] + listing_journal(
            nodes,
            nodes.len(),
            depth,
            extensions,
            Seq::empty(),
            Tally::zero(),
        )
    }
}

/// The totals of a listing never go down as more of its nodes are taken in.
pub proof fn lemma_listing_tally_grows(
    nodes: Seq<Node>,
    i: nat,
    j: nat,
    depth: nat,
    extensions: Seq<Seq<char>>,
)
    requires
        i <= j <= nodes.len(),
    ensures
        listing_tally(nodes, i, depth, extensions).le(listing_tally(nodes, j, depth, extensions)),
    decreases j,
{
    if i < j {
        lemma_listing_tally_grows(nodes, i, (j - 1) as nat, depth, extensions);
    }
}

/// The entries of a listing show the names and kinds of the nodes.
pub open spec fn mirrors(entries: Seq<Entry>, nodes: Seq<Node>) -> bool {
    &&& entries.len() == nodes.len()
    &&& forall|i: int|
        0 <= i < nodes.len() ==> (#[trigger] entries[i]).name@ == nodes[i].name() && entries[i].kind
            == nodes[i].kind()
}

/// Nodes that the scan skips add nothing to its totals and nothing to what it does.
pub proof fn lemma_skipped_add_nothing(
    nodes: Seq<Node>,
    entries: Seq<Entry>,
    from: nat,
    to: nat,
    depth: nat,
    extensions: Seq<Seq<char>>,
    path: Seq<usize>,
    before: Tally,
)
    requires
        mirrors(entries, nodes),
        from <= to <= nodes.len(),
        forall|i: int|
            from <= i < to ==> treatment(
                #[trigger] entries[i].name@,
                entries[i].kind,
                depth,
                extensions,
            ) == Treatment::Skip,
    ensures
        listing_tally(nodes, to, depth, extensions) == listing_tally(nodes, from, depth, extensions),
        listing_journal(nodes, to, depth, extensions, path, before) == listing_journal(
            nodes,
            from,
            depth,
            extensions,
            path,
            before,
        ),
    decreases to,
{
    if from < to {
        lemma_skipped_add_nothing(
            nodes,
            entries,
            from,
            (to - 1) as nat,
            depth,
            extensions,
            path,
            before,
        );
        let node = nodes[to - 1];
        assert(entries[to - 1].name@ == node.name());
        assert(node_treatment(node, depth, extensions) == Treatment::Skip);
        assert(node_tally(node, depth, extensions) == Tally::zero());
        assert(node_journal(
            node,
            depth,
            extensions,
            path.push((to - 1) as usize),
            before.plus(listing_tally(nodes, (to - 1) as nat, depth, extensions)),
        ) =~= Seq::empty());
        assert(listing_journal(nodes, to, depth, extensions, path, before) =~= listing_journal(
            nodes,
            (to - 1) as nat,
            depth,
            extensions,
            path,
            before,
        ));
    }
}

/// What happened to an entry during a scan.
#[derive(Clone, Copy, Debug, PartialEq, Eq, Structural)]
pub enum Outcome {
    /// The directory was listed.
    Listed,
    /// The file was removed; the totals are the running totals of the whole
    /// scan right after the removal: what the progress sink is told.
    Removed(ScanTotals),
    /// The file could not be removed.
    Failed,
}

/// One thing that a scan did.
#[derive(Debug)]
pub struct Visit {
    /// The positions that lead from the listing the scan started in down to the entry.
    pub path: Vec<usize>,
    /// What happened to the entry.
    pub outcome: Outcome,
}

impl View for Visit {
    type V = Event;

    open spec fn view(&self) -> Event {
        Event {
            path: self.path@,
            touch: match self.outcome {
                Outcome::Listed => Touch::Listed,
                Outcome::Removed(totals) => Touch::Removed(totals@),
                Outcome::Failed => Touch::Failed,
            },
        }
    }
}

/// The events that a list of visits stands for.
pub open spec fn events(visits: Seq<Visit>) -> Seq<Event> {
    visits.map_values(|v: Visit| v@)
}

/// What a listing shows of the given nodes.
pub fn entries_of(nodes: &Vec<Node>) -> (entries: Vec<Entry>)
    ensures
        mirrors(entries@, nodes@),
{
    let mut entries: Vec<Entry> = Vec::new();
    let mut i: usize = 0;
    while i < nodes.len()
        invariant
            i <= nodes.len(),
            entries.len() == i,
            forall|j: int|
                0 <= j < i ==> (#[trigger] entries@[j]).name@ == nodes@[j].name() && entries@[j].kind
                    == nodes@[j].kind(),
        decreases nodes.len() - i,
    {
        let node = &nodes[i];
        entries.push(Entry { name: String::from_str(node.get_name()), kind: node.get_kind() });
        i = i + 1;
    }
    entries
}

/// `path` with `last` added at its end.
fn extended(path: &Vec<usize>, last: usize) -> (longer: Vec<usize>)
    ensures
        longer@ == path@.push(last),
{
    let mut longer: Vec<usize> = Vec::new();
    let mut i: usize = 0;
    while i < path.len()
        invariant
            i <= path.len(),
            longer@ == path@.take(i as int),
        decreases path.len() - i,
    {
        longer.push(path[i]);
        assert(longer@ =~= path@.take(i + 1));
        i = i + 1;
    }
    assert(path@.take(path.len() as int) =~= path@);
    longer.push(last);
    longer
}

/// The depth of the listing that a scanner in state `start` waits for.
pub open spec fn awaited_depth(start: ScannerView) -> nat {
    start.depth + start.levels.len()
}

/// The scanner, in state `now`, works through the listing `nodes`, shown to
/// it as `shown`, which it asked for in state `start`: the listings above are
/// as they were, and the totals have grown by what the nodes before the
/// cursor add.
pub open spec fn working(
    now: ScannerView,
    start: ScannerView,
    shown: Seq<Entry>,
    nodes: Seq<Node>,
) -> bool {
    &&& now.wf()
    &&& now.extensions == start.extensions
    &&& now.depth == start.depth
    &&& now.levels.len() == start.levels.len() + 1
    &&& now.levels.drop_last() == start.levels
    &&& now.top().entries == shown
    &&& now.top().cursor <= nodes.len()
    &&& now.pending != Pending::Start
    &&& now.pending == Pending::Nothing ==> start.levels.len() == 0
    &&& now.pending == Pending::Nothing || now.pending == Pending::Departure
        ==> now.top().cursor == nodes.len()
    &&& now.grand == start.grand.plus(
        listing_tally(nodes, now.top().cursor, awaited_depth(start), start.extensions),
    )
}

/// What the scanner asks for while it works through a listing.
proof fn lemma_working_action(
    now: ScannerView,
    start: ScannerView,
    shown: Seq<Entry>,
    nodes: Seq<Node>,
)
    requires
        working(now, start, shown, nodes),
        mirrors(shown, nodes),
        nodes.len() <= usize::MAX,
    ensures
        now.action() != Action::ListRoot,
        now.action() is Remove ==> now.pending == Pending::Removal && now.action()->Remove_index
            == now.top().cursor && now.top().cursor < nodes.len() && node_treatment(
            nodes[now.top().cursor as int],
            awaited_depth(start),
            start.extensions,
        ) == Treatment::Remove,
        now.action() is Enter ==> now.pending == Pending::Listing && now.action()->Enter_index
            == now.top().cursor && now.top().cursor < nodes.len() && node_treatment(
            nodes[now.top().cursor as int],
            awaited_depth(start),
            start.extensions,
        ) == Treatment::Descend,
        now.action() is Leave ==> now.pending == Pending::Departure,
        now.action() is Finish ==> now.pending == Pending::Nothing,
{
    assert(now.top_depth() == awaited_depth(start));
    if now.pending == Pending::Removal || now.pending == Pending::Listing {
        let c = now.top().cursor as int;
        assert(shown[c].name@ == nodes[c].name());
        assert(shown[c].kind == nodes[c].kind());
    }
}

/// Once the listing has come in, the scanner works through it, and nothing
/// has been done to its nodes yet.
proof fn lemma_listing_begun(
    start: ScannerView,
    shown: Seq<Entry>,
    nodes: Seq<Node>,
    path: Seq<usize>,
)
    requires
        start.wf(),
        start.pending == Pending::Listing,
        mirrors(shown, nodes),
        start.listed(shown).wf(),
    ensures
        working(start.listed(shown), start, shown, nodes),
        listing_journal(
            nodes,
            start.listed(shown).top().cursor,
            awaited_depth(start),
            start.extensions,
            path,
            start.grand,
        ) == Seq::<Event>::empty(),
{
    let depth = awaited_depth(start);
    let exts = start.extensions;
    let pushed = ScannerView {
        levels: start.levels.push(LevelView { entries: shown, cursor: 0 }),
        ..start
    };
    let now = start.listed(shown);
    assert(pushed.top_depth() == depth);
    assert(pushed.levels.drop_last() =~= start.levels);
    assert(now.levels.drop_last() =~= start.levels);
    lemma_next_active(shown, 0, depth, exts);
    lemma_skipped_add_nothing(nodes, shown, 0, now.top().cursor, depth, exts, path, start.grand);
}

/// After the node under the cursor has been dealt with and has added `part`
/// to the totals, the scanner works on from the next node that it does not
/// skip, and what the skipped nodes add is nothing.
proof fn lemma_moved_on(
    now: ScannerView,
    next: ScannerView,
    start: ScannerView,
    shown: Seq<Entry>,
    nodes: Seq<Node>,
    path: Seq<usize>,
    part: Tally,
)
    requires
        working(now, start, shown, nodes),
        mirrors(shown, nodes),
        now.top().cursor < nodes.len(),
        part == node_tally(
            nodes[now.top().cursor as int],
            awaited_depth(start),
            start.extensions,
        ),
        next == (ScannerView { grand: now.grand.plus(part), ..now }).at(
            now.top().cursor + 1,
        ).settle(),
        next.wf(),
    ensures
        working(next, start, shown, nodes),
        now.top().cursor < next.top().cursor,
        listing_journal(nodes, next.top().cursor, awaited_depth(start), start.extensions, path, start.grand)
            == listing_journal(
            nodes,
            now.top().cursor,
            awaited_depth(start),
            start.extensions,
            path,
            start.grand,
        ) + node_journal(
            nodes[now.top().cursor as int],
            awaited_depth(start),
            start.extensions,
            path.push(now.top().cursor as usize),
            start.grand.plus(
                listing_tally(nodes, now.top().cursor, awaited_depth(start), start.extensions),
            ),
        ),
{
    let depth = awaited_depth(start);
    let exts = start.extensions;
    let cursor = now.top().cursor;
    let moved = (ScannerView { grand: now.grand.plus(part), ..now }).at(cursor + 1);
    assert(moved.top_depth() == depth);
    assert(moved.levels.drop_last() =~= start.levels);
    assert(next.levels.drop_last() =~= start.levels);
    lemma_next_active(shown, cursor + 1, depth, exts);
    lemma_skipped_add_nothing(
        nodes,
        shown,
        cursor + 1,
        next.top().cursor,
        depth,
        exts,
        path,
        start.grand,
    );
    assert(nodes[cursor + 1 - 1] == nodes[cursor as int]);
    assert(listing_tally(nodes, cursor + 1, depth, exts) == listing_tally(
        nodes,
        cursor,
        depth,
        exts,
    ).plus(part));
}

/// Leaving a listing that is done takes the scanner to where it would be had
/// the directory's totals been added in one go.
proof fn lemma_left(now: ScannerView, start: ScannerView, shown: Seq<Entry>, nodes: Seq<Node>)
    requires
        working(now, start, shown, nodes),
        now.pending == Pending::Departure,
    ensures
        start.levels.len() > 0,
        now.left() == (ScannerView {
            grand: start.grand.plus(
                listing_tally(nodes, nodes.len(), awaited_depth(start), start.extensions),
            ),
            ..start
        }).at(start.top().cursor + 1).settle(),
{
    let target = ScannerView {
        grand: start.grand.plus(
            listing_tally(nodes, nodes.len(), awaited_depth(start), start.extensions),
        ),
        ..start
    };
    let above = ScannerView { levels: now.levels.drop_last(), ..now };
    assert(above.at(above.top().cursor + 1).levels == target.at(start.top().cursor + 1).levels);
}

/// What a file that the scan removes adds to the totals.
proof fn lemma_file_part(node: Node, depth: nat, extensions: Seq<Seq<char>>)
    requires
        node is File,
        node_treatment(node, depth, extensions) == Treatment::Remove,
    ensures
        node_tally(node, depth, extensions) == Tally::zero().after(node.removable(), node.size()),
        forall|t: Tally| #[trigger]
            t.plus(node_tally(node, depth, extensions)) == t.after(node.removable(), node.size()),
{
}

/// What a directory that the scan enters adds to the totals: what its
/// entries add, one level deeper.
proof fn lemma_directory_part(node: Node, depth: nat, extensions: Seq<Seq<char>>)
    requires
        node is Directory,
        node_treatment(node, depth, extensions) == Treatment::Descend,
    ensures
        node_tally(node, depth, extensions) == listing_tally(
            node.children(),
            node.children().len(),
            depth + 1,
            extensions,
        ),
{
}

/// Runs the scanner through one listing and all below it: answers its
/// requests from `nodes` until it asks to go back up or is done, and writes
/// down what it did.
fn run_level(
    scanner: &mut Scanner,
    nodes: &Vec<Node>,
    journal: &mut Vec<Visit>,
    path: &Vec<usize>,
) -> (action: Action)
    requires
        old(scanner)@.wf(),
        old(scanner)@.pending == Pending::Listing,
        old(scanner)@.grand.plus(
            listing_tally(
                nodes@,
                nodes@.len(),
                awaited_depth(old(scanner)@),
                old(scanner)@.extensions,
            ),
        ).fits(),
    ensures
        final(scanner)@.wf(),
        action == final(scanner)@.action(),
        events(final(journal)@) == events(old(journal)@) + listing_journal(
            nodes@,
            nodes@.len(),
            awaited_depth(old(scanner)@),
            old(scanner)@.extensions,
            path@,
            old(scanner)@.grand,
        ),
        old(scanner)@.levels.len() == 0 ==> final(scanner)@.pending == Pending::Nothing
            && final(scanner)@.grand == old(scanner)@.grand.plus(
            listing_tally(
                nodes@,
                nodes@.len(),
                awaited_depth(old(scanner)@),
                old(scanner)@.extensions,
            ),
        ),
        old(scanner)@.levels.len() > 0 ==> final(scanner)@ == (ScannerView {
            grand: old(scanner)@.grand.plus(
                listing_tally(
                    nodes@,
                    nodes@.len(),
                    awaited_depth(old(scanner)@),
                    old(scanner)@.extensions,
                ),
            ),
            ..old(scanner)@
        }).at(old(scanner)@.top().cursor + 1).settle(),
    decreases nodes,
{
    let ghost start = scanner@;
    let ghost depth = awaited_depth(start);
    let ghost exts = start.extensions;
    let ghost written = events(journal@);
    assert(nodes@.len() <= usize::MAX) by {
        assert(nodes.len() <= usize::MAX);
    }
    let entries = entries_of(nodes);
    let ghost shown = entries@;
    let mut action = scanner.listed(entries);
    proof {
        lemma_listing_begun(start, shown, nodes@, path@);
        assert(events(journal@) =~= written + Seq::<Event>::empty());
    }
    loop
        invariant
            start == old(scanner)@,
            written == events(old(journal)@),
            depth == awaited_depth(start),
            exts == start.extensions,
            start.grand.plus(listing_tally(nodes@, nodes@.len(), depth, exts)).fits(),
            mirrors(shown, nodes@),
            nodes@.len() <= usize::MAX,
            working(scanner@, start, shown, nodes@),
            action == scanner@.action(),
            events(journal@) == written + listing_journal(
                nodes@,
                scanner@.top().cursor,
                depth,
                exts,
                path@,
                start.grand,
            ),
        decreases nodes@.len() - scanner@.top().cursor,
    {
        let ghost now = scanner@;
        let ghost cursor = now.top().cursor;
        let ghost so_far = listing_tally(nodes@, cursor, depth, exts);
        let ghost noted = events(journal@);
        proof {
            lemma_working_action(now, start, shown, nodes@);
        }
        match action {
            Action::Remove { index } => {
                let node = &nodes[index];
                proof {
                    lemma_listing_tally_grows(nodes@, cursor + 1, nodes@.len(), depth, exts);
                    assert(nodes@[cursor + 1 - 1] == *node);
                }
                match node {
                    Node::File { size, removable, .. } => {
                        proof {
                            lemma_file_part(*node, depth, exts);
                        }
                        if *removable {
                            let (progress, next) = scanner.removed(*size);
                            journal.push(
                                Visit {
                                    path: extended(path, index),
                                    outcome: Outcome::Removed(progress.totals),
                                },
                            );
                            action = next;
                            proof {
                                assert(events(journal@) =~= noted + node_journal(
                                    *node,
                                    depth,
                                    exts,
                                    path@.push(index),
                                    start.grand.plus(so_far),
                                ));
                            }
                        } else {
                            action = scanner.failed();
                            journal.push(
                                Visit { path: extended(path, index), outcome: Outcome::Failed },
                            );
                            proof {
                                assert(events(journal@) =~= noted + node_journal(
                                    *node,
                                    depth,
                                    exts,
                                    path@.push(index),
                                    start.grand.plus(so_far),
                                ));
                            }
                        }
                    },
                    _ => {
                        assert(false);
                    },
                }
                proof {
                    lemma_moved_on(
                        now,
                        scanner@,
                        start,
                        shown,
                        nodes@,
                        path@,
                        node_tally(*node, depth, exts),
                    );
                }
            },
            Action::Enter { index } => {
                let node = &nodes[index];
                proof {
                    lemma_listing_tally_grows(nodes@, cursor + 1, nodes@.len(), depth, exts);
                    assert(nodes@[cursor + 1 - 1] == *node);
                }
                match node {
                    Node::Directory { entries: below, .. } => {
                        let deeper = extended(path, index);
                        journal.push(Visit { path: extended(path, index), outcome: Outcome::Listed });
                        let ghost listed = events(journal@);
                        proof {
                            assert(listed =~= noted + seq![
                                Event { path: path@.push(index), touch: Touch::Listed },
                            ]);
                            lemma_directory_part(*node, depth, exts);
                            assert(node.children() == below@);
                            assert(listing_tally(nodes@, cursor + 1, depth, exts) == so_far.plus(
                                node_tally(*node, depth, exts),
                            ));
                            assert(awaited_depth(now) == depth + 1);
                        }
                        action = run_level(scanner, below, journal, &deeper);
                        proof {
                            assert(events(journal@) =~= noted + node_journal(
                                *node,
                                depth,
                                exts,
                                path@.push(index),
                                start.grand.plus(so_far),
                            ));
                            lemma_moved_on(
                                now,
                                scanner@,
                                start,
                                shown,
                                nodes@,
                                path@,
                                node_tally(*node, depth, exts),
                            );
                        }
                    },
                    _ => {
                        assert(false);
                    },
                }
            },
            Action::Leave => {
                proof {
                    lemma_left(now, start, shown, nodes@);
                }
                return scanner.left();
            },
            Action::Finish { .. } => {
                return action;
            },
            Action::ListRoot => {
                assert(false);
                return action;
            },
        }
    }
}

/// Runs a scan over a directory tree held in memory: removes the files with
/// one of the given extensions, as far as the tree lets them be removed, and
/// hands back the totals and all that was done, in order.
pub fn clean_files_by_extension_with_progress(
    root: &Vec<Node>,
    extensions: &Vec<String>,
    depth: usize,
) -> (result: (ScanTotals, Vec<Visit>))
    requires
        scan_tally(root@, depth as nat, texts(extensions@)).fits(),
    ensures
        result.0@ == scan_tally(root@, depth as nat, texts(extensions@)),
        events(result.1@) == scan_journal(root@, depth as nat, texts(extensions@)),
{
    let mut scanner = Scanner::new(extensions, depth);
    let mut journal: Vec<Visit> = Vec::new();
    let first = scanner.start();
    match first {
        Action::ListRoot => {
            let path: Vec<usize> = Vec::new();
            journal.push(Visit { path: Vec::new(), outcome: Outcome::Listed });
            proof {
                assert(events(journal@) =~= seq![Event { path: Seq::empty(), touch: Touch::Listed }]);
            }
            let _ = run_level(&mut scanner, root, &mut journal, &path);
            (scanner.totals(), journal)
        },
        _ => {
            assert(events(journal@) =~= Seq::empty());
            (scanner.totals(), journal)
        },
    }
}

} // verus!
