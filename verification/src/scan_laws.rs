//! What holds of every scan: how its totals split over the directories of a
//! tree, how deep it reaches, what it keeps out of, and that its journal and
//! its totals agree.

use vstd::prelude::*;
use crate::names::{matches_extension, protected_name};
use crate::scanner::{treatment, Treatment, MAX_DEPTH};
use crate::totals::Tally;
use crate::tree::{EntryKind, Node};
use crate::walk::{listing_journal, listing_tally, node_journal, node_tally, node_treatment,
    scan_journal, scan_tally, Event, Touch};

verus! {

/// Whether a scan at `depth` goes into a directory of that name at all: at the
/// root it stays out of the system directories.
pub open spec fn open_to_scan(name: Seq<char>, depth: nat) -> bool {
    !(depth == 0 && protected_name(name))
}

/// The totals that the files directly among the first `n` nodes of a listing
/// at `depth` add to a scan: nothing where that is deeper than `MAX_DEPTH`.
pub open spec fn own_tally(nodes: Seq<Node>, n: nat, depth: nat, extensions: Seq<Seq<char>>) -> Tally
    decreases n,
{
    if n == 0 || n > nodes.len() || depth > MAX_DEPTH {
        Tally::zero()
    } else {
        own_tally(nodes, (n - 1) as nat, depth, extensions).plus(
            if nodes[n - 1] is File {
                node_tally(nodes[n - 1], depth, extensions)
            } else {
                Tally::zero()
            },
        )
    }
}

/// The totals of separate scans, started one level deeper, of each directory
/// among the first `n` nodes of a listing at `depth` that the scan is open to.
pub open spec fn below_tally(
    nodes: Seq<Node>,
    n: nat,
    depth: nat,
    extensions: Seq<Seq<char>>,
) -> Tally
    decreases n,
{
    if n == 0 || n > nodes.len() {
        Tally::zero()
    } else {
        below_tally(nodes, (n - 1) as nat, depth, extensions).plus(
            if nodes[n - 1] is Directory && open_to_scan(nodes[n - 1].name(), depth) {
                scan_tally(nodes[n - 1].children(), depth + 1, extensions)
            } else {
                Tally::zero()
            },
        )
    }
}

/// The totals of a listing are those of its own files together with those of
/// separate scans of its directories.
pub proof fn lemma_listing_splits(
    nodes: Seq<Node>,
    n: nat,
    depth: nat,
    extensions: Seq<Seq<char>>,
)
    requires
        n <= nodes.len(),
        depth <= MAX_DEPTH,
    ensures
        listing_tally(nodes, n, depth, extensions) == own_tally(nodes, n, depth, extensions).plus(
            below_tally(nodes, n, depth, extensions),
        ),
    decreases n,
{
    if n > 0 {
        lemma_listing_splits(nodes, (n - 1) as nat, depth, extensions);
        let node = nodes[n - 1];
        let own = if node is File {
            node_tally(node, depth, extensions)
        } else {
            Tally::zero()
        };
        let below = if node is Directory && open_to_scan(node.name(), depth) {
            scan_tally(node.children(), depth + 1, extensions)
        } else {
            Tally::zero()
        };
        assert(node_tally(node, depth, extensions) == own.plus(below)) by {
            match node {
                Node::Directory { entries, .. } => {
                    assert(node.children() == entries@);
                    if open_to_scan(node.name(), depth) {
                        if depth < MAX_DEPTH {
                            assert(node_treatment(node, depth, extensions) == Treatment::Descend);
                        } else {
                            assert(node_treatment(node, depth, extensions) == Treatment::Skip);
                        }
                    } else {
                        assert(node_treatment(node, depth, extensions) == Treatment::Skip);
                    }
                },
                _ => {},
            }
        }
        assert(own_tally(nodes, n, depth, extensions) == own_tally(
            nodes,
            (n - 1) as nat,
            depth,
            extensions,
        ).plus(own));
        assert(below_tally(nodes, n, depth, extensions) == below_tally(
            nodes,
            (n - 1) as nat,
            depth,
            extensions,
        ).plus(below));
    }
}

/// Below the deepest level separate scans of the directories find nothing.
pub proof fn lemma_nothing_below(nodes: Seq<Node>, n: nat, depth: nat, extensions: Seq<Seq<char>>)
    requires
        n <= nodes.len(),
        depth >= MAX_DEPTH,
    ensures
        below_tally(nodes, n, depth, extensions) == Tally::zero(),
    decreases n,
{
    if n > 0 {
        lemma_nothing_below(nodes, (n - 1) as nat, depth, extensions);
    }
}

/// One scan of a tree comes to the same totals as its own matching files
/// together with separate scans of each of its directories, one level deeper.
pub proof fn lemma_scan_splits(nodes: Seq<Node>, depth: nat, extensions: Seq<Seq<char>>)
    ensures
        scan_tally(nodes, depth, extensions) == own_tally(
            nodes,
            nodes.len(),
            depth,
            extensions,
        ).plus(below_tally(nodes, nodes.len(), depth, extensions)),
{
    if depth <= MAX_DEPTH {
        lemma_listing_splits(nodes, nodes.len(), depth, extensions);
    } else {
        lemma_nothing_below(nodes, nodes.len(), depth, extensions);
    }
}

/// Where an event of a listing's journal lies: below `path`, under one of the
/// first `n` nodes that the scan does not skip, and no deeper than the scan goes.
pub open spec fn placed(
    e: Event,
    nodes: Seq<Node>,
    n: nat,
    depth: nat,
    extensions: Seq<Seq<char>>,
    path: Seq<usize>,
) -> bool {
    &&& e.path.len() > path.len()
    &&& e.path.subrange(0, path.len() as int) == path
    &&& e.path[path.len() as int] < n
    &&& node_treatment(nodes[e.path[path.len() as int] as int], depth, extensions)
        != Treatment::Skip
    &&& e.touch is Listed ==> depth + e.path.len() - path.len() <= MAX_DEPTH
    &&& depth + e.path.len() - path.len() <= MAX_DEPTH + 1
}

/// Every event of a listing's journal is placed under a node that is not skipped.
pub proof fn lemma_journal_placed(
    nodes: Seq<Node>,
    n: nat,
    depth: nat,
    extensions: Seq<Seq<char>>,
    path: Seq<usize>,
    start: Tally,
)
    requires
        n <= nodes.len() <= usize::MAX,
        depth <= MAX_DEPTH,
    ensures
        forall|k: int|
            0 <= k < listing_journal(nodes, n, depth, extensions, path, start).len() ==> placed(
                #[trigger] listing_journal(nodes, n, depth, extensions, path, start)[k],
                nodes,
                n,
                depth,
                extensions,
                path,
            ),
    decreases nodes, n,
{
    if n > 0 {
        let earlier = listing_journal(nodes, (n - 1) as nat, depth, extensions, path, start);
        let node = nodes[n - 1];
        let here = path.push((n - 1) as usize);
        let before = listing_tally(nodes, (n - 1) as nat, depth, extensions);
        let added = node_journal(node, depth, extensions, here, start.plus(before));
        let all = listing_journal(nodes, n, depth, extensions, path, start);
        assert(all == earlier + added);
        lemma_journal_placed(nodes, (n - 1) as nat, depth, extensions, path, start);
        assert(here.subrange(0, path.len() as int) =~= path);
        assert forall|k: int| 0 <= k < all.len() implies placed(
            #[trigger] all[k],
            nodes,
            n,
            depth,
            extensions,
            path,
        ) by {
            if k < earlier.len() {
                assert(all[k] == earlier[k]);
                assert(placed(earlier[k], nodes, (n - 1) as nat, depth, extensions, path));
            } else {
                let e = added[k - earlier.len()];
                assert(all[k] == e);
                match node {
                    Node::File { .. } => {
                        assert(e.path == here);
                    },
                    Node::Directory { entries, .. } => {
                        assert(node_treatment(node, depth, extensions) == Treatment::Descend);
                        let inner = listing_journal(
                            entries@,
                            entries@.len(),
                            depth + 1,
                            extensions,
                            here,
                            start.plus(before),
                        );
                        assert(added == seq![Event { path: here, touch: Touch::Listed }] + inner);
                        if k - earlier.len() == 0 {
                            assert(e.path == here);
                        } else {
                            assert(entries@.len() <= usize::MAX) by {
                                assert(entries.len() <= usize::MAX);
                            }
                            lemma_journal_placed(
                                entries@,
                                entries@.len(),
                                depth + 1,
                                extensions,
                                here,
                                start.plus(before),
                            );
                            let j = k - earlier.len() - 1;
                            assert(e == inner[j]);
                            assert(placed(
                                inner[j],
                                entries@,
                                entries@.len(),
                                depth + 1,
                                extensions,
                                here,
                            ));
                            assert(e.path.subrange(0, here.len() as int)[path.len() as int]
                                == here[path.len() as int]);
                            assert(e.path.subrange(0, path.len() as int) =~= e.path.subrange(
                                0,
                                here.len() as int,
                            ).subrange(0, path.len() as int));
                        }
                    },
                    Node::Other { .. } => {},
                }
            }
        }
    }
}

/// A scan never lists a directory whose entries would lie deeper than
/// `MAX_DEPTH`, and never removes or tries to remove a file that lies deeper:
/// an event's path has one position for each level below the start.
pub proof fn lemma_scan_stays_above_depth_bound(
    nodes: Seq<Node>,
    depth: nat,
    extensions: Seq<Seq<char>>,
)
    requires
        nodes.len() <= usize::MAX,
    ensures
        forall|k: int|
            0 <= k < scan_journal(nodes, depth, extensions).len() ==> {
                let e = #[trigger] scan_journal(nodes, depth, extensions)[k];
                if e.touch is Listed {
                    depth + e.path.len() <= MAX_DEPTH
                } else {
                    depth + e.path.len() - 1 <= MAX_DEPTH
                }
            },
{
    if depth <= MAX_DEPTH {
        let inner = listing_journal(nodes, nodes.len(), depth, extensions, Seq::empty(), Tally::zero());
        lemma_journal_placed(nodes, nodes.len(), depth, extensions, Seq::empty(), Tally::zero());
        assert forall|k: int| 0 <= k < scan_journal(nodes, depth, extensions).len() implies {
            let e = #[trigger] scan_journal(nodes, depth, extensions)[k];
            if e.touch is Listed {
                depth + e.path.len() <= MAX_DEPTH
            } else {
                depth + e.path.len() - 1 <= MAX_DEPTH
            }
        } by {
            if k > 0 {
                assert(scan_journal(nodes, depth, extensions)[k] == inner[k - 1]);
                assert(placed(inner[k - 1], nodes, nodes.len(), depth, extensions, Seq::empty()));
            }
        }
    }
}

/// A scan that starts at the root touches nothing in or below an entry of the
/// root whose name marks a system directory: it neither lists nor removes it,
/// nor anything that lies under it.
pub proof fn lemma_protected_entries_untouched(nodes: Seq<Node>, extensions: Seq<Seq<char>>)
    requires
        nodes.len() <= usize::MAX,
    ensures
        forall|k: int|
            0 <= k < scan_journal(nodes, 0, extensions).len() ==> {
                let e = #[trigger] scan_journal(nodes, 0, extensions)[k];
                e.path.len() > 0 ==> e.path[0] < nodes.len() && !protected_name(
                    nodes[e.path[0] as int].name(),
                )
            },
{
    let inner = listing_journal(nodes, nodes.len(), 0, extensions, Seq::empty(), Tally::zero());
    lemma_journal_placed(nodes, nodes.len(), 0, extensions, Seq::empty(), Tally::zero());
    assert forall|k: int| 0 <= k < scan_journal(nodes, 0, extensions).len() implies {
        let e = #[trigger] scan_journal(nodes, 0, extensions)[k];
        e.path.len() > 0 ==> e.path[0] < nodes.len() && !protected_name(
            nodes[e.path[0] as int].name(),
        )
    } by {
        if k > 0 {
            assert(scan_journal(nodes, 0, extensions)[k] == inner[k - 1]);
            assert(placed(inner[k - 1], nodes, nodes.len(), 0, extensions, Seq::empty()));
        }
    }
}

/// At the deepest level a file with a matching extension is still removed,
/// and no directory is entered any more.
pub proof fn lemma_deepest_level(name: Seq<char>, extensions: Seq<Seq<char>>)
    ensures
        matches_extension(name, extensions) ==> treatment(
            name,
            EntryKind::File,
            MAX_DEPTH as nat,
            extensions,
        ) == Treatment::Remove,
        treatment(name, EntryKind::Directory, MAX_DEPTH as nat, extensions) == Treatment::Skip,
{
}

/// How many of the events are removals.
pub open spec fn removals(events: Seq<Event>) -> nat
    decreases events.len(),
{
    if events.len() == 0 {
        0
    } else {
        removals(events.drop_last()) + if events.last().touch is Removed {
            1nat
        } else {
            0nat
        }
    }
}

/// How many of the events are failures.
pub open spec fn failures(events: Seq<Event>) -> nat
    decreases events.len(),
{
    if events.len() == 0 {
        0
    } else {
        failures(events.drop_last()) + if events.last().touch is Failed {
            1nat
        } else {
            0nat
        }
    }
}

/// A journal of one event holds one removal, one failure, or neither.
pub proof fn lemma_count_of_one(e: Event)
    ensures
        removals(seq![e]) == if e.touch is Removed {
            1nat
        } else {
            0nat
        },
        failures(seq![e]) == if e.touch is Failed {
            1nat
        } else {
            0nat
        },
{
    assert(seq![e].drop_last() =~= Seq::<Event>::empty());
    assert(seq![e].last() == e);
    reveal_with_fuel(removals, 2);
    reveal_with_fuel(failures, 2);
}

/// Removals and failures of two journals written one after the other add up.
pub proof fn lemma_counts_add_up(a: Seq<Event>, b: Seq<Event>)
    ensures
        removals(a + b) == removals(a) + removals(b),
        failures(a + b) == failures(a) + failures(b),
    decreases b.len(),
{
    if b.len() == 0 {
        assert(a + b =~= a);
    } else {
        lemma_counts_add_up(a, b.drop_last());
        assert((a + b).drop_last() =~= a + b.drop_last());
        assert((a + b).last() == b.last());
    }
}

/// The journal of a listing holds one removal for each file counted as
/// deleted and one failure for each counted as failed.
pub proof fn lemma_journal_matches_tally(
    nodes: Seq<Node>,
    n: nat,
    depth: nat,
    extensions: Seq<Seq<char>>,
    path: Seq<usize>,
    start: Tally,
)
    requires
        n <= nodes.len(),
    ensures
        removals(listing_journal(nodes, n, depth, extensions, path, start)) == listing_tally(
            nodes,
            n,
            depth,
            extensions,
        ).deleted,
        failures(listing_journal(nodes, n, depth, extensions, path, start)) == listing_tally(
            nodes,
            n,
            depth,
            extensions,
        ).failed,
    decreases nodes, n,
{
    if n > 0 {
        let earlier = listing_journal(nodes, (n - 1) as nat, depth, extensions, path, start);
        let node = nodes[n - 1];
        let here = path.push((n - 1) as usize);
        let before = listing_tally(nodes, (n - 1) as nat, depth, extensions);
        let added = node_journal(node, depth, extensions, here, start.plus(before));
        lemma_journal_matches_tally(nodes, (n - 1) as nat, depth, extensions, path, start);
        lemma_counts_add_up(earlier, added);
        assert(removals(added) == node_tally(node, depth, extensions).deleted && failures(added)
            == node_tally(node, depth, extensions).failed) by {
            match node {
                Node::File { size, removable, .. } => {
                    if node_treatment(node, depth, extensions) == Treatment::Remove {
                        lemma_count_of_one(added[0]);
                        assert(added =~= seq![added[0]]);
                    }
                },
                Node::Directory { entries, .. } => {
                    if node_treatment(node, depth, extensions) == Treatment::Descend {
                        let first = seq![Event { path: here, touch: Touch::Listed }];
                        let inner = listing_journal(
                            entries@,
                            entries@.len(),
                            depth + 1,
                            extensions,
                            here,
                            start.plus(before),
                        );
                        lemma_journal_matches_tally(
                            entries@,
                            entries@.len(),
                            depth + 1,
                            extensions,
                            here,
                            start.plus(before),
                        );
                        lemma_counts_add_up(first, inner);
                        lemma_count_of_one(first[0]);
                        assert(first =~= seq![first[0]]);
                    }
                },
                Node::Other { .. } => {},
            }
        }
    }
}

/// The progress sink hears of every removal, one by one: a scan's journal
/// holds as many removals as the scan counts files deleted, and as many
/// failures as it counts files failed.
pub proof fn lemma_every_removal_is_reported(
    nodes: Seq<Node>,
    depth: nat,
    extensions: Seq<Seq<char>>,
)
    ensures
        removals(scan_journal(nodes, depth, extensions)) == scan_tally(
            nodes,
            depth,
            extensions,
        ).deleted,
        failures(scan_journal(nodes, depth, extensions)) == scan_tally(
            nodes,
            depth,
            extensions,
        ).failed,
{
    if depth <= MAX_DEPTH {
        let first = seq![Event { path: Seq::empty(), touch: Touch::Listed }];
        let inner = listing_journal(nodes, nodes.len(), depth, extensions, Seq::empty(), Tally::zero());
        lemma_journal_matches_tally(
            nodes,
            nodes.len(),
            depth,
            extensions,
            Seq::empty(),
            Tally::zero(),
        );
        lemma_counts_add_up(first, inner);
        lemma_count_of_one(first[0]);
        assert(first =~= seq![first[0]]);
    }
}

/// Whether a journal leads the running totals from `start` to `end`: every
/// removal in it tells the totals reached with it, which count the removals
/// and the failures so far; the bytes told never fall and stay between those
/// of `start` and `end`; and the last removal tells the bytes of `end`.
pub open spec fn runs(events: Seq<Event>, start: Tally, end: Tally) -> bool {
    &&& end.deleted == start.deleted + removals(events)
    &&& end.failed == start.failed + failures(events)
    &&& start.bytes <= end.bytes
    &&& removals(events) == 0 ==> end.bytes == start.bytes
    &&& forall|k: int|
        0 <= k < events.len() ==> ((#[trigger] events[k]).touch matches Touch::Removed(t) ==> {
            &&& t.deleted == start.deleted + removals(events.take(k + 1))
            &&& t.failed == start.failed + failures(events.take(k + 1))
            &&& start.bytes <= t.bytes <= end.bytes
            &&& removals(events.skip(k + 1)) == 0 ==> t.bytes == end.bytes
        })
    &&& forall|i: int, k: int|
        0 <= i < k < events.len() ==> ((#[trigger] events[i]).touch matches Touch::Removed(u) ==> (
        (#[trigger] events[k]).touch matches Touch::Removed(t) ==> u.bytes <= t.bytes))
}

/// A journal of one event, or of none, leads from the totals before it to
/// the totals after it.
pub proof fn lemma_runs_one(start: Tally, size: nat, path: Seq<usize>)
    ensures
        runs(Seq::empty(), start, start),
        runs(seq![Event { path, touch: Touch::Listed }], start, start),
        runs(seq![Event { path, touch: Touch::Failed }], start, start.after(false, size)),
        runs(
            seq![Event { path, touch: Touch::Removed(start.after(true, size)) }],
            start,
            start.after(true, size),
        ),
{
    let listed = seq![Event { path, touch: Touch::Listed }];
    let failed = seq![Event { path, touch: Touch::Failed }];
    let removed = seq![Event { path, touch: Touch::Removed(start.after(true, size)) }];
    lemma_count_of_one(listed[0]);
    lemma_count_of_one(failed[0]);
    lemma_count_of_one(removed[0]);
    assert(listed =~= seq![listed[0]]);
    assert(failed =~= seq![failed[0]]);
    assert(removed =~= seq![removed[0]]);
    assert(removed.take(1) =~= removed);
    assert(removed.skip(1) =~= Seq::<Event>::empty());
}

/// Two journals written one after the other lead from the start of the first
/// to the end of the second.
pub proof fn lemma_runs_on(a: Seq<Event>, b: Seq<Event>, start: Tally, mid: Tally, end: Tally)
    requires
        runs(a, start, mid),
        runs(b, mid, end),
    ensures
        runs(a + b, start, end),
{
    let all = a + b;
    lemma_counts_add_up(a, b);
    assert forall|k: int| 0 <= k < all.len() implies ((#[trigger] all[k]).touch matches Touch::Removed(
        t,
    ) ==> {
        &&& t.deleted == start.deleted + removals(all.take(k + 1))
        &&& t.failed == start.failed + failures(all.take(k + 1))
        &&& start.bytes <= t.bytes <= end.bytes
        &&& removals(all.skip(k + 1)) == 0 ==> t.bytes == end.bytes
    }) by {
        if k < a.len() {
            assert(all[k] == a[k]);
            assert(all.take(k + 1) =~= a.take(k + 1));
            assert(all.skip(k + 1) =~= a.skip(k + 1) + b);
            lemma_counts_add_up(a.skip(k + 1), b);
        } else {
            let j = k - a.len();
            assert(all[k] == b[j]);
            assert(all.take(k + 1) =~= a + b.take(j + 1));
            assert(all.skip(k + 1) =~= b.skip(j + 1));
            lemma_counts_add_up(a, b.take(j + 1));
        }
    }
    assert forall|i: int, k: int| 0 <= i < k < all.len() implies ((#[trigger] all[i]).touch matches Touch::Removed(
        u,
    ) ==> ((#[trigger] all[k]).touch matches Touch::Removed(t) ==> u.bytes <= t.bytes)) by {
        if k < a.len() {
            assert(all[i] == a[i] && all[k] == a[k]);
        } else if i >= a.len() {
            assert(all[i] == b[i - a.len()] && all[k] == b[k - a.len()]);
        } else {
            assert(all[i] == a[i] && all[k] == b[k - a.len()]);
        }
    }
}

/// The journal of a listing leads the running totals from those at which the
/// listing was entered to those at which it is left.
pub proof fn lemma_journal_runs(
    nodes: Seq<Node>,
    n: nat,
    depth: nat,
    extensions: Seq<Seq<char>>,
    path: Seq<usize>,
    start: Tally,
)
    requires
        n <= nodes.len(),
    ensures
        runs(
            listing_journal(nodes, n, depth, extensions, path, start),
            start,
            start.plus(listing_tally(nodes, n, depth, extensions)),
        ),
    decreases nodes, n,
{
    if n == 0 {
        lemma_runs_one(start, 0, path);
    } else {
        let earlier = listing_journal(nodes, (n - 1) as nat, depth, extensions, path, start);
        let node = nodes[n - 1];
        let here = path.push((n - 1) as usize);
        let mid = start.plus(listing_tally(nodes, (n - 1) as nat, depth, extensions));
        let added = node_journal(node, depth, extensions, here, mid);
        let end = mid.plus(node_tally(node, depth, extensions));
        lemma_journal_runs(nodes, (n - 1) as nat, depth, extensions, path, start);
        assert(runs(added, mid, end)) by {
            match node {
                Node::File { size, removable, .. } => {
                    lemma_runs_one(mid, size as nat, here);
                },
                Node::Directory { entries, .. } => {
                    lemma_runs_one(mid, 0, here);
                    if node_treatment(node, depth, extensions) == Treatment::Descend {
                        let inner = listing_journal(
                            entries@,
                            entries@.len(),
                            depth + 1,
                            extensions,
                            here,
                            mid,
                        );
                        lemma_journal_runs(
                            entries@,
                            entries@.len(),
                            depth + 1,
                            extensions,
                            here,
                            mid,
                        );
                        lemma_runs_on(
                            seq![Event { path: here, touch: Touch::Listed }],
                            inner,
                            mid,
                            mid,
                            end,
                        );
                    }
                },
                Node::Other { .. } => {
                    lemma_runs_one(mid, 0, here);
                },
            }
        }
        lemma_runs_on(earlier, added, start, mid, end);
        assert(end == start.plus(listing_tally(nodes, n, depth, extensions)));
    }
}

/// A longer beginning of a journal holds no fewer removals and failures.
pub proof fn lemma_counts_grow(events: Seq<Event>, i: int, k: int)
    requires
        0 <= i <= k <= events.len(),
    ensures
        removals(events.take(i)) <= removals(events.take(k)),
        failures(events.take(i)) <= failures(events.take(k)),
{
    assert(events.take(k) =~= events.take(i) + events.subrange(i, k));
    lemma_counts_add_up(events.take(i), events.subrange(i, k));
}

/// After every removal the progress sink hears the running totals of the
/// whole scan: the k-th removal tells k files deleted and the failures
/// counted so far; what it hears never falls, from one removal to the next;
/// it never hears more than the scan comes to; and the last removal tells
/// the deleted files and the bytes of the result.
pub proof fn lemma_sink_hears_running_totals(
    nodes: Seq<Node>,
    depth: nat,
    extensions: Seq<Seq<char>>,
)
    ensures
        runs(
            scan_journal(nodes, depth, extensions),
            Tally::zero(),
            scan_tally(nodes, depth, extensions),
        ),
        forall|k: int|
            0 <= k < scan_journal(nodes, depth, extensions).len() ==> ((
            #[trigger] scan_journal(nodes, depth, extensions)[k]).touch matches Touch::Removed(t) ==> {
                &&& t.deleted == removals(scan_journal(nodes, depth, extensions).take(k + 1))
                &&& t.failed == failures(scan_journal(nodes, depth, extensions).take(k + 1))
                &&& t.le(scan_tally(nodes, depth, extensions))
                &&& removals(scan_journal(nodes, depth, extensions).skip(k + 1)) == 0 ==> t.deleted
                    == scan_tally(nodes, depth, extensions).deleted && t.bytes == scan_tally(
                    nodes,
                    depth,
                    extensions,
                ).bytes
            }),
        forall|i: int, k: int|
            0 <= i < k < scan_journal(nodes, depth, extensions).len() ==> ((
            #[trigger] scan_journal(nodes, depth, extensions)[i]).touch matches Touch::Removed(u) ==> ((
            #[trigger] scan_journal(nodes, depth, extensions)[k]).touch matches Touch::Removed(t)
                ==> u.le(t) && u.deleted < t.deleted)),
{
    let journal = scan_journal(nodes, depth, extensions);
    let result = scan_tally(nodes, depth, extensions);
    if depth <= MAX_DEPTH {
        let first = seq![Event { path: Seq::empty(), touch: Touch::Listed }];
        let inner = listing_journal(
            nodes,
            nodes.len(),
            depth,
            extensions,
            Seq::empty(),
            Tally::zero(),
        );
        lemma_runs_one(Tally::zero(), 0, Seq::empty());
        lemma_journal_runs(nodes, nodes.len(), depth, extensions, Seq::empty(), Tally::zero());
        lemma_runs_on(first, inner, Tally::zero(), Tally::zero(), result);
    } else {
        lemma_runs_one(Tally::zero(), 0, Seq::empty());
    }
    assert(runs(journal, Tally::zero(), result));
    assert forall|k: int| 0 <= k < journal.len() implies ((#[trigger] journal[k]).touch matches Touch::Removed(
        t,
    ) ==> {
        &&& t.deleted == removals(journal.take(k + 1))
        &&& t.failed == failures(journal.take(k + 1))
        &&& t.le(result)
        &&& removals(journal.skip(k + 1)) == 0 ==> t.deleted == result.deleted && t.bytes
            == result.bytes
    }) by {
        lemma_counts_grow(journal, k + 1, journal.len() as int);
        assert(journal.take(journal.len() as int) =~= journal);
        assert(journal =~= journal.take(k + 1) + journal.skip(k + 1));
        lemma_counts_add_up(journal.take(k + 1), journal.skip(k + 1));
    }
    assert forall|i: int, k: int| 0 <= i < k < journal.len() implies ((#[trigger] journal[i]).touch matches Touch::Removed(
        u,
    ) ==> ((#[trigger] journal[k]).touch matches Touch::Removed(t) ==> u.le(t) && u.deleted
        < t.deleted)) by {
        lemma_counts_grow(journal, i + 1, k);
        lemma_counts_grow(journal, i + 1, k + 1);
        if journal[k].touch is Removed {
            assert(journal.take(k + 1).drop_last() =~= journal.take(k));
            assert(journal.take(k + 1).last() == journal[k]);
        }
    }
}

/// Whether no file lies deeper than `MAX_DEPTH`, among the first `n` nodes of
/// a listing at `depth` and below them.
pub open spec fn within_reach(nodes: Seq<Node>, n: nat, depth: nat) -> bool
    decreases nodes, n,
{
    if n == 0 || n > nodes.len() {
        true
    } else {
        within_reach(nodes, (n - 1) as nat, depth) && node_within_reach(nodes[n - 1], depth)
    }
}

/// Whether no file lies deeper than `MAX_DEPTH`, for a node of a listing at
/// `depth` and all below it.
pub open spec fn node_within_reach(node: Node, depth: nat) -> bool
    decreases node, 0nat,
{
    match node {
        Node::File { .. } => depth <= MAX_DEPTH,
        Node::Directory { entries, .. } => within_reach(entries@, entries@.len(), depth + 1),
        Node::Other { .. } => true,
    }
}

/// Whether none of the first `n` nodes bears the name of a system directory.
pub open spec fn unprotected(nodes: Seq<Node>, n: nat) -> bool {
    forall|i: int| 0 <= i < n && i < nodes.len() ==> !protected_name((#[trigger] nodes[i]).name())
}

/// Whether no entry of a directory among the first `n` nodes bears the name
/// of a system directory.
pub open spec fn children_unprotected(nodes: Seq<Node>, n: nat) -> bool {
    forall|i: int|
        0 <= i < n && i < nodes.len() ==> unprotected(
            (#[trigger] nodes[i]).children(),
            nodes[i].children().len(),
        )
}

/// The totals of separate scans, each started at the root level, of the
/// directories among the first `n` nodes.
pub open spec fn apart_tally(nodes: Seq<Node>, n: nat, extensions: Seq<Seq<char>>) -> Tally
    decreases n,
{
    if n == 0 || n > nodes.len() {
        Tally::zero()
    } else {
        apart_tally(nodes, (n - 1) as nat, extensions).plus(
            if nodes[n - 1] is Directory {
                scan_tally(nodes[n - 1].children(), 0, extensions)
            } else {
                Tally::zero()
            },
        )
    }
}

/// A listing that lies deeper than any file may lie holds no file, nor does
/// anything below it: a scan finds nothing in it, at whatever depth it is taken.
pub proof fn lemma_out_of_reach(
    nodes: Seq<Node>,
    n: nat,
    depth: nat,
    taken_at: nat,
    extensions: Seq<Seq<char>>,
)
    requires
        n <= nodes.len(),
        depth > MAX_DEPTH,
        within_reach(nodes, n, depth),
    ensures
        listing_tally(nodes, n, taken_at, extensions) == Tally::zero(),
    decreases nodes, n,
{
    if n > 0 {
        lemma_out_of_reach(nodes, (n - 1) as nat, depth, taken_at, extensions);
        let node = nodes[n - 1];
        assert(node_within_reach(node, depth));
        assert(node_tally(node, taken_at, extensions) == Tally::zero()) by {
            match node {
                Node::Directory { entries, .. } => {
                    assert(within_reach(entries@, entries@.len(), depth + 1));
                    lemma_out_of_reach(
                        entries@,
                        entries@.len(),
                        depth + 1,
                        taken_at + 1,
                        extensions,
                    );
                },
                _ => {},
            }
        }
    }
}

/// Where the depth bound cuts nothing off and no name is guarded, the depth
/// at which a listing is taken does not matter to what the scan finds in it.
pub proof fn lemma_depth_does_not_matter(
    nodes: Seq<Node>,
    n: nat,
    shallow: nat,
    deep: nat,
    extensions: Seq<Seq<char>>,
)
    requires
        n <= nodes.len(),
        shallow <= deep,
        within_reach(nodes, n, deep),
        shallow == 0 ==> unprotected(nodes, n),
    ensures
        listing_tally(nodes, n, shallow, extensions) == listing_tally(nodes, n, deep, extensions),
    decreases nodes, n,
{
    if n > 0 {
        lemma_depth_does_not_matter(nodes, (n - 1) as nat, shallow, deep, extensions);
        let node = nodes[n - 1];
        assert(!(shallow == 0 && protected_name(node.name())));
        assert(node_within_reach(node, deep));
        assert(node_tally(node, shallow, extensions) == node_tally(node, deep, extensions)) by {
            match node {
                Node::Directory { entries, .. } => {
                    assert(within_reach(entries@, entries@.len(), deep + 1));
                    if deep < MAX_DEPTH {
                        lemma_depth_does_not_matter(
                            entries@,
                            entries@.len(),
                            shallow + 1,
                            deep + 1,
                            extensions,
                        );
                    } else {
                        lemma_out_of_reach(
                            entries@,
                            entries@.len(),
                            deep + 1,
                            shallow + 1,
                            extensions,
                        );
                    }
                },
                _ => {},
            }
        }
    }
}

/// Each directory scanned on its own from the root level comes to what it
/// adds to the scan of the listing that holds it.
pub proof fn lemma_scanned_apart(nodes: Seq<Node>, n: nat, extensions: Seq<Seq<char>>)
    requires
        n <= nodes.len(),
        within_reach(nodes, n, 0),
        unprotected(nodes, n),
        children_unprotected(nodes, n),
    ensures
        below_tally(nodes, n, 0, extensions) == apart_tally(nodes, n, extensions),
    decreases n,
{
    if n > 0 {
        lemma_scanned_apart(nodes, (n - 1) as nat, extensions);
        let node = nodes[n - 1];
        match node {
            Node::Directory { entries, .. } => {
                assert(node.children() == entries@);
                assert(unprotected(node.children(), node.children().len()));
                assert(node_within_reach(node, 0));
                assert(within_reach(entries@, entries@.len(), 1));
                lemma_depth_does_not_matter(entries@, entries@.len(), 0, 1, extensions);
            },
            _ => {},
        }
    }
}

/// One scan from the root comes to the same totals as its own matching
/// files together with separate scans, each from the root level too, of each
/// of its directories: where no file lies deeper than `MAX_DEPTH` below the
/// root, and neither an entry of the root nor an entry of one of its
/// directories bears the name of a system directory.
pub proof fn lemma_scan_splits_at_root(nodes: Seq<Node>, extensions: Seq<Seq<char>>)
    requires
        within_reach(nodes, nodes.len(), 0),
        unprotected(nodes, nodes.len()),
        children_unprotected(nodes, nodes.len()),
    ensures
        scan_tally(nodes, 0, extensions) == own_tally(nodes, nodes.len(), 0, extensions).plus(
            apart_tally(nodes, nodes.len(), extensions),
        ),
{
    lemma_scan_splits(nodes, 0, extensions);
    lemma_scanned_apart(nodes, nodes.len(), extensions);
}

} // verus!
