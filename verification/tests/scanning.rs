use lemo::names::{chars_of, find_last_dot, has_extension_in, is_protected_name, spell_all};
use lemo::scanner::{treat, Action, Entry, Pending, Progress, Scanner, Treatment, MAX_DEPTH};
use lemo::totals::ScanTotals;
use lemo::tree::{EntryKind, Node};
use lemo::walk::{clean_files_by_extension_with_progress, entries_of, Outcome, Visit};

fn file(name: &str, size: u64) -> Node {
    Node::File { name: name.to_string(), size, removable: true }
}

fn locked(name: &str, size: u64) -> Node {
    Node::File { name: name.to_string(), size, removable: false }
}

fn dir(name: &str, entries: Vec<Node>) -> Node {
    Node::Directory { name: name.to_string(), entries, removable: true }
}

fn exts(list: &[&str]) -> Vec<String> {
    list.iter().map(|s| s.to_string()).collect()
}

fn totals(deleted: usize, failed: usize, bytes: u64) -> ScanTotals {
    ScanTotals { deleted, failed, bytes }
}

fn removed_paths(journal: &[Visit]) -> Vec<Vec<usize>> {
    journal
        .iter()
        .filter(|v| matches!(v.outcome, Outcome::Removed(_)))
        .map(|v| v.path.clone())
        .collect()
}

fn listed_paths(journal: &[Visit]) -> Vec<Vec<usize>> {
    journal.iter().filter(|v| v.outcome == Outcome::Listed).map(|v| v.path.clone()).collect()
}

#[test]
fn matching_files_at_the_root_are_removed() {
    let tree = vec![file("a.tmp", 100), file("b.log", 20), file("c.txt", 3)];
    let (sum, journal) = clean_files_by_extension_with_progress(&tree, &exts(&["tmp", "log"]), 0);
    assert_eq!(sum, totals(2, 0, 120));
    assert_eq!(removed_paths(&journal), vec![vec![0], vec![1]]);
    assert!(journal.iter().all(|v| v.path != vec![2]));
    assert_eq!(journal.len(), 3);
    assert_eq!(journal[0].path, Vec::<usize>::new());
    assert_eq!(journal[0].outcome, Outcome::Listed);
    assert_eq!(journal[1].outcome, Outcome::Removed(totals(1, 0, 100)));
    assert_eq!(journal[2].outcome, Outcome::Removed(totals(2, 0, 120)));
}

fn nested(levels: usize, leaf: Vec<Node>) -> Vec<Node> {
    let mut inner = leaf;
    for i in (0..levels).rev() {
        inner = vec![dir(&format!("level{}", i), inner)];
    }
    inner
}

#[test]
fn depth_bound_holds_at_the_boundary() {
    // the file lies five directories below the root: at the deepest level
    let tree = nested(5, vec![file("deep.tmp", 9)]);
    let (sum, journal) = clean_files_by_extension_with_progress(&tree, &exts(&["tmp"]), 0);
    assert_eq!(sum, totals(1, 0, 9));
    assert_eq!(removed_paths(&journal), vec![vec![0, 0, 0, 0, 0, 0]]);

    // one level deeper it is out of reach, and its directory is not even listed
    let tree = nested(6, vec![file("deeper.tmp", 9)]);
    let (sum, journal) = clean_files_by_extension_with_progress(&tree, &exts(&["tmp"]), 0);
    assert_eq!(sum, totals(0, 0, 0));
    assert!(removed_paths(&journal).is_empty());
    assert_eq!(listed_paths(&journal).len(), 6);
    assert!(journal.iter().all(|v| v.path.len() <= 5));
}

#[test]
fn a_scan_started_deeper_reaches_less_far() {
    let tree = nested(2, vec![file("x.tmp", 1)]);
    let found = clean_files_by_extension_with_progress(&tree, &exts(&["tmp"]), 3).0;
    assert_eq!(found, totals(1, 0, 1));
    let tree = nested(2, vec![file("x.tmp", 1)]);
    let found = clean_files_by_extension_with_progress(&tree, &exts(&["tmp"]), 4).0;
    assert_eq!(found, totals(0, 0, 0));
    let tree = vec![file("x.tmp", 1)];
    let (found, journal) = clean_files_by_extension_with_progress(&tree, &exts(&["tmp"]), 5);
    assert_eq!(found, totals(1, 0, 1));
    assert_eq!(journal.len(), 2);
}

#[test]
fn a_scan_started_below_the_bound_does_nothing() {
    let tree = vec![file("x.tmp", 1)];
    let (found, journal) = clean_files_by_extension_with_progress(&tree, &exts(&["tmp"]), 6);
    assert_eq!(found, totals(0, 0, 0));
    assert!(journal.is_empty());
    let (found, journal) =
        clean_files_by_extension_with_progress(&tree, &exts(&["tmp"]), usize::MAX);
    assert_eq!(found, totals(0, 0, 0));
    assert!(journal.is_empty());
}

#[test]
fn system_directories_at_the_root_are_never_visited() {
    let tree = vec![
        dir("Windows", vec![file("keep.tmp", 1)]),
        dir("Program Files", vec![file("keep.tmp", 1)]),
        dir("Program Files (x86)", vec![file("keep.tmp", 1)]),
        dir("System Volume Information", vec![file("keep.tmp", 1)]),
        dir("$Recycle.Bin", vec![file("keep.tmp", 1)]),
        dir("ProgramData", vec![file("keep.tmp", 1)]),
        dir("$anything", vec![file("keep.tmp", 1)]),
        file("$marker.tmp", 1),
        dir("Users", vec![file("gone.tmp", 40)]),
    ];
    let (sum, journal) = clean_files_by_extension_with_progress(&tree, &exts(&["tmp"]), 0);
    assert_eq!(sum, totals(1, 0, 40));
    assert_eq!(removed_paths(&journal), vec![vec![8, 0]]);
    assert_eq!(listed_paths(&journal), vec![vec![], vec![8]]);
    assert!(journal.iter().all(|v| v.path.is_empty() || v.path[0] == 8));
}

#[test]
fn system_names_below_the_root_are_not_special() {
    let tree = vec![dir(
        "Users",
        vec![dir("ProgramData", vec![file("a.tmp", 5)]), dir("Windows", vec![file("b.tmp", 6)])],
    )];
    let (sum, _) = clean_files_by_extension_with_progress(&tree, &exts(&["tmp"]), 0);
    assert_eq!(sum, totals(2, 0, 11));
    // and a scan that does not start at the root has no special names at all
    let tree = vec![dir("Windows", vec![file("a.tmp", 5)])];
    let (sum, _) = clean_files_by_extension_with_progress(&tree, &exts(&["tmp"]), 1);
    assert_eq!(sum, totals(1, 0, 5));
}

#[test]
fn a_failed_removal_is_counted_and_the_scan_goes_on() {
    let tree = vec![
        file("a.tmp", 10),
        locked("b.tmp", 20),
        dir("sub", vec![locked("c.tmp", 30), file("d.tmp", 40)]),
        file("e.tmp", 50),
    ];
    let (sum, journal) = clean_files_by_extension_with_progress(&tree, &exts(&["tmp"]), 0);
    assert_eq!(sum, totals(3, 2, 100));
    let outcomes: Vec<(Vec<usize>, Outcome)> =
        journal.iter().map(|v| (v.path.clone(), v.outcome)).collect();
    assert_eq!(
        outcomes,
        vec![
            (vec![], Outcome::Listed),
            (vec![0], Outcome::Removed(totals(1, 0, 10))),
            (vec![1], Outcome::Failed),
            (vec![2], Outcome::Listed),
            (vec![2, 0], Outcome::Failed),
            (vec![2, 1], Outcome::Removed(totals(2, 2, 50))),
            (vec![3], Outcome::Removed(totals(3, 2, 100))),
        ]
    );
}

#[test]
fn one_scan_equals_the_scans_of_its_directories_and_its_own_files() {
    let sub1 = || vec![file("a.tmp", 1), locked("b.log", 2), dir("x", vec![file("c.tmp", 4)])];
    let sub2 = || vec![file("d.txt", 8), file("e.log", 16)];
    let own = || vec![file("f.tmp", 32), locked("g.tmp", 64), file("h.txt", 128)];
    let list = exts(&["tmp", "log"]);
    let mut whole = own();
    whole.insert(1, dir("one", sub1()));
    whole.push(dir("two", sub2()));
    let (all, _) = clean_files_by_extension_with_progress(&whole, &list, 0);
    let (first, _) = clean_files_by_extension_with_progress(&sub1(), &list, 1);
    let (second, _) = clean_files_by_extension_with_progress(&sub2(), &list, 1);
    let (root_files, _) = clean_files_by_extension_with_progress(&own(), &list, 0);
    assert_eq!(all, first.combine(second).combine(root_files));
    assert_eq!(all, totals(4, 2, 53));
    assert_eq!(first.combine(second.combine(root_files)), first.combine(second).combine(root_files));
}

#[test]
fn directories_and_other_entries_are_never_removed() {
    let tree = vec![
        dir("folder.tmp", vec![]),
        Node::Other { name: "pipe.tmp".to_string(), removable: true },
        file("real.tmp", 3),
    ];
    let (sum, journal) = clean_files_by_extension_with_progress(&tree, &exts(&["tmp"]), 0);
    assert_eq!(sum, totals(1, 0, 3));
    assert_eq!(removed_paths(&journal), vec![vec![2]]);
    assert_eq!(listed_paths(&journal), vec![vec![], vec![0]]);
}

#[test]
fn extensions_are_what_follows_the_last_dot() {
    let list = spell_all(&exts(&["tmp", "log", ""]));
    assert!(has_extension_in("a.tmp", &list));
    assert!(has_extension_in("a.b.log", &list));
    assert!(has_extension_in("archive.tar.tmp", &list));
    assert!(has_extension_in("trailing.", &list));
    assert!(!has_extension_in("tmp", &list));
    assert!(!has_extension_in(".tmp", &list));
    assert!(!has_extension_in("..", &list));
    assert!(!has_extension_in("a.TMP", &list));
    assert!(!has_extension_in("a.tmpx", &list));
    assert!(!has_extension_in("a.tmp.txt", &list));
    assert!(!has_extension_in("", &list));
    assert!(has_extension_in("..tmp", &list));
    assert!(has_extension_in("ü.tmp", &list));
    let none = spell_all(&Vec::new());
    assert!(!has_extension_in("a.tmp", &none));
    assert_eq!(find_last_dot(&chars_of("a.b.c")), Some(3));
    assert_eq!(find_last_dot(&chars_of("abc")), None);
    assert_eq!(find_last_dot(&chars_of(".x")), Some(0));
    assert_eq!(chars_of("héllo"), vec!['h', 'é', 'l', 'l', 'o']);
}

#[test]
fn protected_names_are_matched_exactly() {
    for name in [
        "Windows",
        "Program Files",
        "Program Files (x86)",
        "System Volume Information",
        "$Recycle.Bin",
        "ProgramData",
        "$",
        "$WinREAgent",
    ] {
        assert!(is_protected_name(name), "{}", name);
    }
    for name in ["windows", "Windows ", "Program", "Users", "", "a$", "ProgramData2", " Windows"] {
        assert!(!is_protected_name(name), "{}", name);
    }
}

#[test]
fn treatment_follows_kind_depth_and_name() {
    let list = spell_all(&exts(&["tmp"]));
    let entry = |name: &str, kind| Entry { name: name.to_string(), kind };
    assert_eq!(treat(&entry("a.tmp", EntryKind::File), 0, &list), Treatment::Remove);
    assert_eq!(treat(&entry("a.txt", EntryKind::File), 0, &list), Treatment::Skip);
    assert_eq!(treat(&entry("$a.tmp", EntryKind::File), 0, &list), Treatment::Skip);
    assert_eq!(treat(&entry("$a.tmp", EntryKind::File), 1, &list), Treatment::Remove);
    assert_eq!(treat(&entry("d", EntryKind::Directory), 0, &list), Treatment::Descend);
    assert_eq!(treat(&entry("d", EntryKind::Directory), 4, &list), Treatment::Descend);
    assert_eq!(treat(&entry("d", EntryKind::Directory), MAX_DEPTH, &list), Treatment::Skip);
    assert_eq!(treat(&entry("a.tmp", EntryKind::File), MAX_DEPTH, &list), Treatment::Remove);
    assert_eq!(treat(&entry("Windows", EntryKind::Directory), 0, &list), Treatment::Skip);
    assert_eq!(treat(&entry("Windows", EntryKind::Directory), 1, &list), Treatment::Descend);
    assert_eq!(treat(&entry("a.tmp", EntryKind::Other), 2, &list), Treatment::Skip);
}

#[test]
fn the_scanner_can_be_driven_step_by_step() {
    let entry = |name: &str, kind| Entry { name: name.to_string(), kind };
    let mut scanner = Scanner::new(&exts(&["tmp"]), 0);
    assert_eq!(scanner.pending(), Pending::Start);
    assert_eq!(scanner.start(), Action::ListRoot);
    assert_eq!(scanner.pending(), Pending::Listing);
    let root = vec![
        entry("readme.txt", EntryKind::File),
        entry("a.tmp", EntryKind::File),
        entry("Windows", EntryKind::Directory),
        entry("data", EntryKind::Directory),
        entry("z.tmp", EntryKind::File),
    ];
    assert_eq!(scanner.listed(root), Action::Remove { index: 1 });
    assert!(scanner.has_room(true, 10));
    let (progress, next) = scanner.removed(10);
    assert_eq!(progress, Progress { index: 1, totals: totals(1, 0, 10) });
    assert_eq!(next, Action::Enter { index: 3 });
    let data = vec![entry("b.tmp", EntryKind::File), entry("c.tmp", EntryKind::File)];
    assert_eq!(scanner.listed(data), Action::Remove { index: 0 });
    assert_eq!(scanner.failed(), Action::Remove { index: 1 });
    let (progress, next) = scanner.removed(5);
    // the sink hears the running totals of the whole scan
    assert_eq!(progress, Progress { index: 1, totals: totals(2, 1, 15) });
    assert_eq!(next, Action::Leave);
    assert_eq!(scanner.pending(), Pending::Departure);
    assert_eq!(scanner.left(), Action::Remove { index: 4 });
    let (progress, next) = scanner.removed(1);
    assert_eq!(progress, Progress { index: 4, totals: totals(3, 1, 16) });
    assert_eq!(next, Action::Finish { totals: totals(3, 1, 16) });
    assert_eq!(scanner.pending(), Pending::Nothing);
    assert_eq!(scanner.totals(), totals(3, 1, 16));
}

#[test]
fn an_unreadable_or_empty_directory_adds_nothing() {
    let mut scanner = Scanner::new(&exts(&["tmp"]), 2);
    assert_eq!(scanner.start(), Action::ListRoot);
    assert_eq!(scanner.listed(Vec::new()), Action::Finish { totals: totals(0, 0, 0) });
    let mut scanner = Scanner::new(&exts(&["tmp"]), 6);
    assert_eq!(scanner.start(), Action::Finish { totals: totals(0, 0, 0) });
    assert_eq!(scanner.pending(), Pending::Nothing);
}

#[test]
fn the_scanner_knows_when_a_counter_would_run_over() {
    let mut scanner = Scanner::new(&exts(&["tmp"]), 0);
    scanner.start();
    let entry = |name: &str| Entry { name: name.to_string(), kind: EntryKind::File };
    scanner.listed(vec![entry("a.tmp"), entry("b.tmp")]);
    scanner.removed(u64::MAX - 1);
    assert!(!scanner.has_room(true, 2));
    assert!(scanner.has_room(true, 1));
    assert!(scanner.has_room(false, 2));
}

#[test]
fn listings_show_names_and_kinds() {
    let tree = vec![file("a", 1), dir("b", vec![file("c", 2)])];
    let entries = entries_of(&tree);
    assert_eq!(entries.len(), 2);
    assert_eq!(entries[0].name, "a");
    assert_eq!(entries[0].kind, EntryKind::File);
    assert_eq!(entries[1].name, "b");
    assert_eq!(entries[1].kind, EntryKind::Directory);
}

#[test]
fn a_wide_and_deep_tree_is_scanned_in_order() {
    let mut root = Vec::new();
    for i in 0..50 {
        let mut level = vec![file(&format!("f{}.tmp", i), 1), file("keep.doc", 1000)];
        for j in 0..4 {
            level = vec![dir(&format!("d{}", j), level), file(&format!("g{}.bak", j), 2)];
        }
        root.push(dir(&format!("top{}", i), level));
    }
    let (sum, journal) = clean_files_by_extension_with_progress(&root, &exts(&["tmp", "bak"]), 0);
    assert_eq!(sum, totals(250, 0, 50 * 9));
    assert_eq!(removed_paths(&journal).len(), 250);
    let mut sorted = journal.iter().map(|v| v.path.clone()).collect::<Vec<_>>();
    sorted.sort();
    assert_eq!(sorted, journal.iter().map(|v| v.path.clone()).collect::<Vec<_>>());
}

#[test]
fn the_sink_hears_running_totals_that_never_fall() {
    let tree = vec![
        file("a.tmp", 1),
        dir("sub", vec![file("b.tmp", 2), locked("c.tmp", 50), dir("deep", vec![file("d.tmp", 4)])]),
        locked("e.tmp", 60),
        file("f.tmp", 8),
    ];
    let (sum, journal) = clean_files_by_extension_with_progress(&tree, &exts(&["tmp"]), 0);
    let told: Vec<ScanTotals> = journal
        .iter()
        .filter_map(|v| match v.outcome {
            Outcome::Removed(t) => Some(t),
            _ => None,
        })
        .collect();
    assert_eq!(told, vec![totals(1, 0, 1), totals(2, 0, 3), totals(3, 1, 7), totals(4, 2, 15)]);
    for (k, t) in told.iter().enumerate() {
        assert_eq!(t.deleted, k + 1);
    }
    for pair in told.windows(2) {
        assert!(pair[0].deleted < pair[1].deleted);
        assert!(pair[0].failed <= pair[1].failed);
        assert!(pair[0].bytes <= pair[1].bytes);
    }
    assert_eq!(sum, totals(4, 2, 15));
    assert_eq!(told.last().unwrap().deleted, sum.deleted);
    assert_eq!(told.last().unwrap().bytes, sum.bytes);
    // a failure after the last removal is in the result, not in what the sink heard
    let tree = vec![file("a.tmp", 1), dir("sub", vec![file("b.tmp", 2)]), locked("z.tmp", 9)];
    let (sum, journal) = clean_files_by_extension_with_progress(&tree, &exts(&["tmp"]), 0);
    assert_eq!(journal[3].outcome, Outcome::Removed(totals(2, 0, 3)));
    assert_eq!(sum, totals(2, 1, 3));
}

#[test]
fn a_file_below_a_file_adds_to_what_the_sink_heard_before() {
    let tree = vec![file("a.tmp", 1), dir("sub", vec![file("b.tmp", 2)])];
    let (sum, journal) = clean_files_by_extension_with_progress(&tree, &exts(&["tmp"]), 0);
    assert_eq!(journal[1].outcome, Outcome::Removed(totals(1, 0, 1)));
    assert_eq!(journal[3].outcome, Outcome::Removed(totals(2, 0, 3)));
    assert_eq!(sum, totals(2, 0, 3));
}
