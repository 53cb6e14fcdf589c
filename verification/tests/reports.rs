use lemo::cleaner::Removal;
use lemo::icon_cache::{
    after_restart, before_restart, cache_directory_location, cache_file_location, cache_files,
    fix_icon_cache, fix_icon_cache_with_output, fix_icon_cache_with_streaming, is_cache_name,
    is_restarting, opening, report_attempt, summary, CacheAttempt, FixFindings, CLOSE_PAUSE_MS,
    RESTART_PAUSE_MS,
};
use lemo::temp_files::{
    clean_temp, clean_temp_plan, clean_temp_with_output, clean_temp_with_streaming, place_anchor,
    place_location, scan_extensions, scan_root, system_places, user_places, Anchor, Place,
    PlaceFinding, ScanFinding, Stage, Style, TempReport,
};
use lemo::totals::ScanTotals;

const RULE: &str = "═══════════════════════════════════════════════════";

fn totals(deleted: usize, failed: usize, bytes: u64) -> ScanTotals {
    ScanTotals { deleted, failed, bytes }
}

fn finding(place: Place, shown: &str, attempts: Vec<(&str, u64, bool)>) -> PlaceFinding {
    PlaceFinding {
        place,
        shown: shown.to_string(),
        attempts: attempts
            .into_iter()
            .map(|(name, size, removed)| Removal { name: name.to_string(), size, removed })
            .collect(),
    }
}

fn system() -> Vec<PlaceFinding> {
    vec![
        finding(
            Place::WindowsTemp,
            "C:\\Windows\\Temp",
            vec![("a.tmp", 1048576, true), ("b", 524288, true), ("held", 5, false)],
        ),
        finding(Place::Prefetch, "C:\\Windows\\Prefetch", vec![]),
    ]
}

fn scan() -> ScanFinding {
    ScanFinding {
        reports: vec![
            totals(99, 0, 1000),
            totals(100, 2, 2097152),
            totals(101, 3, 2097152),
            totals(200, 3, 3145728),
            totals(301, 4, 4194304),
        ],
        totals: totals(301, 4, 4194304),
    }
}

fn user() -> Vec<PlaceFinding> {
    vec![finding(Place::Cookies, "C:\\Users\\me\\Cookies", vec![("c1", 1073741824, true)])]
}

#[test]
fn console_report_of_the_temp_clean_up() {
    let (lines, sum) = clean_temp(true, &system(), &scan(), &user());
    assert_eq!(
        lines,
        vec![
            "🧹 Cleaning temporary files...",
            RULE,
            "",
            "📁 Cleaning Windows temp directory: C:\\Windows\\Temp",
            "   ✅ Deleted: a.tmp",
            "   ✅ Deleted: b",
            "   ⚠️  Skipped: held (locked or no permission)",
            "   Deleted: 2 items, Skipped: 1, Freed: 1.50 MB",
            "",
            "📁 Cleaning Windows prefetch: C:\\Windows\\Prefetch",
            "   Deleted: 0 items, Skipped: 0, Freed: 0.00 MB",
            "",
            "📁 Scanning system drive for temp files (limited depth)...",
            "   ⏳ Progress: 100 deleted, 2.00 MB freed...",
            "   ⏳ Progress: 200 deleted, 3.00 MB freed...",
            "   ✅ Completed: 301 items deleted, 4 skipped, 4.00 MB freed",
            "",
            "📁 Cleaning user cookies: C:\\Users\\me\\Cookies",
            "   ✅ Deleted: c1",
            "   Deleted: 1 items, Skipped: 0, Freed: 1024.00 MB",
            "",
            RULE,
            "📊 Cleaning summary:",
            "   Total deleted: 304 items",
            "   Total skipped: 5 items",
            "   Freed space: 1029.50 MB (1.01 GB)",
            RULE,
            "✨ Cleaning completed!",
        ]
    );
    assert_eq!(sum, totals(304, 5, 1048576 + 524288 + 4194304 + 1073741824));
}

#[test]
fn console_report_without_the_user() {
    let (lines, sum) = clean_temp(false, &system(), &scan(), &user());
    assert_eq!(lines.len(), 24);
    assert!(lines.iter().all(|l| !l.contains("cookies")));
    assert_eq!(sum, totals(303, 5, 1048576 + 524288 + 4194304));
    assert_eq!(lines[21], "   Freed space: 5.50 MB (0.01 GB)");
}

#[test]
fn buffered_report_of_the_temp_clean_up() {
    let output = clean_temp_with_output(true, &system(), &scan(), &user());
    let expected = [
        "🧹 Cleaning temporary files...",
        RULE,
        "",
        "📁 Cleaning Windows temp directory: C:\\Windows\\Temp",
        "   ✅ Deleted: a.tmp",
        "   ✅ Deleted: b",
        "   ⚠️  Skipped: held (locked or no permission)",
        "   Deleted: 2 items, Skipped: 1, Freed: 1.50 MB",
        "",
        "📁 Cleaning Windows prefetch: C:\\Windows\\Prefetch",
        "   Deleted: 0 items, Skipped: 0, Freed: 0.00 MB",
        "",
        "📁 Scanning system drive for temp files (limited depth)...",
        "   ⏳ Scanned: 100 deleted, 2 skipped, 2.00 MB freed",
        "   ⏳ Scanned: 200 deleted, 3 skipped, 3.00 MB freed",
        "   ✅ Completed: 301 items deleted, 4 skipped, 4.00 MB freed",
        "",
        "📁 Cleaning user cookies: C:\\Users\\me\\Cookies",
        "   ✅ Deleted: c1",
        "   Deleted: 1 items, Skipped: 0, Freed: 1024.00 MB",
        "",
        RULE,
        "📊 Cleaning summary:",
        "   Total deleted: 304 items",
        "   Total skipped: 5 items",
        "   Freed space: 1029.50 MB (1.01 GB)",
        RULE,
        "✨ Cleaning completed!",
    ];
    let mut text = String::new();
    for line in expected {
        text.push_str(line);
        text.push('\n');
    }
    assert_eq!(output, text);
}

#[test]
fn streamed_report_of_the_temp_clean_up() {
    let lines = clean_temp_with_streaming(&system(), &scan());
    assert_eq!(
        lines,
        vec![
            "🧹 Cleaning temporary files...",
            RULE,
            "",
            "📁 Cleaning Windows temp directory: C:\\Windows\\Temp",
            "   ✅ Deleted: a.tmp",
            "   ✅ Deleted: b",
            "   ⚠️  Skipped: held (locked or no permission)",
            "   Deleted: 2 items, Skipped: 1, Freed: 1.50 MB",
            "",
            "📁 Cleaning Windows prefetch: C:\\Windows\\Prefetch",
            "   Deleted: 0 items, Skipped: 0, Freed: 0.00 MB",
            "",
            "📁 Scanning system drive for temp files (limited depth)...",
            "   ⏳ Progress: 100 deleted, 2.00 MB freed...",
            "   ⏳ Progress: 200 deleted, 3.00 MB freed...",
            "   ✅ Completed: 301 items deleted, 4 skipped, 4.00 MB freed",
            "",
            RULE,
            "📊 Cleaning summary:",
            "   Total deleted: 303 items",
            "   Total skipped: 5 items",
            "   Freed space: 5.50 MB (0.01 GB)",
            RULE,
            "✨ Cleaning completed!",
        ]
    );
}

fn without_progress(lines: &[String]) -> Vec<String> {
    lines.iter().filter(|l| !l.starts_with("   ⏳ ")).cloned().collect()
}

#[test]
fn live_view_and_text_agree_apart_from_the_progress_lines() {
    let text = clean_temp_with_output(false, &system(), &scan(), &user());
    let buffered: Vec<String> = text.lines().map(|l| l.to_string()).collect();
    let streamed = clean_temp_with_streaming(&system(), &scan());
    let (console, _) = clean_temp(false, &system(), &scan(), &user());
    assert_eq!(without_progress(&streamed), without_progress(&buffered));
    assert_eq!(without_progress(&console), without_progress(&buffered));
    assert_eq!(console, streamed);
    assert_ne!(streamed, buffered);
    // a scan that reports no progress gives the same report in every way
    let quiet = ScanFinding { reports: vec![totals(1, 0, 5), totals(2, 0, 9)], totals: totals(2, 1, 9) };
    let text = clean_temp_with_output(false, &system(), &quiet, &Vec::new());
    let buffered: Vec<String> = text.lines().map(|l| l.to_string()).collect();
    assert_eq!(clean_temp_with_streaming(&system(), &quiet), buffered);
    assert_eq!(clean_temp(false, &system(), &quiet, &Vec::new()).0, buffered);
    // with the user's places, console and text still agree
    let (console, _) = clean_temp(true, &system(), &quiet, &user());
    let text = clean_temp_with_output(true, &system(), &quiet, &user());
    assert_eq!(console, text.lines().map(|l| l.to_string()).collect::<Vec<String>>());
}

#[test]
fn nothing_found_gives_the_bare_report() {
    let none = ScanFinding { reports: Vec::new(), totals: totals(0, 0, 0) };
    let (lines, sum) = clean_temp(true, &Vec::new(), &none, &Vec::new());
    assert_eq!(
        lines,
        vec![
            "🧹 Cleaning temporary files...",
            RULE,
            "",
            "📁 Scanning system drive for temp files (limited depth)...",
            "   ✅ Completed: 0 items deleted, 0 skipped, 0.00 MB freed",
            "",
            RULE,
            "📊 Cleaning summary:",
            "   Total deleted: 0 items",
            "   Total skipped: 0 items",
            "   Freed space: 0.00 MB (0.00 GB)",
            RULE,
            "✨ Cleaning completed!",
        ]
    );
    assert_eq!(sum, totals(0, 0, 0));
}

#[test]
fn the_report_can_be_written_as_the_clean_up_goes() {
    let mut report = TempReport::new(Style::Streaming);
    let mut lines = report.opening();
    lines.extend(report.heading(Place::Recent, "R"));
    assert!(report.has_room(totals(2, 1, 1572864)));
    lines.push(report.place_done(totals(2, 1, 1572864)));
    lines.extend(report.scan_heading());
    assert_eq!(report.progress(totals(0, 5, 0)), None);
    assert_eq!(report.progress(totals(50, 0, 1)), None);
    assert_eq!(
        report.progress(totals(100, 0, 1048576)),
        Some("   ⏳ Progress: 100 deleted, 1.00 MB freed...".to_string())
    );
    assert_eq!(report.progress(totals(100, 1, 1048576)), None);
    assert_eq!(
        report.progress(totals(300, 1, 1048576)),
        Some("   ⏳ Progress: 300 deleted, 1.00 MB freed...".to_string())
    );
    assert_eq!(
        report.progress(totals(100, 1, 0)),
        Some("   ⏳ Progress: 100 deleted, 0.00 MB freed...".to_string())
    );
    lines.push(report.scan_done(totals(300, 1, 1048576)));
    assert_eq!(report.totals(), totals(302, 2, 2621440));
    assert!(!report.has_room(totals(usize::MAX, 0, 0)));
    assert!(!report.has_room(totals(0, 0, u64::MAX)));
    lines.extend(report.closing());
    assert_eq!(lines[2], "");
    assert_eq!(lines[3], "📁 Cleaning recent files: R");
    assert_eq!(lines[4], "   Deleted: 2 items, Skipped: 1, Freed: 1.50 MB");
    assert_eq!(lines[7], "   ✅ Completed: 300 items deleted, 1 skipped, 1.00 MB freed");
    assert_eq!(lines[11], "   Total deleted: 302 items");
    assert_eq!(lines[13], "   Freed space: 2.50 MB (0.00 GB)");

    let mut buffered = TempReport::new(Style::Buffered);
    assert_eq!(
        buffered.progress(totals(100, 7, 0)),
        Some("   ⏳ Scanned: 100 deleted, 7 skipped, 0.00 MB freed".to_string())
    );
    assert_eq!(
        buffered.progress(totals(100, 8, 0)),
        Some("   ⏳ Scanned: 100 deleted, 8 skipped, 0.00 MB freed".to_string())
    );
    assert_eq!(buffered.progress(totals(101, 8, 0)), None);
    assert_eq!(buffered.place_done(totals(1, 0, 0)), "   Deleted: 1 items, Skipped: 0, Freed: 0.00 MB");
}

#[test]
fn places_and_their_locations() {
    assert_eq!(system_places(), vec![Place::WindowsTemp, Place::Prefetch]);
    let all = vec![Place::UserTemp, Place::Cookies, Place::Recent, Place::InternetFiles, Place::LocalTemp];
    assert_eq!(user_places(Style::Console, true), all);
    assert_eq!(user_places(Style::Buffered, true), all);
    assert!(user_places(Style::Streaming, true).is_empty());
    assert!(user_places(Style::Console, false).is_empty());
    assert_eq!(place_anchor(Place::WindowsTemp), Anchor::Absolute);
    assert_eq!(place_anchor(Place::Prefetch), Anchor::Absolute);
    assert_eq!(place_anchor(Place::UserTemp), Anchor::TempVariable);
    for place in [Place::Cookies, Place::Recent, Place::InternetFiles, Place::LocalTemp] {
        assert_eq!(place_anchor(place), Anchor::UserProfile);
    }
    assert_eq!(place_location(Place::WindowsTemp), r"C:\Windows\Temp");
    assert_eq!(place_location(Place::Prefetch), r"C:\Windows\Prefetch");
    assert_eq!(place_location(Place::UserTemp), "");
    assert_eq!(place_location(Place::Cookies), "Cookies");
    assert_eq!(place_location(Place::Recent), "Recent");
    assert_eq!(place_location(Place::InternetFiles), r"Local Settings\Temporary Internet Files");
    assert_eq!(place_location(Place::LocalTemp), r"Local Settings\Temp");
    assert_eq!(scan_root(None), "C:");
    assert_eq!(scan_root(Some("D:".to_string())), "D:");
    assert_eq!(scan_extensions(), vec!["tmp", "log", "gid", "chk", "old", "bak", "_mp"]);
    let report = TempReport::new(Style::Console);
    assert_eq!(report.heading(Place::WindowsTemp, "p")[1], "📁 Cleaning Windows temp directory: p");
    assert_eq!(report.heading(Place::Prefetch, "p")[1], "📁 Cleaning Windows prefetch: p");
    assert_eq!(report.heading(Place::UserTemp, "p")[1], "📁 Cleaning user temp directory: p");
    assert_eq!(report.heading(Place::Cookies, "p")[1], "📁 Cleaning user cookies: p");
    assert_eq!(report.heading(Place::Recent, "p")[1], "📁 Cleaning recent files: p");
    assert_eq!(report.heading(Place::InternetFiles, "p")[1], "📁 Cleaning IE temporary files: p");
    assert_eq!(report.heading(Place::LocalTemp, "p")[1], "📁 Cleaning local temp: p");
}

fn attempt(shown: &str, error: Option<&str>) -> CacheAttempt {
    CacheAttempt { shown: shown.to_string(), error: error.map(|e| e.to_string()) }
}

fn fix(profile: Option<&str>, restart: Option<&str>) -> FixFindings {
    FixFindings {
        profile_error: profile.map(|e| e.to_string()),
        attempts: vec![
            attempt("\"C:\\\\U\\\\IconCache.db\"", None),
            attempt("\"C:\\\\U\\\\iconcache_16.db\"", Some("Access is denied. (os error 5)")),
            attempt("\"C:\\\\U\\\\iconcache_32.db\"", None),
        ],
        restart_error: restart.map(|e| e.to_string()),
    }
}

#[test]
fn console_report_of_the_icon_cache_fix() {
    let (lines, outcome) = fix_icon_cache(true, &fix(None, None));
    assert_eq!(outcome, Ok(()));
    assert_eq!(
        lines,
        vec![
            "🔧 Fixing icon cache...",
            "⏳ Closing Windows Explorer...",
            "✅ Deleted: \"C:\\\\U\\\\IconCache.db\"",
            "⚠️  Skipped: \"C:\\\\U\\\\iconcache_16.db\" (Access is denied. (os error 5))",
            "✅ Deleted: \"C:\\\\U\\\\iconcache_32.db\"",
            "",
            "📊 Summary: Deleted 2 files, Skipped 1 files",
            "🔄 Restarting Windows Explorer...",
            "✨ Fix completed! Desktop will restore in a few seconds.",
        ]
    );
    let (lines, outcome) = fix_icon_cache(false, &fix(None, None));
    assert_eq!(outcome, Ok(()));
    assert_eq!(lines.len(), 8);
    assert_eq!(lines[7], "✨ Fix completed! Please restart Explorer manually.");
    // a restart that was not asked for cannot fail
    let (lines, outcome) = fix_icon_cache(false, &fix(None, Some("ignored")));
    assert_eq!(outcome, Ok(()));
    assert_eq!(lines[7], "✨ Fix completed! Please restart Explorer manually.");
}

#[test]
fn the_fix_gives_up_where_the_shell_cannot_be_restarted() {
    let (lines, outcome) = fix_icon_cache(true, &fix(None, Some("not found")));
    assert_eq!(outcome, Err("not found".to_string()));
    assert_eq!(lines.len(), 8);
    assert_eq!(lines[7], "🔄 Restarting Windows Explorer...");
    assert_eq!(
        fix_icon_cache_with_output(true, &fix(None, Some("not found"))),
        Err("not found".to_string())
    );
}

#[test]
fn the_fix_gives_up_where_the_profile_is_unknown() {
    let (lines, outcome) = fix_icon_cache(true, &fix(Some("environment variable not found"), None));
    assert_eq!(outcome, Err("environment variable not found".to_string()));
    assert_eq!(lines, vec!["🔧 Fixing icon cache...", "⏳ Closing Windows Explorer..."]);
    let (lines, outcome) =
        fix_icon_cache_with_streaming(&fix(Some("environment variable not found"), None));
    assert_eq!(outcome, Err("Cannot get USERPROFILE".to_string()));
    assert_eq!(lines, vec!["🔧 Fixing icon cache...", "⏳ Closing Windows Explorer..."]);
    assert_eq!(
        fix_icon_cache_with_output(false, &fix(Some("gone"), None)),
        Err("gone".to_string())
    );
}

#[test]
fn buffered_report_of_the_icon_cache_fix() {
    let output = fix_icon_cache_with_output(false, &fix(None, None)).unwrap();
    assert_eq!(
        output,
        "🔧 Fixing icon cache...\n⏳ Closing Windows Explorer...\n\
         ✅ Deleted: \"C:\\\\U\\\\IconCache.db\"\n\
         ⚠️  Skipped: \"C:\\\\U\\\\iconcache_16.db\" (Access is denied. (os error 5))\n\
         ✅ Deleted: \"C:\\\\U\\\\iconcache_32.db\"\n\
         \n📊 Summary: Deleted 2 files, Skipped 1 files\n\
         ✨ Fix completed! Please restart Explorer manually.\n"
    );
}

#[test]
fn streamed_report_of_the_icon_cache_fix() {
    let (lines, outcome) = fix_icon_cache_with_streaming(&fix(None, None));
    assert_eq!(outcome, Ok(()));
    assert_eq!(
        lines,
        vec![
            "🔧 Fixing icon cache...",
            "⏳ Closing Windows Explorer...",
            "✅ Deleted: \"C:\\\\U\\\\IconCache.db\"",
            "⚠️  Skipped: \"C:\\\\U\\\\iconcache_16.db\" (Access is denied. (os error 5))",
            "✅ Deleted: \"C:\\\\U\\\\iconcache_32.db\"",
            "",
            "📊 Summary: Deleted 2 files, Skipped 1 files",
            "🔄 Restarting Windows Explorer...",
            "✨ Fix completed! Desktop will restore in a few seconds.",
        ]
    );
    // the live view and the text agree where the fix goes through
    let text = fix_icon_cache_with_output(true, &fix(None, None)).unwrap();
    assert_eq!(lines, text.lines().map(|l| l.to_string()).collect::<Vec<String>>());
    assert_eq!(lines, fix_icon_cache(true, &fix(None, None)).0);
    let (lines, outcome) = fix_icon_cache_with_streaming(&fix(None, Some("no shell")));
    assert_eq!(outcome, Ok(()));
    assert_eq!(lines.len(), 9);
    assert_eq!(lines[8], "⚠️  Warning: Failed to restart Explorer: no shell");
}

#[test]
fn the_fix_can_be_reported_as_it_goes() {
    assert_eq!(opening(), vec!["🔧 Fixing icon cache...", "⏳ Closing Windows Explorer..."]);
    assert_eq!(report_attempt(&attempt("p", None)), "✅ Deleted: p");
    assert_eq!(report_attempt(&attempt("p", Some("why"))), "⚠️  Skipped: p (why)");
    assert_eq!(summary(0, 0), vec!["", "📊 Summary: Deleted 0 files, Skipped 0 files"]);
    assert_eq!(summary(12, 3), vec!["", "📊 Summary: Deleted 12 files, Skipped 3 files"]);
    assert_eq!(before_restart(Style::Streaming, false), vec!["🔄 Restarting Windows Explorer..."]);
    assert_eq!(before_restart(Style::Console, true), vec!["🔄 Restarting Windows Explorer..."]);
    assert!(before_restart(Style::Buffered, false).is_empty());
    assert_eq!(
        after_restart(Style::Buffered, true, &None),
        Ok("✨ Fix completed! Desktop will restore in a few seconds.".to_string())
    );
    assert_eq!(after_restart(Style::Buffered, true, &Some("e".to_string())), Err("e".to_string()));
    assert_eq!(
        after_restart(Style::Streaming, false, &Some("e".to_string())),
        Ok("⚠️  Warning: Failed to restart Explorer: e".to_string())
    );
    assert!(is_restarting(Style::Streaming, false));
    assert!(is_restarting(Style::Console, true));
    assert!(!is_restarting(Style::Console, false));
    assert!(!is_restarting(Style::Buffered, false));
    assert_eq!(CLOSE_PAUSE_MS, 2000);
    assert_eq!(RESTART_PAUSE_MS, 3000);
}

#[test]
fn cache_files_are_picked_by_name() {
    assert!(is_cache_name("iconcache_16.db"));
    assert!(is_cache_name("iconcache_.db"));
    assert!(is_cache_name("iconcache_idx.db"));
    assert!(!is_cache_name("iconcache.db"));
    assert!(!is_cache_name("IconCache_16.db"));
    assert!(!is_cache_name("iconcache_16.db.bak"));
    assert!(!is_cache_name("thumbcache_16.db"));
    assert!(!is_cache_name("iconcache_"));
    assert!(!is_cache_name(".db"));
    assert!(!is_cache_name(""));
    let names: Vec<String> =
        ["a.txt", "iconcache_16.db", "thumbcache_32.db", "iconcache_256.db", "iconcache_1.dbx"]
            .iter()
            .map(|s| s.to_string())
            .collect();
    assert_eq!(cache_files(&names), vec![1, 3]);
    assert!(cache_files(&Vec::new()).is_empty());
    assert_eq!(cache_file_location(), r"AppData\Local\IconCache.db");
    assert_eq!(cache_directory_location(), r"AppData\Local\Microsoft\Windows\Explorer");
}

#[test]
fn the_clean_up_goes_through_its_stages_in_order() {
    let system = vec![Stage::Clean(Place::WindowsTemp), Stage::Clean(Place::Prefetch), Stage::Scan];
    let mut all = system.clone();
    all.extend([
        Stage::Clean(Place::UserTemp),
        Stage::Clean(Place::Cookies),
        Stage::Clean(Place::Recent),
        Stage::Clean(Place::InternetFiles),
        Stage::Clean(Place::LocalTemp),
    ]);
    assert_eq!(clean_temp_plan(Style::Console, true), all);
    assert_eq!(clean_temp_plan(Style::Buffered, true), all);
    assert_eq!(clean_temp_plan(Style::Streaming, true), system);
    assert_eq!(clean_temp_plan(Style::Console, false), system);
    assert_eq!(clean_temp_plan(Style::Buffered, false), system);
    assert_eq!(clean_temp_plan(Style::Streaming, false), system);
}
