//! The icon-cache fix: which files it removes, and the report that it writes.
//! Where the fix goes through, the report reads the same in each of the three
//! ways in which it is shown.

use vstd::prelude::*;
use vstd::string::StringExecFns;
use crate::names::{begins_with, chars_of, ends_with, has_prefix, has_suffix};
use crate::temp_files::Style;
use crate::text::{append_line, append_lines, decimal, push_decimal, push_lines, texts,
    with_line_feeds};

verus! {

/// How long to wait after the shell has been closed, in milliseconds.
pub const CLOSE_PAUSE_MS: u64 = 2000;

/// How long to wait after the shell has been restarted, in milliseconds.
pub const RESTART_PAUSE_MS: u64 = 3000;

/// The icon cache file, below the user's profile directory.
pub fn cache_file_location() -> (location: &'static str)
    ensures
        location@ == "AppData\\Local\\IconCache.db"@,
{
    "AppData\\Local\\IconCache.db"
}

/// The directory that holds further icon cache files, below the user's
/// profile directory.
pub fn cache_directory_location() -> (location: &'static str)
    ensures
        location@ == "AppData\\Local\\Microsoft\\Windows\\Explorer"@,
{
    "AppData\\Local\\Microsoft\\Windows\\Explorer"
}

/// The names of icon cache files: they begin with `iconcache_` and end with `.db`.
pub open spec fn cache_name(name: Seq<char>) -> bool {
    begins_with(name, "iconcache_"@) && ends_with(name, ".db"@)
}

/// Whether `name` is the name of an icon cache file.
pub fn is_cache_name(name: &str) -> (is: bool)
    ensures
        is == cache_name(name@),
{
    let chars = chars_of(name);
    let head = chars_of("iconcache_");
    let tail = chars_of(".db");
    has_prefix(&chars, &head) && has_suffix(&chars, &tail)
}

/// The positions, among the first `n` names, of the icon cache files, in order.
pub open spec fn cache_positions(names: Seq<String>, n: nat) -> Seq<usize>
    decreases n,
{
    if n == 0 || n > names.len() {
        Seq::empty()
    } else if cache_name(names[n - 1]@) {
        cache_positions(names, (n - 1) as nat).push((n - 1) as usize)
    } else {
        cache_positions(names, (n - 1) as nat)
    }
}

/// Picks the icon cache files out of a directory listing: their positions, in order.
pub fn cache_files(names: &Vec<String>) -> (positions: Vec<usize>)
    ensures
        positions@ == cache_positions(names@, names@.len()),
{
    let mut positions: Vec<usize> = Vec::new();
    let mut i: usize = 0;
    while i < names.len()
        invariant
            i <= names.len(),
            positions@ == cache_positions(names@, i as nat),
        decreases names.len() - i,
    {
        if is_cache_name(names[i].as_str()) {
            positions.push(i);
        }
        i = i + 1;
    }
    positions
}

/// Whether the shell is restarted: in the live view always, else where that
/// was asked for.
pub open spec fn restarts(style: Style, restart_explorer: bool) -> bool {
    style == Style::Streaming || restart_explorer
}

/// Whether the shell is restarted.
pub fn is_restarting(style: Style, restart_explorer: bool) -> (restart: bool)
    ensures
        restart == restarts(style, restart_explorer),
{
    match style {
        Style::Streaming => true,
        _ => restart_explorer,
    }
}

/// What became of one cache file: its path as it is shown, and why it could
/// not be removed, if it could not.
#[derive(Clone, Debug)]
pub struct CacheAttempt {
    pub shown: String,
    pub error: Option<String>,
}

/// What the fix met with.
#[derive(Debug)]
pub struct FixFindings {
    /// Why the user's profile directory is not known, if it is not.
    pub profile_error: Option<String>,
    /// What became of each cache file, in order.
    pub attempts: Vec<CacheAttempt>,
    /// Why the shell could not be restarted, if that was tried and failed.
    pub restart_error: Option<String>,
}

/// The lines that open the report.
pub open spec fn opening_lines() -> Seq<Seq<char>> {
    seq!["🔧 Fixing icon cache..."@, "⏳ Closing Windows Explorer..."@]
}

/// The line that reports on one cache file.
pub open spec fn attempt_line(shown: Seq<char>, error: Option<String>) -> Seq<char> {
    match error {
        None => "✅ Deleted: "@ + shown,
        Some(reason) => "⚠️  Skipped: "@ + shown + " ("@ + reason@ + ")"@,
    }
}

/// The lines that report on the first `n` cache files.
pub open spec fn attempt_lines(attempts: Seq<CacheAttempt>, n: nat) -> Seq<Seq<char>>
    decreases n,
{
    if n == 0 || n > attempts.len() {
        Seq::empty()
    } else {
        attempt_lines(attempts, (n - 1) as nat).push(
            attempt_line(attempts[n - 1].shown@, attempts[n - 1].error),
        )
    }
}

/// How many of the first `n` cache files were removed.
pub open spec fn removed_count(attempts: Seq<CacheAttempt>, n: nat) -> nat
    decreases n,
{
    if n == 0 || n > attempts.len() {
        0
    } else {
        removed_count(attempts, (n - 1) as nat) + if attempts[n - 1].error is None {
            1nat
        } else {
            0nat
        }
    }
}

/// The lines that sum the removals up: an empty one and the counts.
pub open spec fn summary_lines(deleted: nat, skipped: nat) -> Seq<Seq<char>> {
    seq![
        Seq::empty(),
        "📊 Summary: Deleted "@ + decimal(deleted) + " files, Skipped "@ + decimal(skipped)
            + " files"@,
    ]
}

/// The lines that end the report, and the failure that ends the fix where the
/// shell could not be restarted. The lines are the same in whatever way the
/// report is shown, as long as the fix goes through; where the restart
/// fails, the live view reports that as a warning and goes on, and the
/// others give up.
pub open spec fn ending(style: Style, restart_explorer: bool, restart_error: Option<String>) -> (
    Seq<Seq<char>>,
    Option<Seq<char>>,
) {
    if restarts(style, restart_explorer) {
        match restart_error {
            None => (
                seq![
                    "🔄 Restarting Windows Explorer..."@,
                    "✨ Fix completed! Desktop will restore in a few seconds."@,
                ],
                None,
            ),
            Some(reason) => if style == Style::Streaming {
                (
                    seq![
                        "🔄 Restarting Windows Explorer..."@,
                        "⚠️  Warning: Failed to restart Explorer: "@ + reason@,
                    ],
                    None,
                )
            } else {
                (seq!["🔄 Restarting Windows Explorer..."@], Some(reason@))
            },
        }
    } else {
        (seq!["✨ Fix completed! Please restart Explorer manually."@], None)
    }
}

/// The failure that ends the fix where the user's profile directory is not
/// known: the live view names the variable, the others pass the reason on.
pub open spec fn profile_failure(style: Style, reason: Seq<char>) -> Seq<char> {
    if style == Style::Streaming {
        "Cannot get USERPROFILE"@
    } else {
        reason
    }
}

/// The whole report, and the failure that ended the fix, if one did.
pub open spec fn fix_report(style: Style, restart_explorer: bool, findings: FixFindings) -> (
    Seq<Seq<char>>,
    Option<Seq<char>>,
) {
    match findings.profile_error {
        Some(reason) => (opening_lines(), Some(profile_failure(style, reason@))),
        None => {
            let n = findings.attempts@.len();
            let deleted = removed_count(findings.attempts@, n);
            (
                opening_lines() + attempt_lines(findings.attempts@, n) + summary_lines(
                    deleted,
                    (n - deleted) as nat,
                ) + ending(style, restart_explorer, findings.restart_error).0,
                ending(style, restart_explorer, findings.restart_error).1,
            )
        },
    }
}

/// Where the fix goes through, its report reads the same in whatever way it
/// is shown, as long as the shell is restarted in both or in neither; and
/// where the user's profile directory is not known, the lines written before
/// the fix gives up are the same.
pub proof fn lemma_reports_agree(
    first: Style,
    second: Style,
    restart_first: bool,
    restart_second: bool,
    findings: FixFindings,
)
    requires
        restarts(first, restart_first) == restarts(second, restart_second),
        findings.restart_error is None || !restarts(first, restart_first)
            || findings.profile_error is Some,
    ensures
        fix_report(first, restart_first, findings).0 == fix_report(
            second,
            restart_second,
            findings,
        ).0,
        findings.profile_error is None ==> fix_report(first, restart_first, findings).1 is None
            && fix_report(second, restart_second, findings).1 is None,
{
}

/// The lines that open the report.
pub fn opening() -> (lines: Vec<String>)
    ensures
        texts(lines@) == opening_lines(),
{
    let mut lines: Vec<String> = Vec::new();
    lines.push(String::from_str("🔧 Fixing icon cache..."));
    lines.push(String::from_str("⏳ Closing Windows Explorer..."));
    assert(texts(lines@) =~= opening_lines());
    lines
}

/// The line that reports on one cache file.
pub fn report_attempt(attempt: &CacheAttempt) -> (line: String)
    ensures
        line@ == attempt_line(attempt.shown@, attempt.error),
{
    match &attempt.error {
        None => {
            let mut line = String::from_str("✅ Deleted: ");
            line.append(attempt.shown.as_str());
            line
        },
        Some(reason) => {
            let mut line = String::from_str("⚠️  Skipped: ");
            line.append(attempt.shown.as_str());
            line.append(" (");
            line.append(reason.as_str());
            line.append(")");
            line
        },
    }
}

/// The lines that sum the removals up.
pub fn summary(deleted: usize, skipped: usize) -> (lines: Vec<String>)
    ensures
        texts(lines@) == summary_lines(deleted as nat, skipped as nat),
{
    let mut line = String::from_str("📊 Summary: Deleted ");
    push_decimal(&mut line, deleted as u128);
    line.append(" files, Skipped ");
    push_decimal(&mut line, skipped as u128);
    line.append(" files");
    let mut lines: Vec<String> = Vec::new();
    lines.push(String::new());
    lines.push(line);
    assert(texts(lines@) =~= summary_lines(deleted as nat, skipped as nat));
    lines
}

/// The failure that ends the fix where the user's profile directory is not
/// known. `reason` is why it is not.
pub fn profile_error(style: Style, reason: &str) -> (failure: String)
    ensures
        failure@ == profile_failure(style, reason@),
{
    match style {
        Style::Streaming => String::from_str("Cannot get USERPROFILE"),
        _ => String::from_str(reason),
    }
}

/// The count of the cache files removed and skipped so far.
pub struct FixCount {
    deleted: usize,
    skipped: usize,
}

impl FixCount {
    /// The files removed so far.
    pub closed spec fn deleted(self) -> nat {
        self.deleted as nat
    }

    /// The files skipped so far.
    pub closed spec fn skipped(self) -> nat {
        self.skipped as nat
    }

    /// A count of nothing.
    pub fn new() -> (count: FixCount)
        ensures
            count.deleted() == 0,
            count.skipped() == 0,
    {
        FixCount { deleted: 0, skipped: 0 }
    }

    /// Whether one more file can be counted.
    pub fn has_room(&self) -> (room: bool)
        ensures
            room == (self.deleted() < usize::MAX && self.skipped() < usize::MAX),
    {
        self.deleted < usize::MAX && self.skipped < usize::MAX
    }

    /// Counts one file and hands back the line that reports on it.
    pub fn record(&mut self, attempt: &CacheAttempt) -> (line: String)
        requires
            old(self).deleted() < usize::MAX,
            old(self).skipped() < usize::MAX,
        ensures
            line@ == attempt_line(attempt.shown@, attempt.error),
            final(self).deleted() == old(self).deleted() + if attempt.error is None {
                1nat
            } else {
                0nat
            },
            final(self).skipped() == old(self).skipped() + if attempt.error is None {
                0nat
            } else {
                1nat
            },
    {
        if attempt.error.is_none() {
            self.deleted = self.deleted + 1;
        } else {
            self.skipped = self.skipped + 1;
        }
        report_attempt(attempt)
    }

    /// The lines that sum the removals up.
    pub fn summary(&self) -> (lines: Vec<String>)
        ensures
            texts(lines@) == summary_lines(self.deleted(), self.skipped()),
    {
        summary(self.deleted, self.skipped)
    }
}

/// The lines that come before the shell is restarted; none where it is not.
pub fn before_restart(style: Style, restart_explorer: bool) -> (lines: Vec<String>)
    ensures
        texts(lines@) == if restarts(style, restart_explorer) {
            seq!["🔄 Restarting Windows Explorer..."@]
        } else {
            Seq::empty()
        },
{
    let mut lines: Vec<String> = Vec::new();
    if is_restarting(style, restart_explorer) {
        lines.push(String::from_str("🔄 Restarting Windows Explorer..."));
        assert(texts(lines@) =~= seq!["🔄 Restarting Windows Explorer..."@]);
    } else {
        assert(texts(lines@) =~= Seq::empty());
    }
    lines
}

/// The line that comes after the restart of the shell, or after it was left
/// out; or the failure that ends the fix.
pub fn after_restart(style: Style, restart_explorer: bool, restart_error: &Option<String>) -> (result:
    Result<String, String>)
    ensures
        match result {
            Ok(line) => ending(style, restart_explorer, *restart_error).1 is None && ending(
                style,
                restart_explorer,
                *restart_error,
            ).0.last() == line@,
            Err(reason) => ending(style, restart_explorer, *restart_error).1 == Some(reason@),
        },
{
    let restart = is_restarting(style, restart_explorer);
    if !restart {
        return Ok(String::from_str("✨ Fix completed! Please restart Explorer manually."));
    }
    match restart_error {
        None => Ok(String::from_str("✨ Fix completed! Desktop will restore in a few seconds.")),
        Some(reason) => {
            match style {
                Style::Streaming => {
                    let mut line = String::from_str("⚠️  Warning: Failed to restart Explorer: ");
                    line.append(reason.as_str());
                    Ok(line)
                },
                _ => Err(reason.clone()),
            }
        },
    }
}

/// Writes the whole report in the given style.
fn write_report(style: Style, restart_explorer: bool, findings: &FixFindings) -> (result: (
    Vec<String>,
    Result<(), String>,
))
    ensures
        texts(result.0@) == fix_report(style, restart_explorer, *findings).0,
        match result.1 {
            Ok(_) => fix_report(style, restart_explorer, *findings).1 is None,
            Err(reason) => fix_report(style, restart_explorer, *findings).1 == Some(reason@),
        },
{
    let mut lines = opening();
    match &findings.profile_error {
        Some(reason) => {
            return (lines, Err(profile_error(style, reason.as_str())));
        },
        None => {},
    }
    let ghost opened = texts(lines@);
    let mut count = FixCount::new();
    let mut i: usize = 0;
    assert(texts(lines@) =~= opened + attempt_lines(findings.attempts@, 0));
    while i < findings.attempts.len()
        invariant
            i <= findings.attempts.len(),
            count.deleted() == removed_count(findings.attempts@, i as nat),
            count.deleted() + count.skipped() == i,
            texts(lines@) == opened + attempt_lines(findings.attempts@, i as nat),
        decreases findings.attempts.len() - i,
    {
        let attempt = &findings.attempts[i];
        let line = count.record(attempt);
        append_line(&mut lines, line);
        assert(texts(lines@) =~= opened + attempt_lines(findings.attempts@, (i + 1) as nat));
        i = i + 1;
    }
    append_lines(&mut lines, count.summary());
    append_lines(&mut lines, before_restart(style, restart_explorer));
    let ghost body = texts(lines@);
    match after_restart(style, restart_explorer, &findings.restart_error) {
        Ok(line) => {
            append_line(&mut lines, line);
            proof {
                assert(texts(lines@) =~= fix_report(style, restart_explorer, *findings).0);
            }
            (lines, Ok(()))
        },
        Err(reason) => {
            proof {
                assert(texts(lines@) =~= fix_report(style, restart_explorer, *findings).0);
            }
            (lines, Err(reason))
        },
    }
}

/// The report of the fix as the console shows it, line by line, and whether
/// the fix went through or why it gave up.
pub fn fix_icon_cache(restart_explorer: bool, findings: &FixFindings) -> (result: (
    Vec<String>,
    Result<(), String>,
))
    ensures
        texts(result.0@) == fix_report(Style::Console, restart_explorer, *findings).0,
        match result.1 {
            Ok(_) => fix_report(Style::Console, restart_explorer, *findings).1 is None,
            Err(reason) => fix_report(Style::Console, restart_explorer, *findings).1 == Some(
                reason@,
            ),
        },
{
    write_report(Style::Console, restart_explorer, findings)
}

/// The report of the fix as one text, each line closed by a line feed; or why
/// the fix gave up.
pub fn fix_icon_cache_with_output(restart_explorer: bool, findings: &FixFindings) -> (result:
    Result<String, String>)
    ensures
        match result {
            Ok(output) => fix_report(Style::Buffered, restart_explorer, *findings).1 is None
                && output@ == with_line_feeds(
                fix_report(Style::Buffered, restart_explorer, *findings).0,
            ),
            Err(reason) => fix_report(Style::Buffered, restart_explorer, *findings).1 == Some(
                reason@,
            ),
        },
{
    let (lines, outcome) = write_report(Style::Buffered, restart_explorer, findings);
    match outcome {
        Ok(_) => {
            let mut output = String::new();
            push_lines(&mut output, &lines);
            assert(output@ =~= with_line_feeds(texts(lines@)));
            Ok(output)
        },
        Err(reason) => Err(reason),
    }
}

/// The report of the fix as the live view receives it, line by line, and
/// whether the fix went through or why it gave up. The live view always
/// restarts the shell.
pub fn fix_icon_cache_with_streaming(findings: &FixFindings) -> (result: (
    Vec<String>,
    Result<(), String>,
))
    ensures
        texts(result.0@) == fix_report(Style::Streaming, true, *findings).0,
        match result.1 {
            Ok(_) => fix_report(Style::Streaming, true, *findings).1 is None,
            Err(reason) => fix_report(Style::Streaming, true, *findings).1 == Some(reason@),
        },
{
    write_report(Style::Streaming, true, findings)
}

} // verus!
