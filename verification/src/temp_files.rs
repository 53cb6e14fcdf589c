//! The temporary-files clean-up: which places it cleans, and the report that
//! it writes. The report reads the same in each of the three ways in which it
//! is shown, but for the progress lines of the scan.

use vstd::prelude::*;
use vstd::string::StringExecFns;
use crate::cleaner::{clean_directory, report_lines, tally_of, Removal};
use crate::text::{append_line, append_lines, decimal, gibibytes, mebibytes, push_decimal,
    push_gibibytes, push_lines, push_mebibytes, texts, with_line_feeds};
use crate::totals::{ScanTotals, Tally};

verus! {

/// How the report is shown. The way decides how the progress of the scan is
/// worded and whether the places of the user can be included; every other
/// line reads the same in all three.
#[derive(Clone, Copy, Debug, PartialEq, Eq, Structural)]
pub enum Style {
    /// Printed to the console as the clean-up goes.
    Console,
    /// Collected into one text.
    Buffered,
    /// Sent line by line into the live view.
    Streaming,
}

/// A directory that the clean-up empties.
#[derive(Clone, Copy, Debug, PartialEq, Eq, Structural)]
pub enum Place {
    WindowsTemp,
    Prefetch,
    UserTemp,
    Cookies,
    Recent,
    InternetFiles,
    LocalTemp,
}

/// Where the path of a place starts.
#[derive(Clone, Copy, Debug, PartialEq, Eq, Structural)]
pub enum Anchor {
    /// Nowhere: the location is the whole path.
    Absolute,
    /// At the directory that the variable `TEMP` names; the place is that directory.
    TempVariable,
    /// At the directory that the variable `USERPROFILE` names.
    UserProfile,
}

/// Where the path of a place starts. A place whose variable is not set is left out.
pub fn place_anchor(place: Place) -> (anchor: Anchor)
    ensures
        anchor == match place {
            Place::WindowsTemp => Anchor::Absolute,
            Place::Prefetch => Anchor::Absolute,
            Place::UserTemp => Anchor::TempVariable,
            _ => Anchor::UserProfile,
        },
{
    match place {
        Place::WindowsTemp => Anchor::Absolute,
        Place::Prefetch => Anchor::Absolute,
        Place::UserTemp => Anchor::TempVariable,
        _ => Anchor::UserProfile,
    }
}

/// The location of a place below its anchor.
pub open spec fn location_of(place: Place) -> Seq<char> {
    match place {
        Place::WindowsTemp => "C:\\Windows\\Temp"@,
        Place::Prefetch => "C:\\Windows\\Prefetch"@,
        Place::UserTemp => ""@,
        Place::Cookies => "Cookies"@,
        Place::Recent => "Recent"@,
        Place::InternetFiles => "Local Settings\\Temporary Internet Files"@,
        Place::LocalTemp => "Local Settings\\Temp"@,
    }
}

/// The location of a place below its anchor.
pub fn place_location(place: Place) -> (location: &'static str)
    ensures
        location@ == location_of(place),
{
    match place {
        Place::WindowsTemp => "C:\\Windows\\Temp",
        Place::Prefetch => "C:\\Windows\\Prefetch",
        Place::UserTemp => "",
        Place::Cookies => "Cookies",
        Place::Recent => "Recent",
        Place::InternetFiles => "Local Settings\\Temporary Internet Files",
        Place::LocalTemp => "Local Settings\\Temp",
    }
}

/// What a place is called in the report.
pub open spec fn label_of(place: Place) -> Seq<char> {
    match place {
        Place::WindowsTemp => "Windows temp directory"@,
        Place::Prefetch => "Windows prefetch"@,
        Place::UserTemp => "user temp directory"@,
        Place::Cookies => "user cookies"@,
        Place::Recent => "recent files"@,
        Place::InternetFiles => "IE temporary files"@,
        Place::LocalTemp => "local temp"@,
    }
}

fn place_label(place: Place) -> (label: &'static str)
    ensures
        label@ == label_of(place),
{
    match place {
        Place::WindowsTemp => "Windows temp directory",
        Place::Prefetch => "Windows prefetch",
        Place::UserTemp => "user temp directory",
        Place::Cookies => "user cookies",
        Place::Recent => "recent files",
        Place::InternetFiles => "IE temporary files",
        Place::LocalTemp => "local temp",
    }
}

/// The places that are cleaned before the drive is scanned, in order.
pub fn system_places() -> (places: Vec<Place>)
    ensures
        places@ == seq![Place::WindowsTemp, Place::Prefetch],
{
    let mut places: Vec<Place> = Vec::new();
    places.push(Place::WindowsTemp);
    places.push(Place::Prefetch);
    places
}

/// Whether the places of the user are cleaned: where that was asked for,
/// except in the live view, which cleans the system's places only.
pub open spec fn user_included(style: Style, include_user: bool) -> bool {
    include_user && style != Style::Streaming
}

/// The places that are cleaned after the drive has been scanned, in order.
pub fn user_places(style: Style, include_user: bool) -> (places: Vec<Place>)
    ensures
        places@ == if user_included(style, include_user) {
            seq![
                Place::UserTemp,
                Place::Cookies,
                Place::Recent,
                Place::InternetFiles,
                Place::LocalTemp,
            ]
        } else {
            Seq::empty()
        },
{
    let mut places: Vec<Place> = Vec::new();
    let streaming = match style {
        Style::Streaming => true,
        _ => false,
    };
    if include_user && !streaming {
        places.push(Place::UserTemp);
        places.push(Place::Cookies);
        places.push(Place::Recent);
        places.push(Place::InternetFiles);
        places.push(Place::LocalTemp);
    }
    places
}

/// One stage of the clean-up.
#[derive(Clone, Copy, Debug, PartialEq, Eq, Structural)]
pub enum Stage {
    /// Empty this place, if it exists.
    Clean(Place),
    /// Scan the system drive for files with one of the extensions.
    Scan,
}

/// The stages of the clean-up, in order: the system's places, the scan of the
/// drive, and the places of the user where they are included.
pub open spec fn plan_of(style: Style, include_user: bool) -> Seq<Stage> {
    seq![Stage::Clean(Place::WindowsTemp), Stage::Clean(Place::Prefetch), Stage::Scan] + if user_included(
        style,
        include_user,
    ) {
        seq![
            Stage::Clean(Place::UserTemp),
            Stage::Clean(Place::Cookies),
            Stage::Clean(Place::Recent),
            Stage::Clean(Place::InternetFiles),
            Stage::Clean(Place::LocalTemp),
        ]
    } else {
        Seq::empty()
    }
}

/// The stages of the clean-up, in order.
pub fn clean_temp_plan(style: Style, include_user: bool) -> (plan: Vec<Stage>)
    ensures
        plan@ == plan_of(style, include_user),
{
    let mut plan: Vec<Stage> = Vec::new();
    let system = system_places();
    let mut i: usize = 0;
    while i < system.len()
        invariant
            i <= system.len(),
            system@ == seq![Place::WindowsTemp, Place::Prefetch],
            plan@ == Seq::new(i as nat, |k: int| Stage::Clean(system@[k])),
        decreases system.len() - i,
    {
        plan.push(Stage::Clean(system[i]));
        assert(plan@ =~= Seq::new((i + 1) as nat, |k: int| Stage::Clean(system@[k])));
        i = i + 1;
    }
    plan.push(Stage::Scan);
    let ghost head = plan@;
    assert(head =~= seq![Stage::Clean(Place::WindowsTemp), Stage::Clean(Place::Prefetch), Stage::Scan]);
    let user = user_places(style, include_user);
    let mut j: usize = 0;
    while j < user.len()
        invariant
            j <= user.len(),
            plan@ == head + Seq::new(j as nat, |k: int| Stage::Clean(user@[k])),
        decreases user.len() - j,
    {
        plan.push(Stage::Clean(user[j]));
        assert(plan@ =~= head + Seq::new((j + 1) as nat, |k: int| Stage::Clean(user@[k])));
        j = j + 1;
    }
    assert(plan@ =~= plan_of(style, include_user));
    plan
}

/// The drive that is scanned: the one that the variable `SystemDrive` names,
/// or `C:` where it is not set.
pub fn scan_root(system_drive: Option<String>) -> (root: String)
    ensures
        root@ == match system_drive {
            Some(drive) => drive@,
            None => "C:"@,
        },
{
    match system_drive {
        Some(drive) => drive,
        None => String::from_str("C:"),
    }
}

/// The extensions of the files that the scan removes.
pub open spec fn temp_extensions() -> Seq<Seq<char>> {
    seq!["tmp"@, "log"@, "gid"@, "chk"@, "old"@, "bak"@, "_mp"@]
}

/// The extensions of the files that the scan removes.
pub fn scan_extensions() -> (extensions: Vec<String>)
    ensures
        texts(extensions@) == temp_extensions(),
{
    let mut extensions: Vec<String> = Vec::new();
    extensions.push(String::from_str("tmp"));
    extensions.push(String::from_str("log"));
    extensions.push(String::from_str("gid"));
    extensions.push(String::from_str("chk"));
    extensions.push(String::from_str("old"));
    extensions.push(String::from_str("bak"));
    extensions.push(String::from_str("_mp"));
    assert(texts(extensions@) =~= temp_extensions());
    extensions
}

/// The line that parts the report.
pub open spec fn rule() -> Seq<char> {
    "═══════════════════════════════════════════════════"@
}

/// The lines that open the report.
pub open spec fn opening_lines() -> Seq<Seq<char>> {
    seq!["🧹 Cleaning temporary files..."@, rule()]
}

/// The lines that announce a place: an empty one, and the place with its path.
pub open spec fn place_heading(place: Place, shown: Seq<char>) -> Seq<Seq<char>> {
    seq![Seq::empty(), "📁 Cleaning "@ + label_of(place) + ": "@ + shown]
}

/// The line that sums a place up.
pub open spec fn place_result(totals: Tally) -> Seq<char> {
    "   Deleted: "@ + decimal(totals.deleted) + " items, Skipped: "@ + decimal(totals.failed)
        + ", Freed: "@ + mebibytes(totals.bytes) + " MB"@
}

/// The lines that announce the scan of the drive.
pub open spec fn scan_heading() -> Seq<Seq<char>> {
    seq![Seq::empty(), "📁 Scanning system drive for temp files (limited depth)..."@]
}

/// Whether progress is reported when `deleted` files have been removed: at
/// every full hundred; the console and the live view do not report the count
/// that they reported last.
pub open spec fn progress_shown(style: Style, last: nat, deleted: nat) -> bool {
    deleted > 0 && deleted % 100 == 0 && (style == Style::Buffered || deleted != last)
}

/// The line that reports progress.
pub open spec fn progress_line(style: Style, totals: Tally) -> Seq<char> {
    if style == Style::Buffered {
        "   ⏳ Scanned: "@ + decimal(totals.deleted) + " deleted, "@ + decimal(totals.failed)
            + " skipped, "@ + mebibytes(totals.bytes) + " MB freed"@
    } else {
        "   ⏳ Progress: "@ + decimal(totals.deleted) + " deleted, "@ + mebibytes(totals.bytes)
            + " MB freed..."@
    }
}

/// The line that sums the scan up.
pub open spec fn scan_result(totals: Tally) -> Seq<char> {
    "   ✅ Completed: "@ + decimal(totals.deleted) + " items deleted, "@ + decimal(totals.failed)
        + " skipped, "@ + mebibytes(totals.bytes) + " MB freed"@
}

/// The lines that close the report.
pub open spec fn summary_lines(totals: Tally) -> Seq<Seq<char>> {
    seq![
        Seq::empty(),
        rule(),
        "📊 Cleaning summary:"@,
        "   Total deleted: "@ + decimal(totals.deleted) + " items"@,
        "   Total skipped: "@ + decimal(totals.failed) + " items"@,
        "   Freed space: "@ + mebibytes(totals.bytes) + " MB ("@ + gibibytes(totals.bytes)
            + " GB)"@,
        rule(),
        "✨ Cleaning completed!"@,
    ]
}

/// The count that was reported last, after the first `n` reports of the sink.
pub open spec fn last_shown(style: Style, reports: Seq<ScanTotals>, n: nat) -> nat
    decreases n,
{
    if n == 0 || n > reports.len() {
        0
    } else {
        let before = last_shown(style, reports, (n - 1) as nat);
        if progress_shown(style, before, reports[n - 1].deleted as nat) {
            reports[n - 1].deleted as nat
        } else {
            before
        }
    }
}

/// The progress lines that the first `n` reports of the sink lead to.
pub open spec fn progress_lines(style: Style, reports: Seq<ScanTotals>, n: nat) -> Seq<Seq<char>>
    decreases n,
{
    if n == 0 || n > reports.len() {
        Seq::empty()
    } else {
        let earlier = progress_lines(style, reports, (n - 1) as nat);
        if progress_shown(
            style,
            last_shown(style, reports, (n - 1) as nat),
            reports[n - 1].deleted as nat,
        ) {
            earlier.push(progress_line(style, reports[n - 1]@))
        } else {
            earlier
        }
    }
}

/// What was found in one place: the path as it is shown, and what became of
/// each entry.
#[derive(Debug)]
pub struct PlaceFinding {
    pub place: Place,
    pub shown: String,
    pub attempts: Vec<Removal>,
}

/// What the scan of the drive came to: what the progress sink was told, in
/// order, and the totals.
#[derive(Debug)]
pub struct ScanFinding {
    pub reports: Vec<ScanTotals>,
    pub totals: ScanTotals,
}

/// The part of the report on one place.
pub open spec fn place_section(finding: PlaceFinding) -> Seq<Seq<char>> {
    place_heading(finding.place, finding.shown@) + report_lines(finding.attempts@).push(
        place_result(tally_of(finding.attempts@, finding.attempts@.len())),
    )
}

/// The part of the report on the first `n` places.
pub open spec fn place_sections(findings: Seq<PlaceFinding>, n: nat) -> Seq<Seq<char>>
    decreases n,
{
    if n == 0 || n > findings.len() {
        Seq::empty()
    } else {
        place_sections(findings, (n - 1) as nat) + place_section(findings[n - 1])
    }
}

/// The totals of the first `n` places.
pub open spec fn places_tally(findings: Seq<PlaceFinding>, n: nat) -> Tally
    decreases n,
{
    if n == 0 || n > findings.len() {
        Tally::zero()
    } else {
        places_tally(findings, (n - 1) as nat).plus(
            tally_of(findings[n - 1].attempts@, findings[n - 1].attempts@.len()),
        )
    }
}

/// The part of the report on the scan.
pub open spec fn scan_section(style: Style, scan: ScanFinding) -> Seq<Seq<char>> {
    scan_heading() + progress_lines(style, scan.reports@, scan.reports@.len()).push(
        scan_result(scan.totals@),
    )
}

/// The totals of the whole clean-up.
pub open spec fn clean_up_tally(
    style: Style,
    include_user: bool,
    system: Seq<PlaceFinding>,
    scan: ScanFinding,
    user: Seq<PlaceFinding>,
) -> Tally {
    places_tally(system, system.len()).plus(scan.totals@).plus(
        if user_included(style, include_user) {
            places_tally(user, user.len())
        } else {
            Tally::zero()
        },
    )
}

/// The whole report: the opening, the system's places, the scan, the user's
/// places where they are included, and the summary.
pub open spec fn clean_up_report(
    style: Style,
    include_user: bool,
    system: Seq<PlaceFinding>,
    scan: ScanFinding,
    user: Seq<PlaceFinding>,
) -> Seq<Seq<char>> {
    opening_lines() + place_sections(system, system.len()) + scan_section(style, scan) + (
    if user_included(style, include_user) {
        place_sections(user, user.len())
    } else {
        Seq::empty()
    }) + summary_lines(clean_up_tally(style, include_user, system, scan, user))
}

/// The report up to the progress lines of the scan.
pub open spec fn report_head(system: Seq<PlaceFinding>) -> Seq<Seq<char>> {
    opening_lines() + place_sections(system, system.len()) + scan_heading()
}

/// The report from the line on that sums the scan up, with or without the
/// places of the user.
pub open spec fn report_tail(
    with_user: bool,
    system: Seq<PlaceFinding>,
    scan: ScanFinding,
    user: Seq<PlaceFinding>,
) -> Seq<Seq<char>> {
    seq![scan_result(scan.totals@)] + (if with_user {
        place_sections(user, user.len())
    } else {
        Seq::empty()
    }) + summary_lines(
        places_tally(system, system.len()).plus(scan.totals@).plus(
            if with_user {
                places_tally(user, user.len())
            } else {
                Tally::zero()
            },
        ),
    )
}

/// Shown in whatever way, the report is the same line for line but for the
/// progress lines of the scan: they stand between a head and a tail that do
/// not depend on the way.
pub proof fn lemma_report_differs_in_progress_only(
    style: Style,
    include_user: bool,
    system: Seq<PlaceFinding>,
    scan: ScanFinding,
    user: Seq<PlaceFinding>,
)
    ensures
        clean_up_report(style, include_user, system, scan, user) == report_head(system)
            + progress_lines(style, scan.reports@, scan.reports@.len()) + report_tail(
            user_included(style, include_user),
            system,
            scan,
            user,
        ),
{
    assert(clean_up_report(style, include_user, system, scan, user) =~= report_head(system)
        + progress_lines(style, scan.reports@, scan.reports@.len()) + report_tail(
        user_included(style, include_user),
        system,
        scan,
        user,
    ));
}

/// The live view and the report as one text agree line for line apart from
/// the progress lines of the scan, where both leave the user's places out:
/// a scan that reports no progress gives the same lines in both.
pub proof fn lemma_live_view_and_text_agree(
    system: Seq<PlaceFinding>,
    scan: ScanFinding,
    user: Seq<PlaceFinding>,
)
    ensures
        clean_up_report(Style::Streaming, false, system, scan, Seq::empty()) == report_head(system)
            + progress_lines(Style::Streaming, scan.reports@, scan.reports@.len()) + report_tail(
            false,
            system,
            scan,
            user,
        ),
        clean_up_report(Style::Buffered, false, system, scan, user) == report_head(system)
            + progress_lines(Style::Buffered, scan.reports@, scan.reports@.len()) + report_tail(
            false,
            system,
            scan,
            user,
        ),
        scan.reports@.len() == 0 ==> clean_up_report(
            Style::Streaming,
            false,
            system,
            scan,
            Seq::empty(),
        ) == clean_up_report(Style::Buffered, false, system, scan, user),
{
    lemma_report_differs_in_progress_only(Style::Streaming, false, system, scan, Seq::empty());
    lemma_report_differs_in_progress_only(Style::Buffered, false, system, scan, user);
    assert(report_tail(false, system, scan, user) == report_tail(
        false,
        system,
        scan,
        Seq::empty(),
    ));
}

/// The totals of the places never go down as more places are taken in.
pub proof fn lemma_places_tally_grows(findings: Seq<PlaceFinding>, i: nat, j: nat)
    requires
        i <= j <= findings.len(),
    ensures
        places_tally(findings, i).le(places_tally(findings, j)),
    decreases j,
{
    if i < j {
        lemma_places_tally_grows(findings, i, (j - 1) as nat);
    }
}

/// The writer of the report: the totals so far, and the count that the scan
/// reported last.
pub struct TempReport {
    style: Style,
    totals: ScanTotals,
    last: usize,
}

impl TempReport {
    /// How the report is shown.
    pub closed spec fn style(self) -> Style {
        self.style
    }

    /// The totals so far.
    pub closed spec fn tally(self) -> Tally {
        self.totals@
    }

    /// The count that the scan reported last.
    pub closed spec fn last(self) -> nat {
        self.last as nat
    }

    /// A report that has counted nothing yet.
    pub fn new(style: Style) -> (report: TempReport)
        ensures
            report.style() == style,
            report.tally() == Tally::zero(),
            report.last() == 0,
    {
        TempReport { style, totals: ScanTotals::new(), last: 0 }
    }

    /// The totals so far.
    pub fn totals(&self) -> (totals: ScanTotals)
        ensures
            totals@ == self.tally(),
    {
        self.totals
    }

    /// Whether the totals of one more part can be added without a counter running over.
    pub fn has_room(&self, part: ScanTotals) -> (room: bool)
        ensures
            room == self.tally().plus(part@).fits(),
    {
        part.deleted <= usize::MAX - self.totals.deleted && part.failed <= usize::MAX
            - self.totals.failed && part.bytes <= u64::MAX - self.totals.bytes
    }

    /// The lines that open the report.
    pub fn opening(&self) -> (lines: Vec<String>)
        ensures
            texts(lines@) == opening_lines(),
    {
        let mut lines: Vec<String> = Vec::new();
        lines.push(String::from_str("🧹 Cleaning temporary files..."));
        lines.push(String::from_str("═══════════════════════════════════════════════════"));
        assert(texts(lines@) =~= opening_lines());
        lines
    }

    /// The lines that announce a place. `shown` is its path as it is shown.
    pub fn heading(&self, place: Place, shown: &str) -> (lines: Vec<String>)
        ensures
            texts(lines@) == place_heading(place, shown@),
    {
        let mut line = String::from_str("📁 Cleaning ");
        line.append(place_label(place));
        line.append(": ");
        line.append(shown);
        let mut lines: Vec<String> = Vec::new();
        lines.push(String::new());
        lines.push(line);
        assert(texts(lines@) =~= place_heading(place, shown@));
        lines
    }

    /// Adds the totals of a place and hands back the line that sums it up.
    pub fn place_done(&mut self, totals: ScanTotals) -> (line: String)
        requires
            old(self).tally().plus(totals@).fits(),
        ensures
            final(self).tally() == old(self).tally().plus(totals@),
            final(self).style() == old(self).style(),
            final(self).last() == old(self).last(),
            line@ == place_result(totals@),
    {
        self.totals = self.totals.combine(totals);
        let mut line = String::from_str("   Deleted: ");
        push_decimal(&mut line, totals.deleted as u128);
        line.append(" items, Skipped: ");
        push_decimal(&mut line, totals.failed as u128);
        line.append(", Freed: ");
        push_mebibytes(&mut line, totals.bytes);
        line.append(" MB");
        line
    }

    /// The lines that announce the scan of the drive.
    pub fn scan_heading(&self) -> (lines: Vec<String>)
        ensures
            texts(lines@) == scan_heading(),
    {
        let mut lines: Vec<String> = Vec::new();
        lines.push(String::new());
        lines.push(
            String::from_str("📁 Scanning system drive for temp files (limited depth)..."),
        );
        assert(texts(lines@) =~= scan_heading());
        lines
    }

    /// Takes in what the scan tells the progress sink, and hands back the
    /// line to report it with, at every full hundred of removed files.
    pub fn progress(&mut self, totals: ScanTotals) -> (line: Option<String>)
        ensures
            final(self).tally() == old(self).tally(),
            final(self).style() == old(self).style(),
            final(self).last() == if progress_shown(
                old(self).style(),
                old(self).last(),
                totals.deleted as nat,
            ) {
                totals.deleted as nat
            } else {
                old(self).last()
            },
            match line {
                Some(text) => progress_shown(
                    old(self).style(),
                    old(self).last(),
                    totals.deleted as nat,
                ) && text@ == progress_line(old(self).style(), totals@),
                None => !progress_shown(old(self).style(), old(self).last(), totals.deleted as nat),
            },
    {
        let buffered = match self.style {
            Style::Buffered => true,
            _ => false,
        };
        if totals.deleted > 0 && totals.deleted % 100 == 0 && (buffered || totals.deleted
            != self.last) {
            self.last = totals.deleted;
            let mut line;
            if buffered {
                line = String::from_str("   ⏳ Scanned: ");
                push_decimal(&mut line, totals.deleted as u128);
                line.append(" deleted, ");
                push_decimal(&mut line, totals.failed as u128);
                line.append(" skipped, ");
                push_mebibytes(&mut line, totals.bytes);
                line.append(" MB freed");
            } else {
                line = String::from_str("   ⏳ Progress: ");
                push_decimal(&mut line, totals.deleted as u128);
                line.append(" deleted, ");
                push_mebibytes(&mut line, totals.bytes);
                line.append(" MB freed...");
            }
            Some(line)
        } else {
            None
        }
    }

    /// Adds the totals of the scan and hands back the line that sums it up.
    pub fn scan_done(&mut self, totals: ScanTotals) -> (line: String)
        requires
            old(self).tally().plus(totals@).fits(),
        ensures
            final(self).tally() == old(self).tally().plus(totals@),
            final(self).style() == old(self).style(),
            final(self).last() == old(self).last(),
            line@ == scan_result(totals@),
    {
        self.totals = self.totals.combine(totals);
        let mut line = String::from_str("   ✅ Completed: ");
        push_decimal(&mut line, totals.deleted as u128);
        line.append(" items deleted, ");
        push_decimal(&mut line, totals.failed as u128);
        line.append(" skipped, ");
        push_mebibytes(&mut line, totals.bytes);
        line.append(" MB freed");
        line
    }

    /// The lines that close the report.
    pub fn closing(&self) -> (lines: Vec<String>)
        ensures
            texts(lines@) == summary_lines(self.tally()),
    {
        let mut lines: Vec<String> = Vec::new();
        lines.push(String::new());
        lines.push(String::from_str("═══════════════════════════════════════════════════"));
        lines.push(String::from_str("📊 Cleaning summary:"));
        let mut deleted = String::from_str("   Total deleted: ");
        push_decimal(&mut deleted, self.totals.deleted as u128);
        deleted.append(" items");
        lines.push(deleted);
        let mut skipped = String::from_str("   Total skipped: ");
        push_decimal(&mut skipped, self.totals.failed as u128);
        skipped.append(" items");
        lines.push(skipped);
        let mut freed = String::from_str("   Freed space: ");
        push_mebibytes(&mut freed, self.totals.bytes);
        freed.append(" MB (");
        push_gibibytes(&mut freed, self.totals.bytes);
        freed.append(" GB)");
        lines.push(freed);
        lines.push(String::from_str("═══════════════════════════════════════════════════"));
        lines.push(String::from_str("✨ Cleaning completed!"));
        assert(texts(lines@) =~= summary_lines(self.tally()));
        lines
    }
}

/// Writes the part of the report on the given places.
fn write_places(report: &mut TempReport, lines: &mut Vec<String>, findings: &Vec<PlaceFinding>)
    requires
        old(report).tally().plus(places_tally(findings@, findings@.len())).fits(),
    ensures
        final(report).tally() == old(report).tally().plus(
            places_tally(findings@, findings@.len()),
        ),
        final(report).style() == old(report).style(),
        final(report).last() == old(report).last(),
        texts(final(lines)@) == texts(old(lines)@) + place_sections(findings@,
            findings@.len(),
        ),
{
    let ghost style = report.style();
    let mut i: usize = 0;
    assert(texts(lines@) =~= texts(old(lines)@) + place_sections(findings@, 0));
    while i < findings.len()
        invariant
            i <= findings.len(),
            style == old(report).style(),
            report.style() == style,
            report.last() == old(report).last(),
            report.tally() == old(report).tally().plus(places_tally(findings@, i as nat)),
            old(report).tally().plus(places_tally(findings@, findings@.len())).fits(),
            texts(lines@) == texts(old(lines)@) + place_sections(findings@, i as nat),
        decreases findings.len() - i,
    {
        let finding = &findings[i];
        proof {
            lemma_places_tally_grows(findings@, (i + 1) as nat, findings@.len());
        }
        let ghost before = texts(lines@);
        append_lines(lines, report.heading(finding.place, finding.shown.as_str()));
        let (shown, totals) = clean_directory(&finding.attempts);
        append_lines(lines, shown);
        let line = report.place_done(totals);
        append_line(lines, line);
        proof {
            assert(texts(lines@) =~= before + place_section(*finding));
            assert(texts(lines@) =~= texts(old(lines)@) + place_sections(findings@,
                (i + 1) as nat,
            ));
        }
        i = i + 1;
    }
}

/// Writes the part of the report on the scan.
fn write_scan(report: &mut TempReport, lines: &mut Vec<String>, scan: &ScanFinding)
    requires
        old(report).tally().plus(scan.totals@).fits(),
        old(report).last() == 0,
    ensures
        final(report).tally() == old(report).tally().plus(scan.totals@),
        final(report).style() == old(report).style(),
        texts(final(lines)@) == texts(old(lines)@) + scan_section(old(report).style(), *scan),
{
    let ghost style = report.style();
    let ghost start = texts(lines@);
    append_lines(lines, report.scan_heading());
    let ghost headed = texts(lines@);
    let mut i: usize = 0;
    assert(texts(lines@) =~= headed + progress_lines(style, scan.reports@, 0));
    while i < scan.reports.len()
        invariant
            i <= scan.reports.len(),
            report.style() == style,
            style == old(report).style(),
            report.tally() == old(report).tally(),
            report.last() == last_shown(style, scan.reports@, i as nat),
            texts(lines@) == headed + progress_lines(style, scan.reports@, i as nat),
        decreases scan.reports.len() - i,
    {
        let ghost before = texts(lines@);
        match report.progress(scan.reports[i]) {
            Some(line) => {
                append_line(lines, line);
            },
            None => {},
        }
        proof {
            assert(texts(lines@) =~= headed + progress_lines(
                style,
                scan.reports@,
                (i + 1) as nat,
            ));
        }
        i = i + 1;
    }
    let line = report.scan_done(scan.totals);
    append_line(lines, line);
    proof {
        assert(texts(lines@) =~= start + scan_section(style, *scan));
    }
}

/// Writes the whole report in the given style.
fn write_report(
    style: Style,
    include_user: bool,
    system: &Vec<PlaceFinding>,
    scan: &ScanFinding,
    user: &Vec<PlaceFinding>,
) -> (result: (Vec<String>, ScanTotals))
    requires
        clean_up_tally(style, include_user, system@, *scan, user@).fits(),
    ensures
        texts(result.0@) == clean_up_report(style, include_user, system@, *scan, user@),
        result.1@ == clean_up_tally(style, include_user, system@, *scan, user@),
{
    let mut report = TempReport::new(style);
    let mut lines = report.opening();
    write_places(&mut report, &mut lines, system);
    write_scan(&mut report, &mut lines, scan);
    let streaming = match style {
        Style::Streaming => true,
        _ => false,
    };
    if include_user && !streaming {
        write_places(&mut report, &mut lines, user);
    }
    let ghost body = texts(lines@);
    append_lines(&mut lines, report.closing());
    proof {
        assert(texts(lines@) =~= clean_up_report(style, include_user, system@, *scan, user@));
    }
    (lines, report.totals())
}

/// The report of the clean-up as the console shows it, line by line, and the
/// totals: the system's places, the scan of the drive, and the places of the
/// user if they are included.
pub fn clean_temp(
    include_user: bool,
    system: &Vec<PlaceFinding>,
    scan: &ScanFinding,
    user: &Vec<PlaceFinding>,
) -> (result: (Vec<String>, ScanTotals))
    requires
        clean_up_tally(Style::Console, include_user, system@, *scan, user@).fits(),
    ensures
        texts(result.0@) == clean_up_report(Style::Console, include_user, system@, *scan, user@),
        result.1@ == clean_up_tally(Style::Console, include_user, system@, *scan, user@),
{
    write_report(Style::Console, include_user, system, scan, user)
}

/// The report of the clean-up as one text, each line closed by a line feed.
pub fn clean_temp_with_output(
    include_user: bool,
    system: &Vec<PlaceFinding>,
    scan: &ScanFinding,
    user: &Vec<PlaceFinding>,
) -> (output: String)
    requires
        clean_up_tally(Style::Buffered, include_user, system@, *scan, user@).fits(),
    ensures
        output@ == with_line_feeds(
            clean_up_report(Style::Buffered, include_user, system@, *scan, user@),
        ),
{
    let (lines, _) = write_report(Style::Buffered, include_user, system, scan, user);
    let mut output = String::new();
    push_lines(&mut output, &lines);
    assert(output@ =~= with_line_feeds(texts(lines@)));
    output
}

/// The report of the clean-up as the live view receives it, line by line: the
/// system's places and the scan of the drive.
pub fn clean_temp_with_streaming(system: &Vec<PlaceFinding>, scan: &ScanFinding) -> (lines: Vec<
    String,
>)
    requires
        clean_up_tally(Style::Streaming, false, system@, *scan, Seq::empty()).fits(),
    ensures
        texts(lines@) == clean_up_report(Style::Streaming, false, system@, *scan, Seq::empty()),
{
    let user: Vec<PlaceFinding> = Vec::new();
    let (lines, _) = write_report(Style::Streaming, false, system, scan, &user);
    lines
}

} // verus!
