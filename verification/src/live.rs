//! The live view of a running task: lines that the task emits are taken in as
//! they come, in order, the screen is redrawn at a bounded rate, and once the
//! task has ended its outcome is added and the lines are handed to the pager.

use std::sync::mpsc::Receiver;
use vstd::prelude::*;
use vstd::string::StringExecFns;
use crate::text::{append_lines, texts};
use crate::layout::{lines_in_pane, minus_or_zero, pane_and_footer, spans_columns, Area,
    BORDER_ROWS};
use crate::viewer::{max_scroll, window_at, Screen, Window};

verus! {

/// The least time between two redraws that no new line has asked for, in milliseconds.
pub const REDRAW_INTERVAL_MS: u64 = 100;

/// The time to sleep between two polls, in milliseconds.
pub const POLL_INTERVAL_MS: u64 = 50;

/// How a task ended.
#[derive(Clone, Debug)]
pub enum TaskOutcome {
    /// The operation returned normally.
    Success,
    /// The operation gave up and said why.
    Failure(String),
    /// The operation did not return: its thread of execution broke off.
    Crashed,
}

/// Where the live view is in its life.
#[derive(Clone, Copy, Debug, PartialEq, Eq, Structural)]
pub enum Phase {
    /// The task runs; lines come in.
    Running,
    /// The task has ended; its last lines and its outcome are still to be added.
    Finalizing,
    /// All lines are in; the pager shows them.
    Done,
}

/// What to do after a poll.
#[derive(Clone, Copy, Debug, PartialEq, Eq, Structural)]
pub enum Step {
    /// Redraw the screen, say so with `drawn`, then sleep until the next poll.
    Redraw,
    /// Sleep until the next poll.
    Wait,
    /// The task has ended: take its last lines and its outcome, and call `finish`.
    Finalize,
}

/// The first line of every live view.
pub open spec fn opening_line(title: Seq<char>) -> Seq<char> {
    "⏳ "@ + title + " - Starting..."@
}

/// The lines that a live view starts with.
pub open spec fn opening_lines(title: Seq<char>) -> Seq<Seq<char>> {
    seq![opening_line(title), Seq::empty()]
}

/// The outcome as the contracts see it.
pub enum Ending {
    Success,
    Failure(Seq<char>),
    Crashed,
}

impl View for TaskOutcome {
    type V = Ending;

    open spec fn view(&self) -> Ending {
        match self {
            TaskOutcome::Success => Ending::Success,
            TaskOutcome::Failure(message) => Ending::Failure(message@),
            TaskOutcome::Crashed => Ending::Crashed,
        }
    }
}

/// The line that tells how the task ended. `elapsed` is the time it took, in
/// seconds, as text.
pub open spec fn outcome_line(ending: Ending, elapsed: Seq<char>) -> Seq<char> {
    match ending {
        Ending::Success => "✅ Operation completed in "@ + elapsed + "s"@,
        Ending::Failure(message) => "❌ Error: "@ + message,
        Ending::Crashed => "❌ Thread execution failed"@,
    }
}

/// The lines that close a live view: an empty one, and the outcome.
pub open spec fn closing_lines(ending: Ending, elapsed: Seq<char>) -> Seq<Seq<char>> {
    seq![Seq::empty(), outcome_line(ending, elapsed)]
}

/// The title of the pane while the task runs.
pub open spec fn running_title(title: Seq<char>, elapsed: Seq<char>) -> Seq<char> {
    " "@ + title + " - Running... ["@ + elapsed + "s] "@
}

/// The live view as the contracts see it.
pub struct LiveModel {
    /// The lines taken in so far.
    pub lines: Seq<Seq<char>>,
    pub phase: Phase,
    /// When the screen was last drawn, in milliseconds.
    pub last_draw: nat,
}

impl LiveModel {
    /// A live view that starts at `now`.
    pub open spec fn opened(title: Seq<char>, now: nat) -> LiveModel {
        LiveModel { lines: opening_lines(title), phase: Phase::Running, last_draw: now }
    }

    /// What a poll at `now` leads to, when `drained` were waiting and the
    /// task has or has not ended. Once the task has ended nothing is redrawn:
    /// the view is finalized. Else the screen is redrawn if a line came in or
    /// the last redraw is `REDRAW_INTERVAL_MS` or more ago.
    pub open spec fn step(self, drained: Seq<Seq<char>>, finished: bool, now: nat) -> Step {
        if finished {
            Step::Finalize
        } else if drained.len() > 0 || now - self.last_draw >= REDRAW_INTERVAL_MS {
            Step::Redraw
        } else {
            Step::Wait
        }
    }

    /// The view after a poll: the lines that were waiting are added at the end.
    pub open spec fn polled(self, drained: Seq<Seq<char>>, finished: bool) -> LiveModel {
        LiveModel {
            lines: self.lines + drained,
            phase: if finished {
                Phase::Finalizing
            } else {
                Phase::Running
            },
            ..self
        }
    }

    /// The view after a redraw at `now`.
    pub open spec fn drawn(self, now: nat) -> LiveModel {
        LiveModel { last_draw: now, ..self }
    }

    /// The view after the task's last lines and its outcome have been added.
    pub open spec fn finished(self, rest: Seq<Seq<char>>, ending: Ending, elapsed: Seq<char>) -> LiveModel {
        LiveModel {
            lines: self.lines + rest + closing_lines(ending, elapsed),
            phase: Phase::Done,
            ..self
        }
    }
}

/// The receiving end of std's channel.
#[verifier::external_type_specification]
#[verifier::external_body]
#[verifier::reject_recursive_types(T)]
pub struct ExReceiver<T>(std::sync::mpsc::Receiver<T>);

/// Takes one line out of the channel if one waits there, with std's
/// `Receiver::try_recv`; `None` where none waits or the sender is gone.
/// Nothing is claimed of the line.
#[verifier::external_body]
fn next_waiting(channel: &Receiver<String>) -> (line: Option<String>) {
    channel.try_recv().ok()
}

/// Takes all lines that wait in the channel, in the order in which they come
/// out of it, without blocking.
fn drain(channel: &Receiver<String>) -> (waiting: Vec<String>) {
    let mut waiting: Vec<String> = Vec::new();
    let mut more = true;
    while more && waiting.len() < usize::MAX
        decreases usize::MAX - waiting.len() + if more { 1nat } else { 0nat },
    {
        match next_waiting(channel) {
            Some(line) => {
                waiting.push(line);
            },
            None => {
                more = false;
            },
        }
    }
    waiting
}

/// The live view of one task.
pub struct LiveView {
    lines: Vec<String>,
    phase: Phase,
    last_draw: u64,
}

impl View for LiveView {
    type V = LiveModel;

    closed spec fn view(&self) -> LiveModel {
        LiveModel { lines: texts(self.lines@), phase: self.phase, last_draw: self.last_draw as nat }
    }
}

impl LiveView {
    /// Opens the live view of the task called `title`, at `now_ms`.
    pub fn new(title: &str, now_ms: u64) -> (view: LiveView)
        ensures
            view@ == LiveModel::opened(title@, now_ms as nat),
    {
        let mut first = String::from_str("⏳ ");
        first.append(title);
        first.append(" - Starting...");
        let mut lines: Vec<String> = Vec::new();
        lines.push(first);
        lines.push(String::new());
        assert(texts(lines@) =~= opening_lines(title@));
        LiveView { lines, phase: Phase::Running, last_draw: now_ms }
    }

    /// Where the view is in its life.
    pub fn phase(&self) -> (phase: Phase)
        ensures
            phase == self@.phase,
    {
        self.phase
    }

    /// The lines taken in so far.
    pub fn lines(&self) -> (lines: &Vec<String>)
        ensures
            texts(lines@) == self@.lines,
    {
        &self.lines
    }

    /// One poll while the task runs: takes in the lines that were waiting, in
    /// their order, and says what to do next.
    pub fn poll(&mut self, drained: Vec<String>, finished: bool, now_ms: u64) -> (step: Step)
        requires
            old(self)@.phase == Phase::Running,
        ensures
            final(self)@ == old(self)@.polled(texts(drained@), finished),
            step == old(self)@.step(texts(drained@), finished, now_ms as nat),
    {
        let new_lines = drained.len() > 0;
        append_lines(&mut self.lines, drained);
        if finished {
            self.phase = Phase::Finalizing;
            Step::Finalize
        } else if new_lines || (now_ms >= self.last_draw && now_ms - self.last_draw
            >= REDRAW_INTERVAL_MS) {
            Step::Redraw
        } else {
            Step::Wait
        }
    }

    /// One poll while the task runs, on the channel itself: takes in all
    /// lines that wait there and says what to do next. Whatever lines the
    /// channel gave, they come after the lines held before, which stay as they are.
    pub fn poll_channel(&mut self, channel: &Receiver<String>, finished: bool, now_ms: u64) -> (step:
        Step)
        requires
            old(self)@.phase == Phase::Running,
        ensures
            old(self)@.lines.len() <= final(self)@.lines.len(),
            final(self)@ == old(self)@.polled(
                final(self)@.lines.skip(old(self)@.lines.len() as int),
                finished,
            ),
            step == old(self)@.step(
                final(self)@.lines.skip(old(self)@.lines.len() as int),
                finished,
                now_ms as nat,
            ),
    {
        let waiting = drain(channel);
        let ghost taken = texts(waiting@);
        let step = self.poll(waiting, finished, now_ms);
        assert((old(self)@.lines + taken).skip(old(self)@.lines.len() as int) =~= taken);
        step
    }

    /// Takes in that the screen was drawn at `now_ms`.
    pub fn drawn(&mut self, now_ms: u64)
        ensures
            final(self)@ == old(self)@.drawn(now_ms as nat),
    {
        self.last_draw = now_ms;
    }

    /// The window to draw while the task runs, for a pane of the given
    /// height: always the last lines that fit.
    pub fn window(&self, pane_height: u16) -> (window: Window)
        ensures
            (window.first as nat, window.count as nat) == window_at(
                max_scroll(
                    self@.lines.len(),
                    minus_or_zero(pane_height as nat, BORDER_ROWS as nat),
                ),
                self@.lines.len(),
                minus_or_zero(pane_height as nat, BORDER_ROWS as nat),
            ),
            window.first + window.count == self@.lines.len(),
    {
        let visible = lines_in_pane(pane_height);
        let total = self.lines.len();
        if total > visible {
            Window { first: total - visible, count: visible }
        } else {
            Window { first: 0, count: total }
        }
    }

    /// Lays the live view out on the screen: the screen is split into pane
    /// and footer, which both span its columns, and the last lines that fit
    /// into the pane that comes out of it are shown.
    pub fn window_in_area(&self, screen: Area) -> (laid: Screen)
        ensures
            (laid.window.first as nat, laid.window.count as nat) == window_at(
                max_scroll(
                    self@.lines.len(),
                    minus_or_zero(laid.pane.height as nat, BORDER_ROWS as nat),
                ),
                self@.lines.len(),
                minus_or_zero(laid.pane.height as nat, BORDER_ROWS as nat),
            ),
            laid.window.first + laid.window.count == self@.lines.len(),
            spans_columns(laid.pane, screen),
            spans_columns(laid.footer, screen),
    {
        let (pane, footer) = pane_and_footer(screen);
        let window = self.window(pane.height);
        Screen { pane, footer, window }
    }

    /// The title of the pane while the task runs. `elapsed` is the time since
    /// the start, in seconds, as text.
    pub fn title(title: &str, elapsed: &str) -> (text: String)
        ensures
            text@ == running_title(title@, elapsed@),
    {
        let mut text = String::from_str(" ");
        text.append(title);
        text.append(" - Running... [");
        text.append(elapsed);
        text.append("s] ");
        text
    }

    /// Ends the view: takes in the lines that the task emitted after the last
    /// poll, then an empty line and the line that tells the outcome. `elapsed`
    /// is the time that the task took, in seconds, as text.
    pub fn finish(&mut self, rest: Vec<String>, outcome: &TaskOutcome, elapsed: &str)
        requires
            old(self)@.phase == Phase::Finalizing,
        ensures
            final(self)@ == old(self)@.finished(texts(rest@), outcome@, elapsed@),
    {
        append_lines(&mut self.lines, rest);
        let mut closing: Vec<String> = Vec::new();
        closing.push(String::new());
        closing.push(summary_line(outcome, elapsed));
        assert(texts(closing@) =~= closing_lines(outcome@, elapsed@));
        append_lines(&mut self.lines, closing);
        self.phase = Phase::Done;
    }

    /// Ends the view on the channel itself: takes in the lines that still
    /// wait there, then an empty line and the line that tells the outcome.
    /// Whatever lines the channel gave, they stand between the lines held
    /// before and the two closing lines.
    pub fn finish_channel(&mut self, channel: &Receiver<String>, outcome: &TaskOutcome, elapsed: &str)
        requires
            old(self)@.phase == Phase::Finalizing,
        ensures
            old(self)@.lines.len() + 2 <= final(self)@.lines.len(),
            final(self)@ == old(self)@.finished(
                final(self)@.lines.subrange(
                    old(self)@.lines.len() as int,
                    final(self)@.lines.len() - 2,
                ),
                outcome@,
                elapsed@,
            ),
    {
        let rest = drain(channel);
        let ghost taken = texts(rest@);
        self.finish(rest, outcome, elapsed);
        assert((old(self)@.lines + taken + closing_lines(outcome@, elapsed@)).subrange(
            old(self)@.lines.len() as int,
            (old(self)@.lines + taken + closing_lines(outcome@, elapsed@)).len() - 2,
        ) =~= taken);
    }

    /// Hands the lines over, for the pager to show.
    pub fn into_lines(self) -> (lines: Vec<String>)
        ensures
            texts(lines@) == self@.lines,
    {
        self.lines
    }
}

/// The line that tells how the task ended.
pub fn summary_line(outcome: &TaskOutcome, elapsed: &str) -> (line: String)
    ensures
        line@ == outcome_line(outcome@, elapsed@),
{
    match outcome {
        TaskOutcome::Success => {
            let mut line = String::from_str("✅ Operation completed in ");
            line.append(elapsed);
            line.append("s");
            line
        },
        TaskOutcome::Failure(message) => {
            let mut line = String::from_str("❌ Error: ");
            line.append(message.as_str());
            line
        },
        TaskOutcome::Crashed => String::from_str("❌ Thread execution failed"),
    }
}

/// The text of the footer while the task runs.
pub fn running_footer() -> (text: &'static str)
    ensures
        text@ == "⏳ Operation in progress, please wait..."@,
{
    "⏳ Operation in progress, please wait..."
}

/// What an operation reports: success, or the reason why it gave up.
pub fn outcome_of(result: Result<(), String>) -> (outcome: TaskOutcome)
    ensures
        outcome@ == match result {
            Ok(_) => Ending::Success,
            Err(message) => Ending::Failure(message@),
        },
{
    match result {
        Ok(_) => TaskOutcome::Success,
        Err(message) => TaskOutcome::Failure(message),
    }
}

/// How a background task ended, from what joining it gave: `None` where the
/// task broke off without returning.
pub fn outcome_of_join(joined: Option<Result<(), String>>) -> (outcome: TaskOutcome)
    ensures
        outcome@ == match joined {
            Some(Ok(_)) => Ending::Success,
            Some(Err(message)) => Ending::Failure(message@),
            None => Ending::Crashed,
        },
{
    match joined {
        Some(result) => outcome_of(result),
        None => TaskOutcome::Crashed,
    }
}

/// All the lines of a list of batches, in order.
pub open spec fn all_lines(batches: Seq<Seq<Seq<char>>>) -> Seq<Seq<char>>
    decreases batches.len(),
{
    if batches.len() == 0 {
        Seq::empty()
    } else {
        all_lines(batches.drop_last()) + batches.last()
    }
}

/// The view after one poll for each of the batches, the task still running.
pub open spec fn after_polls(view: LiveModel, batches: Seq<Seq<Seq<char>>>) -> LiveModel
    decreases batches.len(),
{
    if batches.len() == 0 {
        view
    } else {
        after_polls(view, batches.drop_last()).polled(batches.last(), false)
    }
}

/// However the lines that a task emits are spread over the polls, the view
/// holds them all, once each, in the order in which they were emitted, after
/// the lines it held before.
pub proof fn lemma_polls_keep_order(view: LiveModel, batches: Seq<Seq<Seq<char>>>)
    ensures
        after_polls(view, batches).lines == view.lines + all_lines(batches),
        after_polls(view, batches).lines.len() == view.lines.len() + all_lines(batches).len(),
    decreases batches.len(),
{
    if batches.len() > 0 {
        lemma_polls_keep_order(view, batches.drop_last());
        assert(after_polls(view, batches).lines =~= view.lines + all_lines(batches));
    } else {
        assert(after_polls(view, batches).lines =~= view.lines + all_lines(batches));
    }
}

/// From opening to end, the view holds its two opening lines, then every line
/// that the task emitted, once and in order, then the two closing lines: no
/// line is lost, doubled or moved, however the lines were spread over the
/// polls and the last drain.
pub proof fn lemma_stream_is_kept_whole(
    title: Seq<char>,
    now: nat,
    batches: Seq<Seq<Seq<char>>>,
    last: Seq<Seq<char>>,
    rest: Seq<Seq<char>>,
    ending: Ending,
    elapsed: Seq<char>,
)
    ensures
        after_polls(LiveModel::opened(title, now), batches).polled(last, true).finished(
            rest,
            ending,
            elapsed,
        ).lines == opening_lines(title) + (all_lines(batches) + last + rest) + closing_lines(
            ending,
            elapsed,
        ),
        after_polls(LiveModel::opened(title, now), batches).polled(last, true).finished(
            rest,
            ending,
            elapsed,
        ).lines.len() == (all_lines(batches) + last + rest).len() + 4,
{
    let opened = LiveModel::opened(title, now);
    lemma_polls_keep_order(opened, batches);
    let end = after_polls(opened, batches).polled(last, true).finished(rest, ending, elapsed);
    assert(end.lines =~= opening_lines(title) + (all_lines(batches) + last + rest) + closing_lines(
        ending,
        elapsed,
    ));
}

/// The number of redraws that a run of polls asks for, when each redraw is
/// made at the time of its poll. `times` holds the time of each poll.
pub open spec fn redraws(view: LiveModel, batches: Seq<Seq<Seq<char>>>, times: Seq<nat>) -> nat
    decreases batches.len(),
{
    if batches.len() == 0 || times.len() != batches.len() {
        0
    } else {
        redraws(view, batches.drop_last(), times.drop_last()) + if paced(
            view,
            batches.drop_last(),
            times.drop_last(),
        ).step(batches.last(), false, times.last()) == Step::Redraw {
            1nat
        } else {
            0nat
        }
    }
}

/// The view after a run of polls, when each redraw is made at the time of its poll.
pub open spec fn paced(view: LiveModel, batches: Seq<Seq<Seq<char>>>, times: Seq<nat>) -> LiveModel
    decreases batches.len(),
{
    if batches.len() == 0 || times.len() != batches.len() {
        view
    } else {
        let before = paced(view, batches.drop_last(), times.drop_last());
        let after = before.polled(batches.last(), false);
        if before.step(batches.last(), false, times.last()) == Step::Redraw {
            after.drawn(times.last())
        } else {
            after
        }
    }
}

/// A poll asks for one redraw at most, however many lines it took in: the
/// screen is never redrawn more often than it is polled.
pub proof fn lemma_redraws_bounded_by_polls(
    view: LiveModel,
    batches: Seq<Seq<Seq<char>>>,
    times: Seq<nat>,
)
    ensures
        redraws(view, batches, times) <= batches.len(),
    decreases batches.len(),
{
    if batches.len() > 0 && times.len() == batches.len() {
        lemma_redraws_bounded_by_polls(view, batches.drop_last(), times.drop_last());
    }
}

/// A poll that finds no new line asks for a redraw only when the last one is
/// at least `REDRAW_INTERVAL_MS` ago.
pub proof fn lemma_idle_redraws_are_spaced(view: LiveModel, now: nat)
    ensures
        view.step(Seq::empty(), false, now) == Step::Redraw <==> now - view.last_draw
            >= REDRAW_INTERVAL_MS,
{
}

/// The lines of the view are only ever added to: after a poll, and after the
/// end, the lines held before stand unchanged at the front.
pub proof fn lemma_lines_are_only_added(
    view: LiveModel,
    drained: Seq<Seq<char>>,
    finished: bool,
    rest: Seq<Seq<char>>,
    ending: Ending,
    elapsed: Seq<char>,
)
    ensures
        view.polled(drained, finished).lines.take(view.lines.len() as int) == view.lines,
        view.finished(rest, ending, elapsed).lines.take(view.lines.len() as int) == view.lines,
        view.drawn(0).lines == view.lines,
{
    assert(view.polled(drained, finished).lines.take(view.lines.len() as int) =~= view.lines);
    assert(view.finished(rest, ending, elapsed).lines.take(view.lines.len() as int)
        =~= view.lines);
}

/// Whether each of the times is at least `POLL_INTERVAL_MS` after the one before.
pub open spec fn spaced_polls(times: Seq<nat>) -> bool {
    forall|i: int| 0 < i < times.len() ==> times[i - 1] + POLL_INTERVAL_MS <= #[trigger] times[i]
}

/// Polls that keep their distance are no more than fit into the time they span.
pub proof fn lemma_polls_fit_their_span(times: Seq<nat>)
    requires
        spaced_polls(times),
        times.len() > 0,
    ensures
        times[0] + (times.len() - 1) * POLL_INTERVAL_MS <= times.last(),
    decreases times.len(),
{
    if times.len() > 1 {
        let earlier = times.drop_last();
        assert forall|i: int| 0 < i < earlier.len() implies earlier[i - 1] + POLL_INTERVAL_MS
            <= #[trigger] earlier[i] by {
            assert(times[i - 1] + POLL_INTERVAL_MS <= times[i]);
        }
        lemma_polls_fit_their_span(earlier);
        assert(times[times.len() - 2] + POLL_INTERVAL_MS <= times[times.len() - 1]);
        assert(earlier.last() == times[times.len() - 2]);
        assert((times.len() - 1) * POLL_INTERVAL_MS == (times.len() - 2) * POLL_INTERVAL_MS
            + POLL_INTERVAL_MS) by (nonlinear_arith);
    }
}

/// Under any flood of lines, polls that sleep `POLL_INTERVAL_MS` between them
/// redraw the screen at most once for each `POLL_INTERVAL_MS` of the time
/// they span, and once more.
pub proof fn lemma_redraws_bounded_by_time(
    view: LiveModel,
    batches: Seq<Seq<Seq<char>>>,
    times: Seq<nat>,
)
    requires
        spaced_polls(times),
        times.len() == batches.len(),
        times.len() > 0,
    ensures
        redraws(view, batches, times) <= (times.last() - times[0]) / (POLL_INTERVAL_MS as int) + 1,
{
    lemma_redraws_bounded_by_polls(view, batches, times);
    lemma_polls_fit_their_span(times);
    let n = times.len() as int;
    let span = times.last() - times[0];
    assert(n - 1 <= span / (POLL_INTERVAL_MS as int)) by (nonlinear_arith)
        requires
            (n - 1) * POLL_INTERVAL_MS <= span,
            POLL_INTERVAL_MS == 50,
    ;
}

} // verus!
