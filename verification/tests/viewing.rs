use lemo::input::Key;
use lemo::live::{
    outcome_of, outcome_of_join, running_footer, summary_line, LiveView, Phase, Step, TaskOutcome,
    POLL_INTERVAL_MS, REDRAW_INTERVAL_MS,
};
use lemo::layout::{lines_in_pane, lines_in_terminal, Area};
use lemo::viewer::{pager_footer, Control, Viewer, Window};
use std::sync::mpsc::channel;

fn lines(n: usize) -> Vec<String> {
    (0..n).map(|i| format!("line {}", i)).collect()
}

#[test]
fn pager_starts_at_the_top() {
    let viewer = Viewer::new();
    assert_eq!(viewer.scroll(), 0);
    assert_eq!(viewer.title(0), " Output (Line 1/0) ");
    assert_eq!(viewer.title(12), " Output (Line 1/12) ");
}

#[test]
fn pager_moves_by_lines_and_pages() {
    let mut viewer = Viewer::new();
    // a terminal of 15 rows shows 10 lines; 25 lines leave offsets 0..=15
    let height = 15;
    let total = 25;
    assert_eq!(viewer.on_key(Key::Down, total, height), Control::Stay);
    assert_eq!(viewer.scroll(), 1);
    viewer.on_key(Key::Char('j'), total, height);
    assert_eq!(viewer.scroll(), 2);
    viewer.on_key(Key::Up, total, height);
    assert_eq!(viewer.scroll(), 1);
    viewer.on_key(Key::Char('k'), total, height);
    assert_eq!(viewer.scroll(), 0);
    viewer.on_key(Key::Up, total, height);
    assert_eq!(viewer.scroll(), 0);
    viewer.on_key(Key::PageDown, total, height);
    assert_eq!(viewer.scroll(), 10);
    assert_eq!(viewer.title(total), " Output (Line 11/25) ");
    viewer.on_key(Key::PageDown, total, height);
    assert_eq!(viewer.scroll(), 15);
    viewer.on_key(Key::Down, total, height);
    assert_eq!(viewer.scroll(), 15);
    viewer.on_key(Key::PageUp, total, height);
    assert_eq!(viewer.scroll(), 5);
    viewer.on_key(Key::PageUp, total, height);
    assert_eq!(viewer.scroll(), 0);
    viewer.on_key(Key::End, total, height);
    assert_eq!(viewer.scroll(), 15);
    viewer.on_key(Key::Home, total, height);
    assert_eq!(viewer.scroll(), 0);
    viewer.on_key(Key::Other, total, height);
    viewer.on_key(Key::Char('x'), total, height);
    assert_eq!(viewer.scroll(), 0);
}

#[test]
fn pager_closes_on_quit_escape_and_enter() {
    let mut viewer = Viewer::new();
    viewer.on_key(Key::End, 100, 20);
    let at = viewer.scroll();
    for key in [Key::Char('q'), Key::Esc, Key::Enter] {
        assert_eq!(viewer.on_key(key, 100, 20), Control::Close);
        assert_eq!(viewer.scroll(), at);
    }
    for key in [Key::Char('Q'), Key::Down, Key::Other, Key::Home] {
        assert_eq!(viewer.on_key(key, 100, 20), Control::Stay);
    }
}

#[test]
fn offset_is_brought_back_after_a_resize() {
    let mut viewer = Viewer::new();
    viewer.on_key(Key::End, 100, 15);
    assert_eq!(viewer.scroll(), 90);
    // the pane grows to 42 rows: 40 lines fit, so the last offset is 60
    assert_eq!(viewer.fit(100, 42), Window { first: 60, count: 40 });
    assert_eq!(viewer.scroll(), 60);
    // a pane too small for any line
    assert_eq!(viewer.fit(100, 2), Window { first: 60, count: 0 });
    assert_eq!(viewer.fit(100, 0), Window { first: 60, count: 0 });
    // fewer lines than fit
    assert_eq!(viewer.fit(7, 42), Window { first: 0, count: 7 });
    assert_eq!(viewer.fit(0, 42), Window { first: 0, count: 0 });
}

#[test]
fn keys_never_leave_the_range() {
    let keys = [
        Key::Down,
        Key::Up,
        Key::PageDown,
        Key::PageUp,
        Key::Home,
        Key::End,
        Key::Char('j'),
        Key::Char('k'),
        Key::Other,
    ];
    for total in [0usize, 1, 5, 6, 7, 30] {
        for height in [0u16, 4, 5, 6, 11, 60] {
            let visible = (height as usize).saturating_sub(5);
            let max = total.saturating_sub(visible);
            let mut viewer = Viewer::new();
            let mut seed = 12345u32;
            for _ in 0..200 {
                seed = seed.wrapping_mul(1103515245).wrapping_add(12345);
                let key = keys[(seed >> 16) as usize % keys.len()];
                viewer.on_key(key, total, height);
                assert!(viewer.scroll() <= max);
            }
        }
    }
}

#[test]
fn page_down_from_beyond_the_end_goes_to_the_end() {
    let mut viewer = Viewer::new();
    viewer.on_key(Key::End, 1000, 10);
    assert_eq!(viewer.scroll(), 995);
    // the list is shorter now
    viewer.on_key(Key::PageDown, 20, 10);
    assert_eq!(viewer.scroll(), 15);
    viewer.on_key(Key::End, 1000, 10);
    viewer.on_key(Key::Down, 20, 10);
    assert_eq!(viewer.scroll(), 995);
    viewer.on_key(Key::PageUp, 20, 10);
    assert_eq!(viewer.scroll(), 990);
}

#[test]
fn lines_fit_inside_the_border() {
    assert_eq!(lines_in_pane(0), 0);
    assert_eq!(lines_in_pane(2), 0);
    assert_eq!(lines_in_pane(3), 1);
    assert_eq!(lines_in_pane(u16::MAX), 65533);
}

fn screen(width: u16, height: u16) -> Area {
    Area { x: 0, y: 0, width, height }
}

#[test]
fn screen_is_split_into_pane_and_footer() {
    let mut viewer = Viewer::new();
    let laid = viewer.fit_to_area(0, screen(80, 24));
    assert_eq!(laid.pane, Area { x: 0, y: 0, width: 80, height: 21 });
    assert_eq!(laid.footer, Area { x: 0, y: 21, width: 80, height: 3 });
    let laid = viewer.fit_to_area(0, Area { x: 2, y: 5, width: 10, height: 10 });
    assert_eq!(laid.pane, Area { x: 2, y: 5, width: 10, height: 7 });
    assert_eq!(laid.footer, Area { x: 2, y: 12, width: 10, height: 3 });
    let view = LiveView::new("T", 0);
    let laid = view.window_in_area(screen(120, 50));
    assert_eq!(laid.pane, Area { x: 0, y: 0, width: 120, height: 47 });
    assert_eq!(laid.footer, Area { x: 0, y: 47, width: 120, height: 3 });
    assert_eq!(lines_in_terminal(24), 19);
    assert_eq!(lines_in_terminal(5), 0);
    assert_eq!(lines_in_terminal(0), 0);
}

#[test]
fn window_is_fitted_to_the_pane_of_a_terminal() {
    // 24 rows: three for the footer, 21 for the pane, 19 inside its border
    let mut viewer = Viewer::new();
    let laid = viewer.fit_to_area(100, screen(80, 24));
    assert_eq!(laid.window, Window { first: 0, count: 19 });
    assert_eq!(laid.pane.height, 21);
    assert_eq!(laid.footer.height, 3);
    viewer.on_key(Key::End, 100, 24);
    assert_eq!(viewer.scroll(), 81);
    assert_eq!(viewer.fit_to_area(100, screen(80, 24)).window, Window { first: 81, count: 19 });
    assert_eq!(viewer.fit_to_area(100, screen(80, 40)).window, Window { first: 65, count: 35 });
    assert_eq!(viewer.fit_to_area(100, screen(10, 5)).window, Window { first: 65, count: 0 });
    assert_eq!(viewer.fit_to_area(3, screen(80, 24)).window, Window { first: 0, count: 3 });
}

#[test]
fn footers_are_fixed() {
    assert_eq!(
        pager_footer(),
        "↑/↓: Scroll | PgUp/PgDn: Fast scroll | Home/End: First/Last | Q/Esc/Enter: Return"
    );
    assert_eq!(running_footer(), "⏳ Operation in progress, please wait...");
}

#[test]
fn live_view_opens_with_two_lines() {
    let view = LiveView::new("Clean Temp Files", 0);
    assert_eq!(view.phase(), Phase::Running);
    assert_eq!(view.lines(), &vec!["⏳ Clean Temp Files - Starting...".to_string(), String::new()]);
    assert_eq!(LiveView::title("Clean Temp Files", "1.5"), " Clean Temp Files - Running... [1.5s] ");
}

#[test]
fn lines_are_kept_in_the_order_emitted() {
    let emitted = lines(57);
    for chunk in [1usize, 2, 7, 57, 100] {
        let mut view = LiveView::new("T", 0);
        let mut now = 0;
        for batch in emitted.chunks(chunk) {
            now += POLL_INTERVAL_MS;
            view.poll(batch.to_vec(), false, now);
        }
        assert_eq!(view.poll(Vec::new(), true, now + POLL_INTERVAL_MS), Step::Finalize);
        assert_eq!(view.phase(), Phase::Finalizing);
        view.finish(Vec::new(), &TaskOutcome::Success, "2.85");
        assert_eq!(view.phase(), Phase::Done);
        let all = view.into_lines();
        assert_eq!(all.len(), 57 + 4);
        assert_eq!(all[0], "⏳ T - Starting...");
        assert_eq!(all[1], "");
        assert_eq!(&all[2..59], &emitted[..]);
        assert_eq!(all[59], "");
        assert_eq!(all[60], "✅ Operation completed in 2.85s");
    }
}

#[test]
fn lines_emitted_at_the_very_end_are_not_lost() {
    let mut view = LiveView::new("T", 0);
    view.poll(vec!["one".to_string()], false, 50);
    assert_eq!(view.poll(vec!["two".to_string()], true, 100), Step::Finalize);
    view.finish(vec!["three".to_string(), "four".to_string()], &TaskOutcome::Success, "0.10");
    assert_eq!(
        view.into_lines(),
        vec!["⏳ T - Starting...", "", "one", "two", "three", "four", "", "✅ Operation completed in 0.10s"]
    );
}

#[test]
fn a_reported_failure_is_shown_word_for_word() {
    let outcome = outcome_of(Err("X missing".to_string()));
    assert!(matches!(&outcome, TaskOutcome::Failure(m) if m == "X missing"));
    let mut view = LiveView::new("Fix Icon Cache", 0);
    view.poll(vec!["working".to_string()], false, 50);
    view.poll(Vec::new(), true, 100);
    view.finish(Vec::new(), &outcome, "0.10");
    let all = view.into_lines();
    assert_eq!(all, vec!["⏳ Fix Icon Cache - Starting...", "", "working", "", "❌ Error: X missing"]);
    assert!(all.iter().any(|l| l.contains("X missing")));
}

#[test]
fn a_crash_is_told_apart_from_a_failure() {
    assert!(matches!(outcome_of_join(None), TaskOutcome::Crashed));
    assert!(matches!(outcome_of_join(Some(Ok(()))), TaskOutcome::Success));
    assert!(matches!(outcome_of_join(Some(Err("e".to_string()))), TaskOutcome::Failure(m) if m == "e"));
    assert!(matches!(outcome_of(Ok(())), TaskOutcome::Success));
    assert_eq!(summary_line(&TaskOutcome::Crashed, "9.99"), "❌ Thread execution failed");
    assert_eq!(summary_line(&TaskOutcome::Success, "9.99"), "✅ Operation completed in 9.99s");
    assert_eq!(summary_line(&TaskOutcome::Failure("no".to_string()), "9.99"), "❌ Error: no");
    let mut view = LiveView::new("T", 0);
    view.poll(Vec::new(), true, 10);
    view.finish(Vec::new(), &TaskOutcome::Crashed, "0.01");
    assert_eq!(view.into_lines().last().unwrap(), "❌ Thread execution failed");
}

#[test]
fn a_burst_of_lines_costs_one_redraw() {
    let mut view = LiveView::new("T", 0);
    view.drawn(0);
    let mut redraws = 0;
    // a thousand lines arrive within ten milliseconds; polls are 50 ms apart
    let mut now = 40;
    let burst: Vec<String> = (0..1000).map(|i| format!("m{}", i)).collect();
    for drained in [Vec::new(), burst, Vec::new()] {
        if view.poll(drained, false, now) == Step::Redraw {
            redraws += 1;
            view.drawn(now);
        }
        now += POLL_INTERVAL_MS;
    }
    assert!(redraws <= 2);
    assert_eq!(redraws, 1);
    assert_eq!(view.lines().len(), 1002);
}

#[test]
fn idle_redraws_keep_their_distance() {
    let mut view = LiveView::new("T", 1000);
    assert_eq!(view.poll(Vec::new(), false, 1000), Step::Wait);
    assert_eq!(view.poll(Vec::new(), false, 1050), Step::Wait);
    assert_eq!(view.poll(Vec::new(), false, 1099), Step::Wait);
    assert_eq!(view.poll(Vec::new(), false, 1000 + REDRAW_INTERVAL_MS), Step::Redraw);
    view.drawn(1100);
    assert_eq!(view.poll(Vec::new(), false, 1150), Step::Wait);
    assert_eq!(view.poll(vec!["x".to_string()], false, 1151), Step::Redraw);
    view.drawn(1151);
    assert_eq!(view.poll(Vec::new(), false, 1250), Step::Wait);
    assert_eq!(view.poll(Vec::new(), false, 1251), Step::Redraw);
    // a clock that went backwards asks for nothing
    assert_eq!(view.poll(Vec::new(), false, 3), Step::Wait);
    let mut draws = 0;
    let mut view = LiveView::new("T", 0);
    for tick in 1..=100u64 {
        if view.poll(Vec::new(), false, tick * POLL_INTERVAL_MS) == Step::Redraw {
            draws += 1;
            view.drawn(tick * POLL_INTERVAL_MS);
        }
    }
    assert_eq!(draws, 50);
}

#[test]
fn the_running_view_shows_the_newest_lines() {
    let mut view = LiveView::new("T", 0);
    assert_eq!(view.window(12), Window { first: 0, count: 2 });
    view.poll(lines(28), false, 10);
    assert_eq!(view.window(12), Window { first: 20, count: 10 });
    assert_eq!(view.window(2), Window { first: 30, count: 0 });
    assert_eq!(view.window(200), Window { first: 0, count: 30 });
    assert_eq!(view.window_in_area(screen(80, 24)).window, Window { first: 11, count: 19 });
    assert_eq!(view.window_in_area(screen(80, 3)).window, Window { first: 30, count: 0 });
}

#[test]
fn lines_come_out_of_the_channel_in_the_order_sent() {
    let (tx, rx) = channel::<String>();
    let mut view = LiveView::new("T", 0);
    assert_eq!(view.poll_channel(&rx, false, 10), Step::Wait);
    for i in 0..300 {
        tx.send(format!("a{}", i)).unwrap();
    }
    assert_eq!(view.poll_channel(&rx, false, 20), Step::Redraw);
    view.drawn(20);
    assert_eq!(view.lines().len(), 302);
    assert_eq!(view.poll_channel(&rx, false, 60), Step::Wait);
    tx.send("late".to_string()).unwrap();
    assert_eq!(view.poll_channel(&rx, true, 70), Step::Finalize);
    tx.send("last".to_string()).unwrap();
    drop(tx);
    view.finish_channel(&rx, &TaskOutcome::Failure("X missing".to_string()), "0.07");
    let all = view.into_lines();
    assert_eq!(all.len(), 2 + 300 + 2 + 2);
    for i in 0..300 {
        assert_eq!(all[2 + i], format!("a{}", i));
    }
    assert_eq!(&all[302..], &["late", "last", "", "❌ Error: X missing"]);
}

#[test]
fn a_closed_channel_is_drained_to_the_end() {
    let (tx, rx) = channel::<String>();
    tx.send("one".to_string()).unwrap();
    tx.send("two".to_string()).unwrap();
    drop(tx);
    let mut view = LiveView::new("T", 0);
    assert_eq!(view.poll_channel(&rx, false, 1), Step::Redraw);
    assert_eq!(view.lines()[2..], ["one", "two"]);
    assert_eq!(view.poll_channel(&rx, false, 2), Step::Wait);
    assert_eq!(view.lines().len(), 4);
}

#[test]
fn every_screen_can_be_laid_out() {
    let mut viewer = Viewer::new();
    let view = LiveView::new("T", 0);
    for (x, y) in [(0u16, 0u16), (7, 9), (u16::MAX, u16::MAX), (0, u16::MAX), (u16::MAX, 0)] {
        for (width, height) in
            [(0u16, 0u16), (0, 1), (1, 0), (1, 1), (80, 2), (80, 3), (80, 4), (u16::MAX, u16::MAX)]
        {
            let area = Area { x, y, width, height };
            let laid = viewer.fit_to_area(10, area);
            let spanned = width.min(u16::MAX - x);
            assert_eq!((laid.pane.x, laid.pane.width), (x, spanned));
            assert_eq!((laid.footer.x, laid.footer.width), (x, spanned));
            assert!(laid.window.first + laid.window.count <= 10);
            assert!(laid.pane.height as u32 + laid.footer.height as u32 <= height as u32);
            assert_eq!(laid.window.count, lines_in_pane(laid.pane.height).min(10 - laid.window.first));
            let laid = view.window_in_area(area);
            assert_eq!((laid.pane.x, laid.pane.width), (x, spanned));
            assert_eq!((laid.footer.x, laid.footer.width), (x, spanned));
            assert_eq!(laid.window.first + laid.window.count, 2);
        }
    }
}

#[test]
fn pane_and_footer_span_the_columns_of_the_screen() {
    let mut viewer = Viewer::new();
    let mut seed = 99u32;
    for _ in 0..400 {
        let mut next = || {
            seed = seed.wrapping_mul(1103515245).wrapping_add(12345);
            (seed >> 8) as u16
        };
        let area = Area { x: next(), y: next(), width: next(), height: next() };
        let laid = viewer.fit_to_area(5, area);
        let spanned = area.width.min(u16::MAX - area.x);
        assert_eq!((laid.pane.x, laid.pane.width), (area.x, spanned), "{:?}", area);
        assert_eq!((laid.footer.x, laid.footer.width), (area.x, spanned), "{:?}", area);
    }
}
