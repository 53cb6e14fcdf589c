//! The pager: a window that moves over a list of lines. Its offset is kept in
//! range whenever the window is laid out anew, so a resized terminal never
//! leaves it past the end.

use vstd::prelude::*;
use vstd::string::StringExecFns;
use crate::input::Key;
use crate::layout::{lines_in_pane, lines_in_terminal, minus_or_zero, pane_and_footer,
    spans_columns, Area, BORDER_ROWS, CHROME_ROWS};
use crate::text::{decimal, push_decimal};

verus! {

/// The largest offset at which a window of `visible` lines still ends within
/// `total` lines.
pub open spec fn max_scroll(total: nat, visible: nat) -> nat {
    if total > visible {
        (total - visible) as nat
    } else {
        0
    }
}

/// The smaller of two numbers.
pub open spec fn smaller(a: nat, b: nat) -> nat {
    if a <= b {
        a
    } else {
        b
    }
}

/// The offset after a key press, for a window of `visible` out of `total` lines.
pub open spec fn scrolled(scroll: nat, key: Key, total: nat, visible: nat) -> nat {
    let max = max_scroll(total, visible);
    if key.closes() {
        scroll
    } else if key.steps_down() {
        if scroll < max {
            scroll + 1
        } else {
            scroll
        }
    } else if key.steps_up() {
        minus_or_zero(scroll, 1)
    } else if key == Key::PageDown {
        smaller(scroll + visible, max)
    } else if key == Key::PageUp {
        minus_or_zero(scroll, visible)
    } else if key == Key::Home {
        0
    } else if key == Key::End {
        max
    } else {
        scroll
    }
}

/// The title of the pager's pane: the first line shown, counted from one, and
/// the number of lines.
pub open spec fn pager_title(scroll: nat, total: nat) -> Seq<char> {
    " Output (Line "@ + decimal(if total == 0 {
        1
    } else {
        scroll + 1
    }) + "/"@ + decimal(total) + ") "@
}

/// The part of a list of lines that is on screen.
#[derive(Clone, Copy, Debug, PartialEq, Eq, Structural)]
pub struct Window {
    /// The first line shown.
    pub first: usize,
    /// How many lines are shown.
    pub count: usize,
}

/// The window at offset `first` over `total` lines, `visible` lines high.
pub open spec fn window_at(first: nat, total: nat, visible: nat) -> (nat, nat) {
    (first, smaller(visible, minus_or_zero(total, first)))
}

/// Whether the pager stays open.
#[derive(Clone, Copy, Debug, PartialEq, Eq, Structural)]
pub enum Control {
    /// Go on showing the lines.
    Stay,
    /// Close the pager and go back to the caller.
    Close,
}

/// The text of the pager's footer.
pub fn pager_footer() -> (text: &'static str)
    ensures
        text@ == "↑/↓: Scroll | PgUp/PgDn: Fast scroll | Home/End: First/Last | Q/Esc/Enter: Return"@,
{
    "↑/↓: Scroll | PgUp/PgDn: Fast scroll | Home/End: First/Last | Q/Esc/Enter: Return"
}

/// The screen laid out for the pager or the live view: the pane, the footer,
/// and the part of the lines that the pane shows.
#[derive(Clone, Copy, Debug, PartialEq, Eq, Structural)]
pub struct Screen {
    pub pane: Area,
    pub footer: Area,
    pub window: Window,
}

/// The pager's state: the offset of its window.
#[derive(Clone, Copy, Debug, PartialEq, Eq, Structural)]
pub struct Viewer {
    scroll: usize,
}

impl View for Viewer {
    type V = nat;

    closed spec fn view(&self) -> nat {
        self.scroll as nat
    }
}

impl Viewer {
    /// A pager at the first line.
    pub fn new() -> (viewer: Viewer)
        ensures
            viewer@ == 0,
    {
        Viewer { scroll: 0 }
    }

    /// The offset of the window.
    pub fn scroll(&self) -> (scroll: usize)
        ensures
            scroll == self@,
    {
        self.scroll
    }

    /// Lays the window out for a pane of the given height: the offset is
    /// brought back into range, and the lines from there on that fit are shown.
    pub fn fit(&mut self, total: usize, pane_height: u16) -> (window: Window)
        ensures
            final(self)@ == smaller(
                old(self)@,
                max_scroll(total as nat, minus_or_zero(pane_height as nat, BORDER_ROWS as nat)),
            ),
            (window.first as nat, window.count as nat) == window_at(
                final(self)@,
                total as nat,
                minus_or_zero(pane_height as nat, BORDER_ROWS as nat),
            ),
            window.first + window.count <= total,
    {
        let visible = lines_in_pane(pane_height);
        let max = if total > visible {
            total - visible
        } else {
            0
        };
        if self.scroll > max {
            self.scroll = max;
        }
        let left = total - self.scroll;
        Window {
            first: self.scroll,
            count: if visible <= left {
                visible
            } else {
                left
            },
        }
    }

    /// Lays the pager out on the screen: the screen is split into pane and
    /// footer, which both span its columns, and the window is fitted to the
    /// pane that comes out of it.
    pub fn fit_to_area(&mut self, total: usize, screen: Area) -> (laid: Screen)
        ensures
            final(self)@ == smaller(
                old(self)@,
                max_scroll(total as nat, minus_or_zero(laid.pane.height as nat, BORDER_ROWS as nat)),
            ),
            (laid.window.first as nat, laid.window.count as nat) == window_at(
                final(self)@,
                total as nat,
                minus_or_zero(laid.pane.height as nat, BORDER_ROWS as nat),
            ),
            laid.window.first + laid.window.count <= total,
            spans_columns(laid.pane, screen),
            spans_columns(laid.footer, screen),
    {
        let (pane, footer) = pane_and_footer(screen);
        let window = self.fit(total, pane.height);
        Screen { pane, footer, window }
    }

    /// The title of the pane for a list of `total` lines.
    pub fn title(&self, total: usize) -> (title: String)
        ensures
            title@ == pager_title(self@, total as nat),
    {
        let mut title = String::from_str(" Output (Line ");
        if total == 0 {
            push_decimal(&mut title, 1);
        } else {
            push_decimal(&mut title, self.scroll as u128 + 1);
        }
        title.append("/");
        push_decimal(&mut title, total as u128);
        title.append(") ");
        title
    }

    /// Handles a key press in a terminal of the given height: the arrows and
    /// `j`/`k` move by one line, the page keys by one window, Home and End go
    /// to the first and the last window; `q`, Escape and Enter close the pager.
    pub fn on_key(&mut self, key: Key, total: usize, terminal_height: u16) -> (control: Control)
        ensures
            final(self)@ == scrolled(
                old(self)@,
                key,
                total as nat,
                minus_or_zero(terminal_height as nat, CHROME_ROWS as nat),
            ),
            control == if key.closes() {
                Control::Close
            } else {
                Control::Stay
            },
    {
        let visible: usize = lines_in_terminal(terminal_height);
        let max: usize = if total > visible {
            total - visible
        } else {
            0
        };
        if key.is_close() {
            return Control::Close;
        }
        if key.is_step_down() {
            if self.scroll < max {
                self.scroll = self.scroll + 1;
            }
        } else if key.is_step_up() {
            if self.scroll > 0 {
                self.scroll = self.scroll - 1;
            }
        } else {
            match key {
                Key::PageDown => {
                    if self.scroll >= max || max - self.scroll <= visible {
                        self.scroll = max;
                    } else {
                        self.scroll = self.scroll + visible;
                    }
                },
                Key::PageUp => {
                    self.scroll = if self.scroll > visible {
                        self.scroll - visible
                    } else {
                        0
                    };
                },
                Key::Home => {
                    self.scroll = 0;
                },
                Key::End => {
                    self.scroll = max;
                },
                _ => {},
            }
        }
        Control::Stay
    }
}

/// A key press never takes an offset that is in range out of range.
pub proof fn lemma_keys_keep_offset_in_range(scroll: nat, key: Key, total: nat, visible: nat)
    requires
        scroll <= max_scroll(total, visible),
    ensures
        scrolled(scroll, key, total, visible) <= max_scroll(total, visible),
{
}

/// After the window has been laid out its offset is in range, whatever it was
/// before and whatever the size of the pane.
pub proof fn lemma_fit_brings_offset_in_range(scroll: nat, total: nat, visible: nat)
    ensures
        smaller(scroll, max_scroll(total, visible)) <= max_scroll(total, visible),
        scroll <= max_scroll(total, visible) ==> smaller(scroll, max_scroll(total, visible))
            == scroll,
        window_at(smaller(scroll, max_scroll(total, visible)), total, visible).1 == smaller(
            visible,
            total,
        ),
{
}

} // verus!
