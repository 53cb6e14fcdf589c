//! What the command line and the main menu start.

use vstd::prelude::*;
use vstd::string::StringExecFns;
use crate::input::Key;

verus! {

/// A subcommand given on the command line.
#[derive(Clone, Copy, Debug, PartialEq, Eq, Structural)]
pub enum Commands {
    /// Fix the icon cache, and restart the shell if asked to.
    FixIconCache { restart_explorer: bool },
    /// Clean temporary files, those of the user too if asked to.
    CleanTemp { include_user: bool },
    /// Install the toolkit to the system path.
    Install,
    /// Remove the toolkit from the system.
    Uninstall,
}

/// A maintenance operation with its settings.
#[derive(Clone, Copy, Debug, PartialEq, Eq, Structural)]
pub enum Job {
    FixIconCache { restart_explorer: bool },
    CleanTemp { include_user: bool },
    Install,
    Uninstall,
}

/// How an operation is run and shown.
#[derive(Clone, Copy, Debug, PartialEq, Eq, Structural)]
pub enum Launch {
    /// Run on the calling thread, printing to the console as it goes.
    Console(Job),
    /// Run in the background, its lines streamed into the live view.
    Live(Job),
    /// Run outside the full-screen interface, then wait for Enter.
    Simple(Job),
    /// Show the system monitor.
    Monitor,
}

/// What a subcommand stands for.
pub open spec fn job_of(command: Commands) -> Job {
    match command {
        Commands::FixIconCache { restart_explorer } => Job::FixIconCache { restart_explorer },
        Commands::CleanTemp { include_user } => Job::CleanTemp { include_user },
        Commands::Install => Job::Install,
        Commands::Uninstall => Job::Uninstall,
    }
}

/// Decides what a subcommand runs: its operation, with the settings given, on
/// the console.
pub fn run_cli_mode(command: Commands) -> (launch: Launch)
    ensures
        launch == Launch::Console(job_of(command)),
{
    match command {
        Commands::FixIconCache { restart_explorer } => Launch::Console(
            Job::FixIconCache { restart_explorer },
        ),
        Commands::CleanTemp { include_user } => Launch::Console(Job::CleanTemp { include_user }),
        Commands::Install => Launch::Console(Job::Install),
        Commands::Uninstall => Launch::Console(Job::Uninstall),
    }
}

/// The title under which an operation is shown.
pub open spec fn title_of(job: Job) -> Seq<char> {
    match job {
        Job::FixIconCache { .. } => "Fix Icon Cache"@,
        Job::CleanTemp { .. } => "Clean Temp Files"@,
        Job::Install => "Install to System"@,
        Job::Uninstall => "Uninstall from System"@,
    }
}

/// The title under which an operation is shown.
pub fn job_title(job: Job) -> (title: &'static str)
    ensures
        title@ == title_of(job),
{
    match job {
        Job::FixIconCache { .. } => "Fix Icon Cache",
        Job::CleanTemp { .. } => "Clean Temp Files",
        Job::Install => "Install to System",
        Job::Uninstall => "Uninstall from System",
    }
}

/// The number of entries in the main menu.
pub const MENU_ENTRIES: usize = 6;

/// What the menu entry at `selected` starts; `None` for the entry that leaves
/// the program and for an index past the last entry.
pub open spec fn entry_launch(selected: usize) -> Option<Launch> {
    if selected == 0 {
        Some(Launch::Live(Job::FixIconCache { restart_explorer: true }))
    } else if selected == 1 {
        Some(Launch::Live(Job::CleanTemp { include_user: false }))
    } else if selected == 2 {
        Some(Launch::Monitor)
    } else if selected == 3 {
        Some(Launch::Simple(Job::Install))
    } else if selected == 4 {
        Some(Launch::Simple(Job::Uninstall))
    } else {
        None
    }
}

/// What a key press in the main menu leads to.
#[derive(Clone, Copy, Debug, PartialEq, Eq, Structural)]
pub enum MenuAction {
    /// Stay in the menu.
    Stay,
    /// Run something, then come back to the menu.
    Run(Launch),
    /// Leave the program.
    Quit,
}

/// The main menu: which entry is highlighted.
#[derive(Clone, Copy, Debug, PartialEq, Eq, Structural)]
pub struct Menu {
    selected: usize,
}

impl Menu {
    /// The highlighted entry.
    pub closed spec fn index(self) -> usize {
        self.selected
    }

    #[verifier::type_invariant]
    spec fn in_range(self) -> bool {
        self.selected < MENU_ENTRIES
    }

    /// The menu after `key`, and what the key leads to.
    pub open spec fn pressed(self, key: Key) -> (usize, MenuAction) {
        if key == Key::Char('q') || key == Key::Esc {
            (self.index(), MenuAction::Quit)
        } else if key.steps_down() {
            (((self.index() + 1) % (MENU_ENTRIES as int)) as usize, MenuAction::Stay)
        } else if key.steps_up() {
            (
                if self.index() > 0 {
                    (self.index() - 1) as usize
                } else {
                    (MENU_ENTRIES - 1) as usize
                },
                MenuAction::Stay,
            )
        } else if key == Key::Enter {
            (
                self.index(),
                match entry_launch(self.index()) {
                    Some(launch) => MenuAction::Run(launch),
                    None => MenuAction::Quit,
                },
            )
        } else {
            (self.index(), MenuAction::Stay)
        }
    }

    /// A menu with its first entry highlighted.
    pub fn new() -> (menu: Menu)
        ensures
            menu.index() == 0,
    {
        Menu { selected: 0 }
    }

    /// The highlighted entry.
    pub fn selected(&self) -> (i: usize)
        ensures
            i == self.index(),
            i < MENU_ENTRIES,
    {
        proof {
            use_type_invariant(self);
        }
        self.selected
    }

    /// Handles a key press: the arrows and `j`/`k` move the highlight and wrap
    /// at both ends, Enter runs the highlighted entry, `q` and Escape leave.
    pub fn on_key(&mut self, key: Key) -> (action: MenuAction)
        ensures
            (final(self).index(), action) == old(self).pressed(key),
    {
        proof {
            use_type_invariant(&*self);
        }
        match key {
            Key::Char(c) => {
                if c == 'q' {
                    return MenuAction::Quit;
                } else if c == 'j' {
                    self.selected = (self.selected + 1) % MENU_ENTRIES;
                } else if c == 'k' {
                    self.selected = if self.selected > 0 {
                        self.selected - 1
                    } else {
                        MENU_ENTRIES - 1
                    };
                }
                MenuAction::Stay
            },
            Key::Esc => MenuAction::Quit,
            Key::Down => {
                self.selected = (self.selected + 1) % MENU_ENTRIES;
                MenuAction::Stay
            },
            Key::Up => {
                self.selected = if self.selected > 0 {
                    self.selected - 1
                } else {
                    MENU_ENTRIES - 1
                };
                MenuAction::Stay
            },
            Key::Enter => {
                if self.selected == 0 {
                    MenuAction::Run(Launch::Live(Job::FixIconCache { restart_explorer: true }))
                } else if self.selected == 1 {
                    MenuAction::Run(Launch::Live(Job::CleanTemp { include_user: false }))
                } else if self.selected == 2 {
                    MenuAction::Run(Launch::Monitor)
                } else if self.selected == 3 {
                    MenuAction::Run(Launch::Simple(Job::Install))
                } else if self.selected == 4 {
                    MenuAction::Run(Launch::Simple(Job::Uninstall))
                } else {
                    MenuAction::Quit
                }
            },
            _ => MenuAction::Stay,
        }
    }
}

/// The label of the menu entry at `index`; empty past the last entry.
pub open spec fn label_of(index: usize) -> Seq<char> {
    if index == 0 {
        "🔧 Fix Icon Cache"@
    } else if index == 1 {
        "🧹 Clean Temp Files"@
    } else if index == 2 {
        "📊 Real-time Monitor"@
    } else if index == 3 {
        "📦 Install to System"@
    } else if index == 4 {
        "🗑️ Uninstall from System"@
    } else if index == 5 {
        "➡️ Exit"@
    } else {
        ""@
    }
}

/// The label of the menu entry at `index`.
pub fn menu_label(index: usize) -> (label: &'static str)
    ensures
        label@ == label_of(index),
{
    if index == 0 {
        "🔧 Fix Icon Cache"
    } else if index == 1 {
        "🧹 Clean Temp Files"
    } else if index == 2 {
        "📊 Real-time Monitor"
    } else if index == 3 {
        "📦 Install to System"
    } else if index == 4 {
        "🗑️ Uninstall from System"
    } else if index == 5 {
        "➡️ Exit"
    } else {
        ""
    }
}

/// The heading above the menu.
pub fn menu_header() -> (text: &'static str)
    ensures
        text@ == "🍋 Lemo - Windows System Toolkit"@,
{
    "🍋 Lemo - Windows System Toolkit"
}

/// The key hints below the menu.
pub fn menu_footer() -> (text: &'static str)
    ensures
        text@ == "↑/↓: Navigate | Enter: Execute | Q/Esc: Quit"@,
{
    "↑/↓: Navigate | Enter: Execute | Q/Esc: Quit"
}

/// The line that frames the title of an operation run outside the full-screen
/// interface: fifty equals signs.
pub open spec fn frame_line() -> Seq<char> {
    Seq::new(50, |i: int| '=')
}

/// The lines printed before such an operation runs: an empty one, the title
/// between two frame lines, and an empty one.
pub open spec fn banner_lines(title: Seq<char>) -> Seq<Seq<char>> {
    seq![Seq::empty(), frame_line(), title, frame_line(), Seq::empty()]
}

/// The lines printed before an operation runs outside the full-screen interface.
pub fn simple_task_banner(title: &str) -> (lines: Vec<String>)
    ensures
        crate::text::texts(lines@) == banner_lines(title@),
{
    let frame = "==================================================";
    proof {
        reveal_strlit("==================================================");
        assert(frame@ =~= frame_line());
    }
    let mut lines: Vec<String> = Vec::new();
    lines.push(String::new());
    lines.push(String::from_str(frame));
    lines.push(String::from_str(title));
    lines.push(String::from_str(frame));
    lines.push(String::new());
    assert(crate::text::texts(lines@) =~= banner_lines(title@));
    lines
}

/// The prompt shown once such an operation has ended.
pub fn simple_task_prompt() -> (text: &'static str)
    ensures
        text@ == "Press Enter to return to menu..."@,
{
    "Press Enter to return to menu..."
}

} // verus!
