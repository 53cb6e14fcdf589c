//! Long-running filesystem maintenance with live progress: the decisions
//! behind the cleaner, the bounded scanner, the live view and the pager.
//!
//! The library touches no file and draws nothing. Its caller lists
//! directories, removes files, reads keys and paints the screen; the library
//! says what to do next and words every line that is shown.
//!
//! - `scanner` walks a directory tree step by step; `walk` says what a whole
//!   scan amounts to and runs the scanner over a tree held in memory;
//!   `scan_laws` holds what is true of every scan.
//! - `cleaner` empties one directory and caps what it reports by name.
//! - `temp_files` and `icon_cache` word the reports of the two operations.
//! - `live` takes in the lines of a running task and paces the redraws;
//!   `viewer` is the pager; `layout` splits the screen for both.
//! - `cli` maps subcommands and menu entries to what they start; `input`
//!   names the keys; `console` encodes texts for the system's calls.
//! - `monitor` words rates and picks the interfaces and sensors to show.
//! - `text`, `words`, `names`, `totals` and `tree` are what the others build on.

pub mod cleaner;
pub mod cli;
pub mod console;
pub mod icon_cache;
pub mod input;
pub mod layout;
pub mod live;
pub mod monitor;
pub mod names;
pub mod scan_laws;
pub mod scanner;
pub mod temp_files;
pub mod text;
pub mod totals;
pub mod tree;
pub mod viewer;
pub mod walk;
pub mod words;
