//! The command line and what one start of the program does with it.

use vstd::prelude::*;

use crate::models::{category_named, CategoryTab};

verus! {

/// The subcommands of the program.
#[derive(Debug, Clone, Copy, PartialEq, Eq, Structural)]
pub enum Command {
    /// Record a `pane.focused` event in the recent-items state.
    Track,
}

/// The parsed command line.
#[derive(Debug, Clone)]
pub struct Cli {
    /// Optional subcommand (track mode).
    pub command: Option<Command>,
    /// Category tab to open (`workspaces`, `tabs`, `agents` or `panes`).
    pub view: Option<String>,
    /// Open the overlay pane (called by the plugin keybinding).
    pub pane_open: bool,
    /// Use built-in sample nodes instead of connecting to Herdr.
    pub mock: bool,
    /// Write logs to this file instead of stderr.
    pub log_file: Option<String>,
}

/// What one start of the program does.
#[derive(Debug, Clone, Copy)]
pub enum Launch {
    /// Record the focus event that Herdr hands over, then exit.
    Track,
    /// Toggle the overlay pane, first remembering `remember` as the
    /// category the pane opens on, where `--view` named one.
    PaneOpen { remember: Option<CategoryTab> },
    /// Run the navigator itself.
    Navigate,
}

/// The text of an optional string argument.
pub open spec fn opt_chars(s: Option<String>) -> Option<Seq<char>> {
    match s {
        Some(v) => Some(v@),
        None => None,
    }
}

/// The category that a `--view` value names, if it names one.
pub open spec fn view_category(view: Option<Seq<char>>) -> Option<CategoryTab> {
    match view {
        Some(v) => category_named(v),
        None => None,
    }
}

/// The track subcommand wins over everything; then `--pane-open`; else the
/// navigator runs.
pub open spec fn launch_of(command: Option<Command>, view: Option<Seq<char>>, pane_open: bool) -> Launch {
    match command {
        Some(Command::Track) => Launch::Track,
        None => if pane_open {
            Launch::PaneOpen { remember: view_category(view) }
        } else {
            Launch::Navigate
        },
    }
}

/// The category the navigator starts on: the one `--view` names, else the
/// one remembered from the last run, else `current`.
pub open spec fn start_category_of(
    view: Option<Seq<char>>,
    last: Option<CategoryTab>,
    current: CategoryTab,
) -> CategoryTab {
    match view_category(view) {
        Some(t) => t,
        None => match last {
            Some(t) => t,
            None => current,
        },
    }
}

fn category_of_view(view: &Option<String>) -> (res: Option<CategoryTab>)
    ensures
        res == view_category(opt_chars(*view)),
{
    match view {
        Some(v) => match CategoryTab::parse(v.as_str()) {
            Ok(t) => Some(t),
            Err(_) => None,
        },
        None => None,
    }
}

impl Cli {
    /// What this start of the program does.
    pub fn launch(&self) -> (res: Launch)
        ensures
            res == launch_of(self.command, opt_chars(self.view), self.pane_open),
    {
        match self.command {
            Some(Command::Track) => Launch::Track,
            None => {
                if self.pane_open {
                    Launch::PaneOpen { remember: category_of_view(&self.view) }
                } else {
                    Launch::Navigate
                }
            },
        }
    }

    /// The category the navigator starts on, given the category remembered
    /// from the last run and the state's own `current` one.
    pub fn start_category(&self, last: Option<CategoryTab>, current: CategoryTab) -> (res: CategoryTab)
        ensures
            res == start_category_of(opt_chars(self.view), last, current),
    {
        match category_of_view(&self.view) {
            Some(t) => t,
            None => match last {
                Some(t) => t,
                None => current,
            },
        }
    }
}

} // verus!
