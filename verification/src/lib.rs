//! Recent-navigator core: the data model, MRU ordering, category builders,
//! command-line heuristics and terminal-text helpers behind the Herdr
//! recent workspaces/tabs/panes switcher.

pub mod app;
pub mod cli;
pub mod format;
pub mod herdr;
pub mod laws;
pub mod models;
pub mod mru;
pub mod order;
pub mod strmap;
pub mod others;
pub mod session;
pub mod text;
pub mod theme;
pub mod tracker;
