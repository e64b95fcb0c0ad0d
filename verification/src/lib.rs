//! Lane bookkeeping for tmux-driven agent sessions.

pub mod board_laws;
pub mod commands;
pub mod error;
pub mod git;
pub mod git_laws;
pub mod keyed;
pub mod label_laws;
pub mod lanes;
pub mod laws;
pub mod ledger;
pub mod names;
pub mod outside;
pub mod panes;
pub mod path_laws;
pub mod paths;
pub mod record_laws;
pub mod records;
pub mod registration;
pub mod report;
pub mod report_laws;
pub mod restore;
pub mod restore_laws;
pub mod schema;
pub mod shell;
pub mod status;
pub mod table;
pub mod tables;
pub mod text;
pub mod text_laws;
pub mod worktrees;
