//! Account-profile switching for the Codex CLI: the rules and formats of
//! the tool, stated as contracts and proved.
pub mod text;
pub mod config;
pub mod names;
pub mod args;
pub mod format;
pub mod style;
pub mod table;
pub mod json;
pub mod activity;
pub mod usage;
pub mod query;
pub mod paths;
pub mod storage;
pub mod flow;
pub mod commands;
pub mod login;
pub mod setup;
pub mod report;
pub mod shell;
pub mod document;
pub mod listing;
pub mod exit;
pub mod statistics;
