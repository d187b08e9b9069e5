//! Task lifecycle over pluggable stores.
//!
//! The library holds the rules: how tasks move between states, how queries select them,
//! how GitHub issues and their metadata comments map to tasks, and what the `task`
//! commands print. Files, subprocesses and argument parsing belong to the program that
//! uses it.

pub mod change_laws;
pub mod clock;
pub mod command_laws;
pub mod comment;
pub mod config;
pub mod display;
pub mod display_laws;
pub mod entries;
pub mod json;
pub mod json_laws;
pub mod list_laws;
pub mod number;
pub mod ordering;
pub mod pattern;
pub mod query_laws;
pub mod record;
pub mod task;
pub mod task_cli;
pub mod task_laws;
pub mod task_list;
pub mod task_source;
pub mod task_source_registry;
pub mod task_sources;
pub mod text;
pub mod text_laws;
pub mod unicode;
