//! Which task source to use, and how it is configured.

use vstd::prelude::*;
use vstd::string::*;

verus! {

/// The configuration of a task source.
#[derive(Debug, PartialEq)]
pub enum ConnectorConfig {
    /// There is none.
    Null,
    /// A JSON value, as its text.
    Json(String),
}

/// The contents of a [`ConnectorConfig`]: its JSON text.
pub open spec fn config_text(c: ConnectorConfig) -> Option<Seq<char>> {
    match c {
        ConnectorConfig::Null => None,
        ConnectorConfig::Json(t) => Some(t@),
    }
}

impl Clone for ConnectorConfig {
    fn clone(&self) -> (r: Self)
        ensures
            r == *self,
    {
        match self {
            ConnectorConfig::Null => ConnectorConfig::Null,
            ConnectorConfig::Json(t) => ConnectorConfig::Json(t.clone()),
        }
    }
}

/// The choice of a task source.
#[derive(Debug, PartialEq)]
pub enum TaskSourceConfig {
    /// By name alone.
    Named(String),
    /// By name, with a configuration.
    Typed { source_type: String, config: ConnectorConfig },
}

/// The name of the chosen task source.
pub open spec fn chosen_name(c: TaskSourceConfig) -> Seq<char> {
    match c {
        TaskSourceConfig::Named(name) => name@,
        TaskSourceConfig::Typed { source_type, config: _ } => source_type@,
    }
}

/// The configuration of the chosen task source.
pub open spec fn chosen_config(c: TaskSourceConfig) -> ConnectorConfig {
    match c {
        TaskSourceConfig::Named(_) => ConnectorConfig::Null,
        TaskSourceConfig::Typed { source_type: _, config } => config,
    }
}

impl Default for TaskSourceConfig {
    fn default() -> (r: Self)
        ensures
            chosen_name(r) == "jsonl"@,
            chosen_config(r) is Null,
    {
        TaskSourceConfig::Named("jsonl".to_string())
    }
}

} // verus!
