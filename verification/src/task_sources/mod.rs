//! Task source implementations.

pub mod any;
pub mod github;
pub mod jsonl;
pub mod jsonl_laws;
pub mod jsonl_store;
pub mod mock;
pub mod opening_laws;
pub mod store_laws;
pub mod task_file;
