//! A small line-oriented text search: the lines of a text that contain a
//! query, with or without regard to case, and the configuration of one run.

pub mod config;
pub mod runner;
pub mod search;
pub mod selection;
pub mod text;

pub use config::{Config, ConfigError};
pub use runner::find_matches;
pub use search::{search, search_by_key, search_case_insensitive};
