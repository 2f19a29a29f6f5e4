//! Search the lines of a text for a query, with or without regard to letter case.
use vstd::prelude::*;

pub mod config;
pub mod laws;
pub mod lines;
pub mod search;

pub use config::{Config, ConfigError};
pub use lines::split_lines;
pub use search::{search, search_case_insensitive, search_with, select_by_keys};

verus! {

} // verus!
