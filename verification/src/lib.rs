//! Looking up debug symbol files: in the caches of the configured symbol
//! servers first, then at the servers themselves.
pub mod disk;
pub mod error;
pub mod fetch;
pub mod jobs;
pub mod lookup;
pub mod sympath;
pub mod text;

pub use crate::lookup::search_symbol_file;
