//! Settings of the indexer.

use crate::pattern::FilePattern;
use vstd::prelude::*;

verus! {

#[derive(Clone, Copy, Debug, PartialEq, Eq, Structural)]
pub enum LogLevel {
    Critical,
    Error,
    Warning,
    Info,
    Debug,
    Trace,
}

/// Settings of index generation.
pub struct RepodataConfig {
    /// Number of worker threads.
    pub concurrency: usize,
    /// Selects the file paths that primary records list.
    pub useful_files: FilePattern,
}

/// What one generation run is asked to do.
#[derive(Clone, Debug, PartialEq, Eq)]
pub struct RepodataOptions {
    pub generate_fileslists: bool,
    /// The repository root.
    pub path: String,
}

pub struct Config {
    pub log_level: LogLevel,
    pub repodata: RepodataConfig,
}

impl Config {
    /// Every configuration that could be read is accepted.
    pub fn validate(&self) -> (r: Result<(), String>)
        ensures
            r is Ok,
    {
        Ok(())
    }
}

} // verus!
